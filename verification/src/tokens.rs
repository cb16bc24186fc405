//! Tokens produced by the lexer: a kind, spans into the source buffer for
//! the token text and its surrounding trivia, and — for content-bearing
//! kinds — the decoded value.

use vstd::prelude::*;

use crate::content::FileContent;
use crate::text::chars_to_string;

verus! {

/// The kinds of token the lexer emits. `Error` never appears in a produced
/// token; it is what `peek_type` answers when the buffered result is an
/// error.
#[derive(Copy, Clone, PartialEq, Eq, Structural, Debug)]
pub enum TokenType {
    Error,
    StartOfInput,
    EndOfInput,
    EndOfLine,
    Indent,
    Outdent,
    Colon,
    GreaterThan,
    Word,
    QuotedText,
    LineText,
    BlockText,
}

/// The content-bearing kinds: exactly these carry a decoded value.
pub open spec fn is_content_type(t: TokenType) -> bool {
    t is Word || t is QuotedText || t is LineText || t is BlockText
}

/// A short display name for each token kind, used in diagnostics.
pub open spec fn token_type_name_seq(t: TokenType) -> Seq<char> {
    match t {
        TokenType::Error => "Error"@,
        TokenType::StartOfInput => "StartOfInput"@,
        TokenType::EndOfInput => "EndOfInput"@,
        TokenType::EndOfLine => "EndOfLine"@,
        TokenType::Indent => "Indent"@,
        TokenType::Outdent => "Outdent"@,
        TokenType::Colon => "Colon"@,
        TokenType::GreaterThan => "GreaterThan"@,
        TokenType::Word => "Word"@,
        TokenType::QuotedText => "QuotedText"@,
        TokenType::LineText => "LineText"@,
        TokenType::BlockText => "BlockText"@,
    }
}

/// Executable twin of [`token_type_name_seq`].
pub fn token_type_name(t: TokenType) -> (r: &'static str)
    ensures
        r@ == token_type_name_seq(t),
{
    match t {
        TokenType::Error => "Error",
        TokenType::StartOfInput => "StartOfInput",
        TokenType::EndOfInput => "EndOfInput",
        TokenType::EndOfLine => "EndOfLine",
        TokenType::Indent => "Indent",
        TokenType::Outdent => "Outdent",
        TokenType::Colon => "Colon",
        TokenType::GreaterThan => "GreaterThan",
        TokenType::Word => "Word",
        TokenType::QuotedText => "QuotedText",
        TokenType::LineText => "LineText",
        TokenType::BlockText => "BlockText",
    }
}

/// One token. Spans are half-open character-offset ranges into the source
/// buffer: leading trivia in `[leading_trivia_start, text_start)`, the token
/// text in `[text_start, text_end)`, trailing trivia in
/// `[text_end, trailing_trivia_end)`.
#[derive(Debug)]
pub struct Token {
    pub token_type: TokenType,
    pub leading_trivia_start: usize,
    pub text_start: usize,
    pub text_end: usize,
    pub trailing_trivia_end: usize,
    pub value: Option<String>,
}

impl Token {
    /// Internal consistency: spans are ordered, and exactly the
    /// content-bearing kinds carry a decoded value.
    pub open spec fn wf(&self) -> bool {
        &&& self.leading_trivia_start <= self.text_start
        &&& self.text_start <= self.text_end
        &&& self.text_end <= self.trailing_trivia_end
        &&& is_content_type(self.token_type) <==> self.value is Some
    }

    /// Whether every span fits a buffer of `len` characters.
    pub open spec fn in_bounds(&self, len: int) -> bool {
        self.trailing_trivia_end <= len
    }

    /// The decoded value, as a sequence of characters (content kinds only).
    pub open spec fn value_seq(&self) -> Seq<char> {
        self.value->0@
    }

    /// Builds a token. A token of a content-bearing kind must be given a
    /// value and any other kind must not — a mismatch is an internal bug,
    /// not a user-facing error.
    pub fn new(
        token_type: TokenType,
        leading_trivia_start: usize,
        trailing_trivia_end: usize,
        text_start: usize,
        text_end: usize,
        value: Option<String>,
    ) -> (r: Token)
        requires
            is_content_type(token_type) <==> value is Some,
            leading_trivia_start <= text_start,
            text_start <= text_end,
            text_end <= trailing_trivia_end,
        ensures
            r == (Token {
                token_type,
                leading_trivia_start,
                text_start,
                text_end,
                trailing_trivia_end,
                value,
            }),
            r.wf(),
    {
        Token { token_type, leading_trivia_start, text_start, text_end, trailing_trivia_end, value }
    }

    /// A copy of the leading trivia text.
    pub fn leading_trivia(&self, content: &FileContent) -> (r: String)
        requires
            self.wf(),
            self.in_bounds(content.text_seq().len() as int),
        ensures
            r@ == content.text_seq().subrange(
                self.leading_trivia_start as int,
                self.text_start as int,
            ),
    {
        let v = content.slice_chars(self.leading_trivia_start, self.text_start);
        chars_to_string(&v)
    }

    /// A copy of the trailing trivia text.
    pub fn trailing_trivia(&self, content: &FileContent) -> (r: String)
        requires
            self.wf(),
            self.in_bounds(content.text_seq().len() as int),
        ensures
            r@ == content.text_seq().subrange(
                self.text_end as int,
                self.trailing_trivia_end as int,
            ),
    {
        let v = content.slice_chars(self.text_end, self.trailing_trivia_end);
        chars_to_string(&v)
    }

    /// A copy of the raw token text (undecoded).
    pub fn text(&self, content: &FileContent) -> (r: String)
        requires
            self.wf(),
            self.in_bounds(content.text_seq().len() as int),
        ensures
            r@ == content.text_seq().subrange(self.text_start as int, self.text_end as int),
    {
        let v = content.slice_chars(self.text_start, self.text_end);
        chars_to_string(&v)
    }

    /// The decoded value, if this token carries one.
    pub fn value(&self) -> (r: Option<&String>)
        ensures
            r is Some <==> self.value is Some,
            r is Some ==> r->0@ == self.value_seq(),
    {
        match &self.value {
            Some(v) => Some(v),
            None => None,
        }
    }

    /// The decoded value for content kinds, the raw text otherwise.
    pub fn value_or_text(&self, content: &FileContent) -> (r: String)
        requires
            self.wf(),
            self.in_bounds(content.text_seq().len() as int),
        ensures
            self.value is Some ==> r@ == self.value_seq(),
            self.value is None ==> r@ == content.text_seq().subrange(
                self.text_start as int,
                self.text_end as int,
            ),
    {
        match &self.value {
            Some(v) => v.clone(),
            None => self.text(content),
        }
    }
}

} // verus!
