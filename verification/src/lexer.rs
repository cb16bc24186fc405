//! The indentation-sensitive lexer: consumes the source buffer, classifies
//! trivia, tracks indentation depth in units of four spaces, and emits a
//! token stream with one token of lookahead.

use vstd::prelude::*;
use vstd::utf8::is_scalar;

use crate::content::FileContent;
use crate::error::{ErrorKind, ParsingError};
use crate::text::chars_to_string;
use crate::tokens::{is_content_type, Token, TokenType};

verus! {

/// The number of spaces per indentation level.
pub open spec fn indent_unit() -> int {
    4
}

/// Newline characters.
pub open spec fn is_nl(c: char) -> bool {
    c == '\n' || c == '\r'
}

/// Blank (intra-line whitespace) characters: space and tab.
pub open spec fn is_blank(c: char) -> bool {
    c == ' ' || c == '\t'
}

/// Executable twin of [`is_nl`].
fn is_nl_exec(c: char) -> (r: bool)
    ensures
        r == is_nl(c),
{
    c == '\n' || c == '\r'
}

/// Executable twin of [`is_blank`].
fn is_blank_exec(c: char) -> (r: bool)
    ensures
        r == is_blank(c),
{
    c == ' ' || c == '\t'
}

/// What `unic_ucd_category::GeneralCategory::of` classifies as acceptable in
/// a word, for characters beyond ASCII. The category of a character depends
/// on the character alone, so the result may be named.
pub uninterp spec fn unicode_word_class(c: char) -> bool;

/// Relies on `unic_ucd_category::GeneralCategory::of`: the general category
/// is a pure table lookup on the character. True exactly for the letter,
/// number, mark, connector-punctuation and format categories.
#[verifier::external_body]
fn unicode_word_category(c: char) -> (r: bool)
    ensures
        r == unicode_word_class(c),
{
    matches!(
        unic_ucd_category::GeneralCategory::of(c),
        unic_ucd_category::GeneralCategory::UppercaseLetter
        | unic_ucd_category::GeneralCategory::LowercaseLetter
        | unic_ucd_category::GeneralCategory::TitlecaseLetter
        | unic_ucd_category::GeneralCategory::ModifierLetter
        | unic_ucd_category::GeneralCategory::OtherLetter
        | unic_ucd_category::GeneralCategory::LetterNumber
        | unic_ucd_category::GeneralCategory::DecimalNumber
        | unic_ucd_category::GeneralCategory::ConnectorPunctuation
        | unic_ucd_category::GeneralCategory::NonspacingMark
        | unic_ucd_category::GeneralCategory::SpacingMark
        | unic_ucd_category::GeneralCategory::Format
    )
}

/// Relies on `char::from_u32`: yields a character exactly for Unicode scalar
/// values, and then the character with that code.
#[verifier::external_body]
fn char_from_u32(u: u32) -> (r: Option<char>)
    ensures
        r is Some <==> is_scalar(u),
        r is Some ==> r == Some(u as char),
{
    char::from_u32(u)
}

/// Characters that may begin a word token: letters, in the spec's terms.
pub open spec fn is_word_start(c: char) -> bool {
    ('a' <= c && c <= 'z') || ('A' <= c && c <= 'Z') || (c as u32 > 0x7F
        && unicode_word_class(c))
}

/// Characters that may continue a word token: letters, digits, underscores.
pub open spec fn is_word_char(c: char) -> bool {
    is_word_start(c) || ('0' <= c && c <= '9') || c == '_'
}

/// Executable twin of [`is_word_start`].
fn is_word_start_exec(c: char) -> (r: bool)
    ensures
        r == is_word_start(c),
{
    if c as u32 > 0x7F {
        unicode_word_category(c)
    } else {
        ('a' <= c && c <= 'z') || ('A' <= c && c <= 'Z')
    }
}

/// Executable twin of [`is_word_char`].
fn is_word_char_exec(c: char) -> (r: bool)
    ensures
        r == is_word_char(c),
{
    if c as u32 > 0x7F {
        unicode_word_category(c)
    } else {
        ('a' <= c && c <= 'z') || ('A' <= c && c <= 'Z') || ('0' <= c && c <= '9') || c == '_'
    }
}

/// The value of a hexadecimal digit character, case-insensitive.
pub open spec fn hex_val(c: char) -> Option<int> {
    if '0' <= c && c <= '9' {
        Some(c as u32 - '0' as u32)
    } else if 'a' <= c && c <= 'f' {
        Some(c as u32 - 'a' as u32 + 10)
    } else if 'A' <= c && c <= 'F' {
        Some(c as u32 - 'A' as u32 + 10)
    } else {
        None
    }
}

/// Executable twin of [`hex_val`], as a flag and a value.
fn hex_val_exec(c: char) -> (r: Option<u32>)
    ensures
        r is Some <==> hex_val(c) is Some,
        r is Some ==> Some(r->0 as int) == hex_val(c),
{
    let u = c as u32;
    if '0' <= c && c <= '9' {
        Some(u - 48)
    } else if 'a' <= c && c <= 'f' {
        Some(u - 97 + 10)
    } else if 'A' <= c && c <= 'F' {
        Some(u - 65 + 10)
    } else {
        None
    }
}

/// The end of the run of spaces beginning at `i`.
pub open spec fn space_run_end(text: Seq<char>, i: int) -> int
    decreases text.len() - i,
{
    if i < 0 || i >= text.len() || text[i] != ' ' {
        i
    } else {
        space_run_end(text, i + 1)
    }
}

/// The end of the run of blanks (spaces and tabs) beginning at `i`.
pub open spec fn blank_run_end(text: Seq<char>, i: int) -> int
    decreases text.len() - i,
{
    if i < 0 || i >= text.len() || !is_blank(text[i]) {
        i
    } else {
        blank_run_end(text, i + 1)
    }
}

/// Whether the leading whitespace of the line starting at `ls` holds a tab.
pub open spec fn leading_has_tab(text: Seq<char>, ls: int) -> bool {
    exists|k: int| ls <= k < blank_run_end(text, ls) && text[k] == '\t'
}

/// One trivia pass from position `i`: blanks are consumed, a comment sign
/// consumes through its line, and a newline is consumed only when
/// `newlines_ok` (and a carriage return there must pair with a line feed).
/// Yields the first position that is not trivia, or the position of a bad
/// carriage return.
pub open spec fn trivia_scan(text: Seq<char>, i: int, newlines_ok: bool) -> Result<int, int>
    decreases text.len() - i,
    via trivia_scan_dec
{
    if i < 0 || i >= text.len() {
        Ok(i)
    } else {
        let c = text[i];
        if is_blank(c) {
            trivia_scan(text, i + 1, newlines_ok)
        } else if c == '#' {
            trivia_scan(text, line_end(text, i), newlines_ok)
        } else if is_nl(c) {
            if !newlines_ok {
                Ok(i)
            } else if c == '\r' && (i + 1 >= text.len() || text[i + 1] != '\n') {
                Err(i)
            } else {
                trivia_scan(
                    text,
                    i + (if c == '\r' {
                        2int
                    } else {
                        1int
                    }),
                    newlines_ok,
                )
            }
        } else {
            Ok(i)
        }
    }
}

#[via_fn]
proof fn trivia_scan_dec(text: Seq<char>, i: int, newlines_ok: bool) {
    if 0 <= i && i < text.len() && !is_blank(text[i]) && text[i] == '#' {
        lemma_line_end(text, i);
        assert(line_end(text, i) > i) by {
            if line_end(text, i) == i {
                assert(is_nl(text[i]));
            }
        }
    }
}

/// The end of the run of word characters beginning at `i`.
pub open spec fn word_run_end(text: Seq<char>, i: int) -> int
    decreases text.len() - i,
{
    if i < 0 || i >= text.len() || !is_word_char(text[i]) {
        i
    } else {
        word_run_end(text, i + 1)
    }
}

/// The end of the run of hex digits beginning at `i`, capped at `max` long.
pub open spec fn hex_run_len(text: Seq<char>, i: int, max: int) -> int
    decreases max,
{
    if max <= 0 || i < 0 || i >= text.len() || hex_val(text[i]) is None {
        0
    } else {
        1 + hex_run_len(text, i + 1, max - 1)
    }
}

/// The big-endian value of the `n` hex digits at `[i, i + n)`.
pub open spec fn hex_run_val(text: Seq<char>, i: int, n: int) -> int
    decreases n,
{
    if n <= 0 {
        0
    } else {
        hex_run_val(text, i, n - 1) * 16 + match hex_val(text[i + n - 1]) {
            Some(v) => v,
            None => 0,
        }
    }
}

/// The first newline at or after `i` (or the end of the text).
pub open spec fn line_end(text: Seq<char>, i: int) -> int
    decreases text.len() - i,
{
    if i < 0 || i >= text.len() || is_nl(text[i]) {
        i
    } else {
        line_end(text, i + 1)
    }
}

/// The first newline or comment sign at or after `i` (or the end).
pub open spec fn line_text_end(text: Seq<char>, i: int) -> int
    decreases text.len() - i,
{
    if i < 0 || i >= text.len() || is_nl(text[i]) || text[i] == '#' {
        i
    } else {
        line_text_end(text, i + 1)
    }
}

/// The end of `[from, j)` once trailing blanks are dropped, never below
/// `from`.
pub open spec fn trim_back_end(text: Seq<char>, from: int, j: int) -> int
    decreases j - from,
{
    if j <= from || j > text.len() || !is_blank(text[j - 1]) {
        j
    } else {
        trim_back_end(text, from, j - 1)
    }
}

/// Characterizes the runs: the result is a position in `[i, len]`, every
/// character before it (from `i`) satisfies the class, and the character at
/// it (if any) does not.
pub proof fn lemma_space_run(text: Seq<char>, i: int)
    requires
        0 <= i <= text.len(),
    ensures
        i <= space_run_end(text, i) <= text.len(),
        forall|k: int| i <= k < space_run_end(text, i) ==> text[k] == ' ',
        space_run_end(text, i) < text.len() ==> text[space_run_end(text, i)] != ' ',
    decreases text.len() - i,
{
    if i < text.len() && text[i] == ' ' {
        lemma_space_run(text, i + 1);
    }
}

/// Characterization of [`blank_run_end`], as for [`lemma_space_run`].
pub proof fn lemma_blank_run(text: Seq<char>, i: int)
    requires
        0 <= i <= text.len(),
    ensures
        i <= blank_run_end(text, i) <= text.len(),
        forall|k: int| i <= k < blank_run_end(text, i) ==> is_blank(#[trigger] text[k]),
        blank_run_end(text, i) < text.len() ==> !is_blank(text[blank_run_end(text, i)]),
    decreases text.len() - i,
{
    if i < text.len() && is_blank(text[i]) {
        lemma_blank_run(text, i + 1);
    }
}

/// Characterization of [`word_run_end`].
pub proof fn lemma_word_run(text: Seq<char>, i: int)
    requires
        0 <= i <= text.len(),
    ensures
        i <= word_run_end(text, i) <= text.len(),
        forall|k: int| i <= k < word_run_end(text, i) ==> is_word_char(#[trigger] text[k]),
        word_run_end(text, i) < text.len() ==> !is_word_char(text[word_run_end(text, i)]),
    decreases text.len() - i,
{
    if i < text.len() && is_word_char(text[i]) {
        lemma_word_run(text, i + 1);
    }
}

/// Characterization of [`line_end`].
pub proof fn lemma_line_end(text: Seq<char>, i: int)
    requires
        0 <= i <= text.len(),
    ensures
        i <= line_end(text, i) <= text.len(),
        forall|k: int| i <= k < line_end(text, i) ==> !is_nl(#[trigger] text[k]),
        line_end(text, i) < text.len() ==> is_nl(text[line_end(text, i)]),
    decreases text.len() - i,
{
    if i < text.len() && !is_nl(text[i]) {
        lemma_line_end(text, i + 1);
    }
}

/// Characterization of [`line_text_end`].
pub proof fn lemma_line_text_end(text: Seq<char>, i: int)
    requires
        0 <= i <= text.len(),
    ensures
        i <= line_text_end(text, i) <= text.len(),
        forall|k: int|
            i <= k < line_text_end(text, i) ==> !is_nl(#[trigger] text[k]) && text[k] != '#',
        line_text_end(text, i) < text.len() ==> (is_nl(text[line_text_end(text, i)])
            || text[line_text_end(text, i)] == '#'),
    decreases text.len() - i,
{
    if i < text.len() && !is_nl(text[i]) && text[i] != '#' {
        lemma_line_text_end(text, i + 1);
    }
}

/// Characterization of [`trim_back_end`].
pub proof fn lemma_trim_back(text: Seq<char>, from: int, j: int)
    requires
        0 <= from <= j <= text.len(),
    ensures
        from <= trim_back_end(text, from, j) <= j,
        forall|k: int| trim_back_end(text, from, j) <= k < j ==> is_blank(#[trigger] text[k]),
        trim_back_end(text, from, j) > from ==> !is_blank(text[trim_back_end(text, from, j) - 1]),
    decreases j - from,
{
    if j > from && is_blank(text[j - 1]) {
        lemma_trim_back(text, from, j - 1);
    }
}

/// Characterization of [`hex_run_len`].
pub proof fn lemma_hex_run(text: Seq<char>, i: int, max: int)
    requires
        0 <= i <= text.len(),
        0 <= max,
    ensures
        0 <= hex_run_len(text, i, max) <= max,
        i + hex_run_len(text, i, max) <= text.len(),
        forall|k: int| i <= k < i + hex_run_len(text, i, max) ==> hex_val(#[trigger] text[k]) is Some,
        hex_run_len(text, i, max) < max && i + hex_run_len(text, i, max) < text.len()
            ==> hex_val(text[i + hex_run_len(text, i, max)]) is None,
    decreases max,
{
    if max > 0 && i < text.len() && hex_val(text[i]) is Some {
        lemma_hex_run(text, i + 1, max - 1);
    }
}

/// Sixteen to the `n`.
pub open spec fn pow16(n: int) -> int
    decreases n,
{
    if n <= 0 {
        1
    } else {
        16 * pow16(n - 1)
    }
}

/// The value of a hex run is bounded by sixteen to its length.
pub proof fn lemma_hex_run_val_bound(text: Seq<char>, i: int, n: int)
    requires
        0 <= n,
        forall|k: int| i <= k < i + n ==> hex_val(#[trigger] text[k]) is Some,
        forall|k: int| i <= k < i + n ==> 0 <= hex_val(#[trigger] text[k])->0 < 16,
    ensures
        0 <= hex_run_val(text, i, n) < pow16(n),
    decreases n,
{
    if n > 0 {
        lemma_hex_run_val_bound(text, i, n - 1);
    }
}

/// The result of scanning quoted text from just after the opening quote.
pub enum QuotedScan {
    /// The decoded value and the position just past the closing quote.
    Done { value: Seq<char>, end: int },
    /// No closing quote before a newline or the end of input.
    Unterminated,
    /// An invalid escape; `at` is the backslash's position.
    BadEscape { at: int },
}

/// The single-character escapes.
pub open spec fn esc_simple(c: char) -> Option<char> {
    if c == '\'' {
        Some('\'')
    } else if c == '"' {
        Some('"')
    } else if c == '?' {
        Some('?')
    } else if c == '\\' {
        Some('\\')
    } else if c == 'n' {
        Some('\n')
    } else if c == 'r' {
        Some('\r')
    } else if c == 't' {
        Some('\t')
    } else {
        None
    }
}

/// Scanning and decoding of quoted text, from position `i` (just after the
/// opening quote): literal characters are copied; backslash escapes decode
/// to single characters; `\u` takes up to six hex digits, combined
/// big-endian into a code point.
pub open spec fn quoted_scan(text: Seq<char>, i: int) -> QuotedScan
    decreases text.len() - i,
    via quoted_scan_dec
{
    if i < 0 || i >= text.len() || is_nl(text[i]) {
        QuotedScan::Unterminated
    } else if text[i] == '"' {
        QuotedScan::Done { value: Seq::empty(), end: i + 1 }
    } else if text[i] == '\\' {
        if i + 1 >= text.len() || is_nl(text[i + 1]) {
            QuotedScan::Unterminated
        } else if text[i + 1] == 'u' {
            let n = hex_run_len(text, i + 2, 6);
            if n == 0 {
                QuotedScan::BadEscape { at: i }
            } else {
                let v = hex_run_val(text, i + 2, n);
                if 0 <= v < 0x100000000 && is_scalar(v as u32) {
                    match quoted_scan(text, i + 2 + n) {
                        QuotedScan::Done { value, end } => QuotedScan::Done {
                            value: seq![(v as u32) as char] + value,
                            end,
                        },
                        other => other,
                    }
                } else {
                    QuotedScan::BadEscape { at: i }
                }
            }
        } else {
            match esc_simple(text[i + 1]) {
                Some(c) => match quoted_scan(text, i + 2) {
                    QuotedScan::Done { value, end } => QuotedScan::Done {
                        value: seq![c] + value,
                        end,
                    },
                    other => other,
                },
                None => QuotedScan::BadEscape { at: i },
            }
        }
    } else {
        match quoted_scan(text, i + 1) {
            QuotedScan::Done { value, end } => QuotedScan::Done {
                value: seq![text[i]] + value,
                end,
            },
            other => other,
        }
    }
}

#[via_fn]
proof fn quoted_scan_dec(text: Seq<char>, i: int) {
    if 0 <= i && i < text.len() && !is_nl(text[i]) && text[i] == '\\' && i + 1 < text.len()
        && !is_nl(text[i + 1]) && text[i + 1] == 'u' {
        lemma_hex_run(text, i + 2, 6);
    }
}

/// The result of scanning block text from a newline position.
pub enum BlockScan {
    /// The accumulated value and the stop position (a newline not belonging
    /// to the block, or the end of input).
    Done { value: Seq<char>, end: int },
    /// A carriage return without a line feed, at the given position.
    CrError { at: int },
}

/// Scanning of block text from position `i`: while `i` sits on a newline,
/// the following line is measured; a line with at least `required` leading
/// spaces contributes the newline sequence verbatim plus the line dedented
/// by exactly `required` characters; a lesser line ends the block, leaving
/// its preceding newline unconsumed.
pub open spec fn block_scan(text: Seq<char>, i: int, required: int) -> BlockScan
    decreases text.len() - i,
    via block_scan_dec
{
    if i < 0 || i >= text.len() || !is_nl(text[i]) {
        BlockScan::Done { value: Seq::empty(), end: i }
    } else if text[i] == '\r' && (i + 1 >= text.len() || text[i + 1] != '\n') {
        BlockScan::CrError { at: i }
    } else {
        let after = if text[i] == '\r' {
            i + 2
        } else {
            i + 1
        };
        let leading = space_run_end(text, after) - after;
        if leading >= required {
            let le = line_end(text, after);
            match block_scan(text, le, required) {
                BlockScan::Done { value, end } => BlockScan::Done {
                    value: text.subrange(i, after) + text.subrange(after + required, le) + value,
                    end,
                },
                other => other,
            }
        } else {
            BlockScan::Done { value: Seq::empty(), end: i }
        }
    }
}

#[via_fn]
proof fn block_scan_dec(text: Seq<char>, i: int, required: int) {
    if 0 <= i && i < text.len() && is_nl(text[i]) && !(text[i] == '\r' && (i + 1 >= text.len()
        || text[i + 1] != '\n')) {
        let after = if text[i] == '\r' {
            i + 2
        } else {
            i + 1
        };
        if after <= text.len() {
            lemma_line_end(text, after);
        }
    }
}


/// The token kinds after which the next token begins a fresh line, so
/// indentation is measured before it is lexed.
pub open spec fn at_line_start(t: TokenType) -> bool {
    t is StartOfInput || t is EndOfLine || t is Indent || t is Outdent
}

/// The token kinds whose text always consumes at least one character.
pub open spec fn consuming_type(t: TokenType) -> bool {
    t is Colon || t is GreaterThan || t is Word || t is QuotedText || t is LineText
        || t is EndOfLine
}

/// The token kinds whose trailing trivia may swallow blank lines: after
/// these, a newline is trivia rather than significant.
pub open spec fn newline_trivia_after(t: TokenType) -> bool {
    t is StartOfInput || t is EndOfLine || t is Outdent
}

/// What a token's spans and value say about the text they were lexed from.
/// `level` is the indentation level the token was produced at.
pub open spec fn token_content_ok(t: Token, text: Seq<char>, level: int) -> bool {
    &&& t.token_type is Word ==> {
        &&& t.text_end == word_run_end(text, t.text_start as int)
        &&& t.text_start < t.text_end
        &&& t.value_seq() == text.subrange(t.text_start as int, t.text_end as int)
        &&& is_word_start(text[t.text_start as int])
    }
    &&& t.token_type is QuotedText ==> {
        &&& text[t.text_start as int] == '"'
        &&& quoted_scan(text, t.text_start + 1) == (QuotedScan::Done {
            value: t.value_seq(),
            end: t.text_end as int,
        })
    }
    &&& t.token_type is LineText ==> {
        &&& t.text_end == trim_back_end(
            text,
            t.text_start as int,
            line_text_end(text, t.text_start as int),
        )
        &&& t.value_seq() == text.subrange(t.text_start as int, t.text_end as int)
    }
    &&& t.token_type is BlockText ==> block_scan(
        text,
        t.text_start as int,
        (level + 1) * indent_unit(),
    ) == (BlockScan::Done { value: t.value_seq(), end: t.text_end as int })
    &&& t.token_type is EndOfLine ==> {
        &&& t.text_start < t.text_end
        &&& is_nl(text[t.text_start as int])
    }
    &&& t.token_type is Colon ==> text[t.text_start as int] == ':'
    &&& t.token_type is GreaterThan ==> text[t.text_start as int] == '>'
    &&& (t.token_type is Indent || t.token_type is Outdent || t.token_type is StartOfInput
        || t.token_type is EndOfInput) ==> t.text_start == t.text_end
}

/// The indentation-sensitive lexer. It owns the source buffer, records line
/// starts as it crosses them, and buffers one token of lookahead.
pub struct Lexer {
    content: FileContent,
    pos: usize,
    leading_trivia_start: usize,
    text_start: usize,
    lookahead: Option<Result<Token, ParsingError>>,
    la_pos: Ghost<usize>,
    is_initial: bool,
    is_end_state: bool,
    indent_level: usize,
    prev_type: TokenType,
    cur_line_start: usize,
}

impl Lexer {
    /// The text being lexed.
    pub closed spec fn text_of(&self) -> Seq<char> {
        self.content.text_seq()
    }

    /// The buffer being lexed.
    pub closed spec fn content_spec(&self) -> FileContent {
        self.content
    }

    /// The current indentation level, counting the buffered token as not
    /// yet delivered: the nesting depth as the consumer has seen it.
    pub closed spec fn delivered_depth(&self) -> int {
        self.indent_level - (match self.lookahead {
            Some(Ok(t)) => {
                if t.token_type is Indent {
                    1int
                } else if t.token_type is Outdent {
                    -1int
                } else {
                    0int
                }
            },
            _ => 0int,
        })
    }

    /// How much input is left to lex, counting a buffered token as not yet
    /// consumed. Each consuming token delivered strictly decreases this.
    pub closed spec fn measure(&self) -> int {
        self.content.text_seq().len() - (match self.lookahead {
            Some(_) => self.la_pos@ as int,
            None => self.pos as int,
        })
    }

    /// The kind of the buffered result, if one is buffered (`Error` for a
    /// buffered diagnostic).
    pub open spec fn peeked(&self) -> Option<TokenType> {
        if self.peeked_token() is Some {
            Some(self.peeked_token()->0.token_type)
        } else if self.peeked_err() is Some {
            Some(TokenType::Error)
        } else {
            None
        }
    }

    /// The buffered token itself, if an ordinary token is buffered.
    pub closed spec fn peeked_token(&self) -> Option<Token> {
        match self.lookahead {
            Some(Ok(t)) => Some(t),
            _ => None,
        }
    }

    /// The buffered diagnostic, if lexing the lookahead failed.
    pub closed spec fn peeked_err(&self) -> Option<ParsingError> {
        match self.lookahead {
            Some(Err(e)) => Some(e),
            _ => None,
        }
    }

    /// Whether the lexer may still be asked for tokens: the end-of-input
    /// token has not yet been handed out.
    pub closed spec fn live(&self) -> bool {
        !self.is_end_state || self.lookahead is Some
    }

    /// Structural well-formedness of the lexer state.
    pub closed spec fn wf(&self) -> bool {
        &&& self.content.wf()
        &&& self.pos <= self.content.text_seq().len()
        &&& self.cur_line_start <= self.pos
        &&& self.content.lines_seq().len() >= 1
        &&& self.content.lines_seq().last() == self.cur_line_start
        &&& self.leading_trivia_start <= self.text_start <= self.pos
        &&& self.indent_level * indent_unit() <= self.content.text_seq().len()
        &&& match self.lookahead {
            Some(Ok(t)) => {
                &&& t.wf()
                &&& t.in_bounds(self.content.text_seq().len() as int)
                &&& t.token_type != TokenType::Error
                &&& self.la_pos@ <= self.pos
                &&& (consuming_type(t.token_type) ==> self.la_pos@ < self.pos)
                &&& (t.token_type is Indent ==> self.indent_level >= 1)
                &&& (t.token_type is EndOfInput ==> self.indent_level == 0 && self.is_end_state)
                &&& (!(t.token_type is EndOfInput) ==> !self.is_end_state)
                &&& !self.is_initial
                &&& token_content_ok(t, self.content.text_seq(), self.delivered_depth())
            },
            Some(Err(_)) => {
                &&& !self.is_end_state
                &&& self.la_pos@ <= self.pos
            },
            None => true,
        }
    }

    /// The state is clean when the cursor rests at the start of a line's
    /// significant text with only blanks before it on the line. This is
    /// what the indentation check relies on; it can fail to hold only
    /// after a diagnostic has been produced.
    pub closed spec fn clean(&self) -> bool {
        &&& self.text_start == self.pos
        &&& (self.is_initial ==> self.pos == 0 && self.cur_line_start == 0)
        &&& (!self.is_initial && self.pos < self.content.text_seq().len() ==> {
            &&& !is_blank(self.content.text_seq()[self.pos as int])
            &&& self.content.text_seq()[self.pos as int] != '#'
        })
        &&& (at_line_start(self.prev_type) && !self.is_initial && self.pos
            < self.content.text_seq().len() ==> {
            &&& forall|k: int|
                self.cur_line_start <= k < self.pos ==> is_blank(
                    #[trigger] self.content.text_seq()[k],
                )
            &&& !is_blank(self.content.text_seq()[self.pos as int])
            &&& !is_nl(self.content.text_seq()[self.pos as int])
            &&& self.content.text_seq()[self.pos as int] != '#'
        })
    }

    /// The full obligation callers maintain between calls: well-formed,
    /// and clean unless a diagnostic is already buffered.
    pub open spec fn lexer_ok(&self) -> bool {
        &&& self.wf()
        &&& self.measure() >= 0
        &&& match self.peeked() {
            Some(t) => t == TokenType::Error || self.clean(),
            None => self.clean(),
        }
    }

    /// Builds a lexer over `content`, resetting its line-start table and
    /// recording the first line.
    pub fn new(content: FileContent) -> (r: Lexer)
        requires
            content.wf(),
        ensures
            r.lexer_ok(),
            r.live(),
            r.text_of() == content.text_seq(),
            r.content_spec().filename_seq() == content.filename_seq(),
            r.delivered_depth() == 0,
            r.peeked() is None,
            r.measure() == content.text_seq().len(),
            r.content_spec().lines_seq() == Seq::<usize>::empty().push(0),
    {
        let mut content = content;
        content.reset_line_markers();
        content.mark_line(0);
        Lexer {
            content,
            pos: 0,
            leading_trivia_start: 0,
            text_start: 0,
            lookahead: None,
            la_pos: Ghost(0),
            is_initial: true,
            is_end_state: false,
            indent_level: 0,
            prev_type: TokenType::StartOfInput,
            cur_line_start: 0,
        }
    }

    /// The buffer, for resolving positions in diagnostics.
    pub fn content(&self) -> (r: &FileContent)
        ensures
            *r == self.content_spec(),
            r.text_seq() == self.text_of(),
            self.wf() ==> r.wf(),
    {
        &self.content
    }

    /// Gives the buffer back, with its line-start table as far as lexing
    /// progressed.
    pub fn into_content(self) -> (r: FileContent)
        ensures
            r == self.content_spec(),
            r.text_seq() == self.text_of(),
            self.wf() ==> r.wf(),
    {
        self.content
    }

    /// Builds a diagnostic at `position`.
    fn error(&self, position: usize, kind: ErrorKind, message: String) -> (r: ParsingError)
        requires
            self.wf(),
            position <= self.text_of().len(),
        ensures
            r.kind == kind,
            r.byte_offset == position,
    {
        proof {
            self.content.lemma_wf();
        }
        ParsingError::new(&self.content, position, kind, message)
    }

    /// Consumes a comment: everything from the `#` up to (not including)
    /// the next newline or the end of input.
    fn consume_comment(&mut self)
        requires
            old(self).wf(),
            old(self).pos < old(self).text_of().len(),
            old(self).text_of()[old(self).pos as int] == '#',
        ensures
            final(self).wf(),
            *final(self) == (Lexer { pos: final(self).pos, ..*old(self) }),
            old(self).pos < final(self).pos <= final(self).text_of().len(),
            final(self).pos as int == line_end(final(self).text_of(), old(self).pos as int),
    {
        let ghost text = self.text_of();
        let ghost start = self.pos as int;
        proof {
            self.content.lemma_wf();
            lemma_line_end(text, start);
        }
        let len = self.content.len();
        let mut p = self.pos + 1;
        while p < len && !is_nl_exec(self.content.char_at(p))
            invariant
                old(self).wf(),
                *self == *old(self),
                old(self).pos < p <= len,
                len == self.text_of().len(),
                text == self.text_of(),
                start == self.pos as int,
                text[start] == '#',
                forall|k: int| start <= k < p ==> !is_nl(#[trigger] text[k]),
                p <= line_end(text, start),
            decreases len - p,
        {
            proof {
                lemma_line_end(text, start);
                assert(line_end(text, start) != p);
            }
            p = p + 1;
        }
        proof {
            lemma_line_end(text, start);
            assert(p == line_end(text, start)) by {
                if p < line_end(text, start) {
                    assert(!is_nl(text[p as int]));
                }
            }
        }
        self.pos = p;
    }

    /// Consumes one newline sequence: a lone line feed, or a carriage
    /// return followed by a line feed (anything else after a carriage
    /// return is an error). Records the new line's start.
    fn handle_new_line_sequence(&mut self) -> (r: Result<(), ParsingError>)
        requires
            old(self).wf(),
            old(self).pos < old(self).text_of().len(),
            is_nl(old(self).text_of()[old(self).pos as int]),
        ensures
            final(self).wf(),
            final(self).text_of() == old(self).text_of(),
            final(self).content_spec().filename_seq() == old(self).content_spec().filename_seq(),
            final(self).leading_trivia_start == old(self).leading_trivia_start,
            final(self).text_start == old(self).text_start,
            final(self).lookahead == old(self).lookahead,
            final(self).la_pos == old(self).la_pos,
            final(self).is_initial == old(self).is_initial,
            final(self).is_end_state == old(self).is_end_state,
            final(self).indent_level == old(self).indent_level,
            final(self).prev_type == old(self).prev_type,
            r is Err <==> (old(self).text_of()[old(self).pos as int] == '\r' && (old(self).pos
                + 1 >= old(self).text_of().len() || old(self).text_of()[old(self).pos + 1]
                != '\n')),
            match r {
                Ok(()) => {
                    &&& final(self).pos == final(self).cur_line_start
                    &&& final(self).pos as int == old(self).pos + (if old(self).text_of()[old(self).pos as int] == '\r' {
                        2int
                    } else {
                        1int
                    })
                },
                Err(e) => {
                    &&& e.kind == ErrorKind::InvalidCarriageReturn
                    &&& e.byte_offset == old(self).pos
                    &&& final(self).pos == old(self).pos
                    &&& final(self).cur_line_start == old(self).cur_line_start
                    &&& final(self).content_spec() == old(self).content_spec()
                },
            },
    {
        let len = self.content.len();
        let p = self.pos;
        let c = self.content.char_at(p);
        let after: usize = if c == '\r' {
            if p + 1 >= len || self.content.char_at(p + 1) != '\n' {
                return Err(
                    self.error(
                        p,
                        ErrorKind::InvalidCarriageReturn,
                        "Carriage return (CR) was not followed by a line feed (LF)".to_owned(),
                    ),
                );
            }
            p + 2
        } else {
            p + 1
        };
        proof {
            self.content.lemma_wf();
        }
        self.content.mark_line(after);
        self.pos = after;
        self.cur_line_start = after;
        Ok(())
    }

    /// Measures the current line's leading whitespace: the number of
    /// leading spaces, or the position of a tab found among them.
    fn measure_indentation(&self) -> (r: Result<usize, usize>)
        requires
            self.wf(),
        ensures
            match r {
                Ok(n) => {
                    &&& !leading_has_tab(self.text_of(), self.cur_line_start as int)
                    &&& self.cur_line_start + n == space_run_end(
                        self.text_of(),
                        self.cur_line_start as int,
                    )
                },
                Err(p) => {
                    &&& leading_has_tab(self.text_of(), self.cur_line_start as int)
                    &&& p < self.text_of().len()
                    &&& self.text_of()[p as int] == '\t'
                    &&& p == space_run_end(self.text_of(), self.cur_line_start as int)
                },
            },
    {
        let ghost text = self.text_of();
        let ghost ls = self.cur_line_start as int;
        proof {
            self.content.lemma_wf();
            lemma_space_run(text, ls);
            lemma_blank_run(text, ls);
        }
        let len = self.content.len();
        let mut i = self.cur_line_start;
        while i < len && self.content.char_at(i) == ' '
            invariant
                self.wf(),
                self.cur_line_start <= i <= len,
                len == text.len(),
                text == self.text_of(),
                ls == self.cur_line_start as int,
                forall|k: int| ls <= k < i ==> text[k] == ' ',
                i <= space_run_end(text, ls),
            decreases len - i,
        {
            proof {
                lemma_space_run(text, ls);
                assert(space_run_end(text, ls) != i);
            }
            i = i + 1;
        }
        proof {
            lemma_space_run(text, ls);
            assert(i == space_run_end(text, ls)) by {
                if i < space_run_end(text, ls) {
                    assert(text[i as int] == ' ');
                }
            }
        }
        if i < len && self.content.char_at(i) == '\t' {
            proof {
                lemma_blank_run(text, i as int);
                assert(blank_run_end(text, ls) >= i + 1) by {
                    assert(forall|k: int| ls <= k <= i ==> is_blank(#[trigger] text[k]));
                    if blank_run_end(text, ls) < i + 1 {
                        assert(is_blank(text[blank_run_end(text, ls)]));
                    }
                }
                assert(leading_has_tab(text, ls)) by {
                    assert(ls <= i < blank_run_end(text, ls) && text[i as int] == '\t');
                }
            }
            Err(i)
        } else {
            proof {
                assert(blank_run_end(text, ls) == i) by {
                    if blank_run_end(text, ls) > i {
                        assert(is_blank(text[i as int]));
                    }
                    if blank_run_end(text, ls) < i {
                        assert(text[blank_run_end(text, ls)] == ' ');
                    }
                }
                assert(!leading_has_tab(text, ls)) by {
                    assert(forall|k: int|
                        ls <= k < blank_run_end(text, ls) ==> #[trigger] text[k] == ' ');
                }
            }
            Ok(i - self.cur_line_start)
        }
    }
}


/// Executable twin of [`esc_simple`].
fn esc_simple_exec(c: char) -> (r: Option<char>)
    ensures
        r == esc_simple(c),
{
    match c {
        '\'' => Some('\''),
        '"' => Some('"'),
        '?' => Some('?'),
        '\\' => Some('\\'),
        'n' => Some('\n'),
        'r' => Some('\r'),
        't' => Some('\t'),
        _ => None,
    }
}

/// A quoted-text scan outcome with `prefix` prepended to its value.
pub open spec fn qscan_prepend(prefix: Seq<char>, s: QuotedScan) -> QuotedScan {
    match s {
        QuotedScan::Done { value, end } => QuotedScan::Done { value: prefix + value, end },
        other => other,
    }
}

/// A block-text scan outcome with `prefix` prepended to its value.
pub open spec fn bscan_prepend(prefix: Seq<char>, s: BlockScan) -> BlockScan {
    match s {
        BlockScan::Done { value, end } => BlockScan::Done { value: prefix + value, end },
        other => other,
    }
}

impl Lexer {
    /// Appends the characters in `[from, to)` of the buffer to `out`.
    fn push_range(&self, out: &mut Vec<char>, from: usize, to: usize)
        requires
            self.wf(),
            from <= to <= self.text_of().len(),
        ensures
            final(out)@ == old(out)@ + self.text_of().subrange(from as int, to as int),
    {
        proof {
            self.content.lemma_wf();
        }
        let mut i = from;
        while i < to
            invariant
                self.wf(),
                from <= i <= to <= self.text_of().len(),
                out@ == old(out)@ + self.text_of().subrange(from as int, i as int),
            decreases to - i,
        {
            out.push(self.content.char_at(i));
            proof {
                assert(self.text_of().subrange(from as int, i + 1) =~= self.text_of().subrange(
                    from as int,
                    i as int,
                ).push(self.text_of()[i as int]));
                assert(old(out)@ + self.text_of().subrange(from as int, i + 1) =~= (old(out)@
                    + self.text_of().subrange(from as int, i as int)).push(
                    self.text_of()[i as int],
                ));
            }
            i = i + 1;
        }
        assert(out@ =~= old(out)@ + self.text_of().subrange(from as int, to as int));
    }

    /// Consumes trivia: blanks, comments, and — after the token kinds that
    /// allow it — whole blank lines. Decides where the next token's leading
    /// trivia begins.
    fn consume_trivia(&mut self, newlines_ok: bool) -> (r: Result<(), ParsingError>)
        requires
            old(self).wf(),
        ensures
            final(self).wf(),
            final(self).text_of() == old(self).text_of(),
            final(self).content_spec().filename_seq() == old(self).content_spec().filename_seq(),
            final(self).lookahead == old(self).lookahead,
            final(self).la_pos == old(self).la_pos,
            final(self).is_initial == old(self).is_initial,
            final(self).is_end_state == old(self).is_end_state,
            final(self).indent_level == old(self).indent_level,
            final(self).prev_type == old(self).prev_type,
            final(self).pos >= old(self).pos,
            final(self).cur_line_start >= old(self).cur_line_start,
            match r {
                Ok(()) => {
                    &&& trivia_scan(old(self).text_of(), old(self).pos as int, newlines_ok)
                        == Ok::<int, int>(final(self).pos as int)
                    &&& final(self).text_start == final(self).pos
                    &&& old(self).pos <= final(self).leading_trivia_start <= final(self).pos
                    &&& (final(self).pos < final(self).text_of().len() ==> {
                        let c = final(self).text_of()[final(self).pos as int];
                        &&& !is_blank(c)
                        &&& c != '#'
                        &&& (is_nl(c) ==> !newlines_ok)
                    })
                    &&& (newlines_ok && final(self).pos < final(self).text_of().len())
                        ==> forall|k: int|
                        final(self).cur_line_start <= k && old(self).pos <= k && k < final(self).pos ==> is_blank(#[trigger] final(self).text_of()[k])
                    &&& (old(self).pos < old(self).text_of().len() && {
                        let c = old(self).text_of()[old(self).pos as int];
                        !is_blank(c) && c != '#' && (is_nl(c) ==> !newlines_ok)
                    }) ==> {
                        &&& final(self).pos == old(self).pos
                        &&& final(self).cur_line_start == old(self).cur_line_start
                    }
                },
                Err(e) => {
                    &&& e.kind == ErrorKind::InvalidCarriageReturn
                    &&& trivia_scan(old(self).text_of(), old(self).pos as int, newlines_ok)
                        == Err::<int, int>(e.byte_offset as int)
                },
            },
    {
        let ghost text = self.text_of();
        let text_end = self.pos;
        let mut split = text_end;
        let mut is_original_line = true;
        let mut line_has_comment = false;
        let len = self.content.len();
        loop
            invariant
                self.wf(),
                self.text_of() == text,
                text == old(self).text_of(),
                len == text.len(),
                self.content_spec().filename_seq() == old(self).content_spec().filename_seq(),
                self.lookahead == old(self).lookahead,
                self.la_pos == old(self).la_pos,
                self.is_initial == old(self).is_initial,
                self.is_end_state == old(self).is_end_state,
                self.indent_level == old(self).indent_level,
                self.prev_type == old(self).prev_type,
                self.leading_trivia_start == old(self).leading_trivia_start,
                self.text_start == old(self).text_start,
                text_end == old(self).pos,
                old(self).pos <= self.pos,
                old(self).cur_line_start <= self.cur_line_start,
                text_end <= split <= self.pos,
                (!line_has_comment ==> forall|k: int|
                    self.cur_line_start <= k && text_end <= k && k < self.pos ==> is_blank(
                        #[trigger] text[k],
                    )),
                (line_has_comment && self.pos < len ==> is_nl(text[self.pos as int])),
                ((text_end < len && {
                    let c = text[text_end as int];
                    !is_blank(c) && c != '#' && (is_nl(c) ==> !newlines_ok)
                }) ==> (self.pos == text_end && self.cur_line_start == old(self).cur_line_start)),
                trivia_scan(text, text_end as int, newlines_ok) == trivia_scan(
                    text,
                    self.pos as int,
                    newlines_ok,
                ),
            ensures
                self.pos < len ==> ({
                    let c = text[self.pos as int];
                    !is_blank(c) && c != '#' && (is_nl(c) ==> !newlines_ok)
                }),
                trivia_scan(text, text_end as int, newlines_ok) == Ok::<int, int>(
                    self.pos as int,
                ),
            decreases len - self.pos,
        {
            if self.pos >= len {
                break;
            }
            let ch = self.content.char_at(self.pos);
            if ch == '#' {
                let ghost cstart = self.pos as int;
                self.consume_comment();
                proof {
                    lemma_line_end(text, cstart);
                    assert(trivia_scan(text, cstart, newlines_ok) == trivia_scan(
                        text,
                        self.pos as int,
                        newlines_ok,
                    ));
                }
                line_has_comment = true;
            } else if ch == '\n' || ch == '\r' {
                if !newlines_ok {
                    break;
                }
                let ghost nl_at = self.pos as int;
                let res = self.handle_new_line_sequence();
                if let Err(e) = res {
                    proof {
                        assert(trivia_scan(text, nl_at, newlines_ok) == Err::<int, int>(nl_at));
                    }
                    return Err(e);
                }
                proof {
                    assert(trivia_scan(text, nl_at, newlines_ok) == trivia_scan(
                        text,
                        self.pos as int,
                        newlines_ok,
                    ));
                }
                if is_original_line || !line_has_comment {
                    split = self.pos;
                    is_original_line = false;
                }
                line_has_comment = false;
            } else if ch == ' ' || ch == '\t' {
                self.pos = self.pos + 1;
            } else {
                break;
            }
        }
        if self.is_initial && is_original_line {
            self.leading_trivia_start = text_end;
        } else {
            self.leading_trivia_start = split;
        }
        self.text_start = self.pos;
        Ok(())
    }

    /// Builds the next token: its text ends at the current position, and
    /// the trivia that follows it is consumed as its trailing trivia.
    fn new_token(&mut self, token_type: TokenType, value: Option<String>) -> (r: Result<
        Token,
        ParsingError,
    >)
        requires
            old(self).wf(),
            is_content_type(token_type) <==> value is Some,
            token_type != TokenType::Error,
        ensures
            final(self).wf(),
            final(self).text_of() == old(self).text_of(),
            final(self).content_spec().filename_seq() == old(self).content_spec().filename_seq(),
            final(self).lookahead == old(self).lookahead,
            final(self).la_pos == old(self).la_pos,
            final(self).is_initial == old(self).is_initial,
            final(self).is_end_state == old(self).is_end_state,
            final(self).indent_level == old(self).indent_level,
            final(self).pos >= old(self).pos,
            final(self).cur_line_start >= old(self).cur_line_start,
            match r {
                Ok(t) => {
                    &&& trivia_scan(
                        old(self).text_of(),
                        old(self).pos as int,
                        newline_trivia_after(token_type),
                    ) == Ok::<int, int>(final(self).pos as int)
                    &&& t == (Token {
                        token_type,
                        leading_trivia_start: old(self).leading_trivia_start_spec(),
                        text_start: old(self).text_start_spec(),
                        text_end: old(self).pos_spec(),
                        trailing_trivia_end: final(self).pos_spec(),
                        value: t.value,
                    })
                    &&& t.value == value
                    &&& t.wf()
                    &&& t.in_bounds(final(self).text_of().len() as int)
                    &&& final(self).prev_type == token_type
                    &&& final(self).text_start == final(self).pos
                    &&& (final(self).pos < final(self).text_of().len() ==> {
                        let c = final(self).text_of()[final(self).pos as int];
                        &&& !is_blank(c)
                        &&& c != '#'
                        &&& (is_nl(c) ==> !newline_trivia_after(token_type))
                    })
                    &&& (newline_trivia_after(token_type) && final(self).pos < final(self).text_of().len()) ==> forall|k: int|
                        final(self).cur_line_start <= k && old(self).pos <= k && k < final(self).pos ==> is_blank(#[trigger] final(self).text_of()[k])
                    &&& (old(self).pos < old(self).text_of().len() && {
                        let c = old(self).text_of()[old(self).pos as int];
                        !is_blank(c) && c != '#' && (is_nl(c) ==> !newline_trivia_after(
                            token_type,
                        ))
                    }) ==> {
                        &&& final(self).pos == old(self).pos
                        &&& final(self).cur_line_start == old(self).cur_line_start
                    }
                },
                Err(e) => {
                    &&& e.kind == ErrorKind::InvalidCarriageReturn
                    &&& trivia_scan(
                        old(self).text_of(),
                        old(self).pos as int,
                        newline_trivia_after(token_type),
                    ) == Err::<int, int>(e.byte_offset as int)
                    &&& final(self).prev_type == old(self).prev_type
                },
            },
    {
        let leading_trivia_start = self.leading_trivia_start;
        let text_start = self.text_start;
        let text_end = self.pos;
        let newlines_ok = match token_type {
            TokenType::StartOfInput => true,
            TokenType::EndOfLine => true,
            TokenType::Outdent => true,
            _ => false,
        };
        proof {
            assert(newlines_ok == newline_trivia_after(token_type));
        }
        let res = self.consume_trivia(newlines_ok);
        if let Err(e) = res {
            return Err(e);
        }
        let t = Token::new(
            token_type,
            leading_trivia_start,
            self.pos,
            text_start,
            text_end,
            value,
        );
        self.prev_type = token_type;
        Ok(t)
    }

    /// The current position (specification access for contracts).
    pub closed spec fn pos_spec(&self) -> usize {
        self.pos
    }

    /// Where the pending token's leading trivia begins.
    pub closed spec fn leading_trivia_start_spec(&self) -> usize {
        self.leading_trivia_start
    }

    /// Where the pending token's text begins.
    pub closed spec fn text_start_spec(&self) -> usize {
        self.text_start
    }
}


/// Prepending distributes over concatenation of prefixes.
proof fn lemma_qscan_prepend_assoc(a: Seq<char>, b: Seq<char>, s: QuotedScan)
    ensures
        qscan_prepend(a, qscan_prepend(b, s)) == qscan_prepend(a + b, s),
{
    match s {
        QuotedScan::Done { value, end } => {
            assert(a + (b + value) =~= (a + b) + value);
        },
        _ => {},
    }
}

/// Prepending distributes over concatenation of prefixes.
proof fn lemma_bscan_prepend_assoc(a: Seq<char>, b: Seq<char>, s: BlockScan)
    ensures
        bscan_prepend(a, bscan_prepend(b, s)) == bscan_prepend(a + b, s),
{
    match s {
        BlockScan::Done { value, end } => {
            assert(a + (b + value) =~= (a + b) + value);
        },
        _ => {},
    }
}

/// Sixteen to the `n` grows with `n`.
proof fn lemma_pow16_mono(a: int, b: int)
    requires
        0 <= a <= b,
    ensures
        pow16(a) <= pow16(b),
        pow16(a) >= 1,
    decreases b,
{
    if a < b {
        lemma_pow16_mono(a, b - 1);
    } else if a > 0 {
        lemma_pow16_mono(a - 1, a - 1);
    }
}

impl Lexer {
    /// Lexes a word token: the run of word characters at the cursor.
    fn lex_word(&mut self) -> (r: Result<Token, ParsingError>)
        requires
            old(self).wf(),
            old(self).pos_spec() < old(self).text_of().len(),
            is_word_start(old(self).text_of()[old(self).pos_spec() as int]),
            old(self).text_start_spec() == old(self).pos_spec(),
        ensures
            final(self).wf(),
            final(self).text_of() == old(self).text_of(),
            final(self).content_spec().filename_seq() == old(self).content_spec().filename_seq(),
            final(self).lookahead == old(self).lookahead,
            final(self).la_pos == old(self).la_pos,
            final(self).is_initial == old(self).is_initial,
            final(self).is_end_state == old(self).is_end_state,
            final(self).indent_level == old(self).indent_level,
            final(self).pos_spec() >= old(self).pos_spec(),
            ({
                let text = old(self).text_of();
                let te = word_run_end(text, old(self).pos_spec() as int);
                match trivia_scan(text, te, false) {
                    Ok(end) => r is Ok && r->Ok_0.text_end as int == te && final(self).pos_spec() as int == end,
                    Err(q) => r is Err && r->Err_0.kind == ErrorKind::InvalidCarriageReturn
                        && r->Err_0.byte_offset as int == q,
                }
            }),
            match r {
                Ok(t) => {
                    &&& t.token_type == TokenType::Word
                    &&& t.wf()
                    &&& t.in_bounds(final(self).text_of().len() as int)
                    &&& t.text_start == old(self).pos_spec()
                    &&& token_content_ok(
                        t,
                        final(self).text_of(),
                        final(self).indent_level_spec() as int,
                    )
                    &&& final(self).prev_type_spec() == TokenType::Word
                    &&& final(self).text_start_spec() == final(self).pos_spec()
                    &&& final(self).pos_spec() > old(self).pos_spec()
                    &&& final(self).stop_facts()
                },
                Err(e) => e.kind == ErrorKind::InvalidCarriageReturn,
            },
    {
        let ghost text = self.text_of();
        let ghost ts = self.pos as int;
        proof {
            self.content.lemma_wf();
            lemma_word_run(text, ts);
        }
        let len = self.content.len();
        let start = self.pos;
        let mut p = start;
        while p < len && is_word_char_exec(self.content.char_at(p))
            invariant
                self.wf(),
                *self == *old(self),
                text == self.text_of(),
                len == text.len(),
                ts == start as int,
                start == self.pos,
                start <= p <= len,
                forall|k: int| ts <= k < p ==> is_word_char(#[trigger] text[k]),
                p <= word_run_end(text, ts),
            decreases len - p,
        {
            proof {
                lemma_word_run(text, ts);
                assert(word_run_end(text, ts) != p);
            }
            p = p + 1;
        }
        proof {
            lemma_word_run(text, ts);
            assert(p == word_run_end(text, ts)) by {
                if p < word_run_end(text, ts) {
                    assert(is_word_char(text[p as int]));
                }
            }
            assert(p > start);
        }
        let chars = self.content.slice_chars(start, p);
        let value = chars_to_string(&chars);
        self.pos = p;
        self.new_token(TokenType::Word, Some(value))
    }

    /// Whether the cursor rests on a character no trivia run would have
    /// left it on: not a blank, not a comment sign.
    pub closed spec fn stop_facts(&self) -> bool {
        self.pos < self.content.text_seq().len() ==> {
            &&& !is_blank(self.content.text_seq()[self.pos as int])
            &&& self.content.text_seq()[self.pos as int] != '#'
        }
    }

    /// The indentation level (specification access).
    pub closed spec fn indent_level_spec(&self) -> usize {
        self.indent_level
    }

    /// The kind of the token most recently produced (specification access).
    pub closed spec fn prev_type_spec(&self) -> TokenType {
        self.prev_type
    }

    /// Lexes quoted text: scans to the closing quote, decoding escapes.
    fn lex_quoted_text(&mut self) -> (r: Result<Token, ParsingError>)
        requires
            old(self).wf(),
            old(self).pos_spec() < old(self).text_of().len(),
            old(self).text_of()[old(self).pos_spec() as int] == '"',
            old(self).text_start_spec() == old(self).pos_spec(),
        ensures
            final(self).wf(),
            final(self).text_of() == old(self).text_of(),
            final(self).content_spec().filename_seq() == old(self).content_spec().filename_seq(),
            final(self).lookahead == old(self).lookahead,
            final(self).la_pos == old(self).la_pos,
            final(self).is_initial == old(self).is_initial,
            final(self).is_end_state == old(self).is_end_state,
            final(self).indent_level == old(self).indent_level,
            final(self).pos_spec() >= old(self).pos_spec(),
            ({
                let text = old(self).text_of();
                match quoted_scan(text, old(self).pos_spec() + 1) {
                    QuotedScan::Done { value, end } => match trivia_scan(text, end, false) {
                        Ok(tend) => r is Ok && r->Ok_0.text_end as int == end && final(self).pos_spec() as int == tend,
                        Err(q) => r is Err && r->Err_0.kind
                            == ErrorKind::InvalidCarriageReturn && r->Err_0.byte_offset as int
                            == q,
                    },
                    QuotedScan::Unterminated => r is Err && r->Err_0.kind
                        == ErrorKind::UnterminatedQuotedString && r->Err_0.byte_offset == old(self).pos_spec(),
                    QuotedScan::BadEscape { at } => r is Err && r->Err_0.kind
                        == ErrorKind::InvalidEscapeSequence && r->Err_0.byte_offset as int == at,
                }
            }),
            match r {
                Ok(t) => {
                    &&& t.token_type == TokenType::QuotedText
                    &&& t.wf()
                    &&& t.in_bounds(final(self).text_of().len() as int)
                    &&& t.text_start == old(self).pos_spec()
                    &&& token_content_ok(
                        t,
                        final(self).text_of(),
                        final(self).indent_level_spec() as int,
                    )
                    &&& final(self).prev_type_spec() == TokenType::QuotedText
                    &&& final(self).text_start_spec() == final(self).pos_spec()
                    &&& final(self).pos_spec() > old(self).pos_spec()
                    &&& final(self).stop_facts()
                },
                Err(_) => true,
            },
    {
        let ghost text = self.text_of();
        let start = self.pos;
        let ghost inner = start + 1 as int;
        proof {
            self.content.lemma_wf();
        }
        let len = self.content.len();
        self.pos = self.pos + 1;
        let mut value: Vec<char> = Vec::new();
        loop
            invariant
                self.wf(),
                self.text_of() == text,
                text == old(self).text_of(),
                len == text.len(),
                self.content_spec().filename_seq() == old(self).content_spec().filename_seq(),
                self.lookahead == old(self).lookahead,
                self.la_pos == old(self).la_pos,
                self.is_initial == old(self).is_initial,
                self.is_end_state == old(self).is_end_state,
                self.indent_level == old(self).indent_level,
                self.prev_type == old(self).prev_type,
                self.leading_trivia_start == old(self).leading_trivia_start,
                self.text_start == old(self).text_start,
                self.cur_line_start == old(self).cur_line_start,
                start == old(self).pos_spec(),
                self.text_start == start,
                text[start as int] == '"',
                inner == start + 1,
                start < self.pos <= len,
                quoted_scan(text, inner) == qscan_prepend(value@, quoted_scan(text, self.pos as int)),
            decreases len - self.pos,
        {
            if self.pos >= len {
                return Err(self.error(
                    start,
                    ErrorKind::UnterminatedQuotedString,
                    "Quoted text is missing a closing quote before the end of the line".to_owned(),
                ));
            }
            let c = self.content.char_at(self.pos);
            if c == '"' {
                self.pos = self.pos + 1;
                proof {
                    assert(quoted_scan(text, self.pos - 1) == (QuotedScan::Done {
                        value: Seq::<char>::empty(),
                        end: self.pos as int,
                    }));
                    assert(value@ + Seq::<char>::empty() =~= value@);
                }
                let s = chars_to_string(&value);
                return self.new_token(TokenType::QuotedText, Some(s));
            }
            if c == '\n' || c == '\r' {
                return Err(self.error(
                    start,
                    ErrorKind::UnterminatedQuotedString,
                    "Quoted text is missing a closing quote before the end of the line".to_owned(),
                ));
            }
            if c == '\\' {
                let esc_at = self.pos;
                if esc_at + 1 >= len {
                    return Err(self.error(
                        start,
                        ErrorKind::UnterminatedQuotedString,
                        "Quoted text is missing a closing quote before the end of the line".to_owned(),
                    ));
                }
                let c2 = self.content.char_at(esc_at + 1);
                if c2 == '\n' || c2 == '\r' {
                    return Err(self.error(
                        start,
                        ErrorKind::UnterminatedQuotedString,
                        "Quoted text is missing a closing quote before the end of the line".to_owned(),
                    ));
                }
                if c2 == 'u' {
                    let digits_at = esc_at + 2;
                    let mut n: usize = 0;
                    let mut v: u32 = 0;
                    proof {
                        lemma_hex_run(text, digits_at as int, 6);
                        lemma_pow16_mono(0, 6);
                    }
                    while n < 6 && digits_at + n < len && hex_val_exec(
                        self.content.char_at(digits_at + n),
                    ).is_some()
                        invariant
                            self.wf(),
                            text == self.text_of(),
                            len == text.len(),
                            esc_at + 2 == digits_at,
                            digits_at <= len,
                            esc_at == self.pos,
                            0 <= n <= 6,
                            digits_at + n <= len,
                            forall|k: int|
                                digits_at <= k < digits_at + n ==> hex_val(
                                    #[trigger] text[k],
                                ) is Some,
                            v as int == hex_run_val(text, digits_at as int, n as int),
                            v < pow16(n as int),
                        decreases 6 - n,
                    {
                        let d = match hex_val_exec(self.content.char_at(digits_at + n)) {
                            Some(d) => d,
                            None => 0,
                        };
                        proof {
                            lemma_hex_run_val_bound(text, digits_at as int, n as int);
                            lemma_pow16_mono(n as int, 5);
                            assert(pow16(5) == 0x100000) by {
                                reveal_with_fuel(pow16, 7);
                            }
                            assert(hex_run_val(text, digits_at as int, n + 1) == hex_run_val(
                                text,
                                digits_at as int,
                                n as int,
                            ) * 16 + hex_val(text[digits_at + n])->0);
                        }
                        v = v * 16 + d;
                        n = n + 1;
                    }
                    proof {
                        lemma_hex_run(text, digits_at as int, 6);
                        assert(n == hex_run_len(text, digits_at as int, 6)) by {
                            let hrl = hex_run_len(text, digits_at as int, 6);
                            if hrl > n {
                                assert(hex_val(text[digits_at + n]) is Some);
                            }
                            if hrl < n {
                                assert(hex_val(text[digits_at + hrl]) is Some);
                            }
                        }
                    }
                    if n == 0 {
                        return Err(self.error(
                            esc_at,
                            ErrorKind::InvalidEscapeSequence,
                            "Invalid escape sequence".to_owned(),
                        ));
                    }
                    match char_from_u32(v) {
                        None => {
                            return Err(self.error(
                                esc_at,
                                ErrorKind::InvalidEscapeSequence,
                                "Invalid escape sequence".to_owned(),
                            ));
                        },
                        Some(ch) => {
                            proof {
                                let next = digits_at + n;
                                assert(quoted_scan(text, esc_at as int) == qscan_prepend(
                                    seq![ch],
                                    quoted_scan(text, next as int),
                                ));
                                lemma_qscan_prepend_assoc(
                                    value@,
                                    seq![ch],
                                    quoted_scan(text, next as int),
                                );
                                assert(value@.push(ch) =~= value@ + seq![ch]);
                            }
                            value.push(ch);
                            self.pos = digits_at + n;
                        },
                    }
                } else {
                    match esc_simple_exec(c2) {
                        Some(e) => {
                            proof {
                                assert(quoted_scan(text, esc_at as int) == qscan_prepend(
                                    seq![e],
                                    quoted_scan(text, esc_at + 2),
                                ));
                                lemma_qscan_prepend_assoc(
                                    value@,
                                    seq![e],
                                    quoted_scan(text, esc_at + 2),
                                );
                                assert(value@.push(e) =~= value@ + seq![e]);
                            }
                            value.push(e);
                            self.pos = esc_at + 2;
                        },
                        None => {
                            return Err(self.error(
                                esc_at,
                                ErrorKind::InvalidEscapeSequence,
                                "Invalid escape sequence".to_owned(),
                            ));
                        },
                    }
                }
            } else {
                proof {
                    assert(quoted_scan(text, self.pos as int) == qscan_prepend(
                        seq![c],
                        quoted_scan(text, self.pos + 1),
                    ));
                    lemma_qscan_prepend_assoc(value@, seq![c], quoted_scan(text, self.pos + 1));
                    assert(value@.push(c) =~= value@ + seq![c]);
                }
                value.push(c);
                self.pos = self.pos + 1;
            }
        }
    }

    /// Lexes line text: from the cursor to the end of the line or a
    /// comment sign, with trailing blanks left to be re-lexed as trivia.
    fn lex_line_text(&mut self) -> (r: Result<Token, ParsingError>)
        requires
            old(self).wf(),
            old(self).pos_spec() < old(self).text_of().len(),
            !is_blank(old(self).text_of()[old(self).pos_spec() as int]),
            !is_nl(old(self).text_of()[old(self).pos_spec() as int]),
            old(self).text_of()[old(self).pos_spec() as int] != '#',
            old(self).text_start_spec() == old(self).pos_spec(),
        ensures
            final(self).wf(),
            final(self).text_of() == old(self).text_of(),
            final(self).content_spec().filename_seq() == old(self).content_spec().filename_seq(),
            final(self).lookahead == old(self).lookahead,
            final(self).la_pos == old(self).la_pos,
            final(self).is_initial == old(self).is_initial,
            final(self).is_end_state == old(self).is_end_state,
            final(self).indent_level == old(self).indent_level,
            final(self).pos_spec() >= old(self).pos_spec(),
            ({
                let text = old(self).text_of();
                let te = trim_back_end(
                    text,
                    old(self).pos_spec() as int,
                    line_text_end(text, old(self).pos_spec() as int),
                );
                match trivia_scan(text, te, false) {
                    Ok(end) => r is Ok && r->Ok_0.text_end as int == te && final(self).pos_spec() as int == end,
                    Err(q) => r is Err && r->Err_0.kind == ErrorKind::InvalidCarriageReturn
                        && r->Err_0.byte_offset as int == q,
                }
            }),
            match r {
                Ok(t) => {
                    &&& t.token_type == TokenType::LineText
                    &&& t.wf()
                    &&& t.in_bounds(final(self).text_of().len() as int)
                    &&& t.text_start == old(self).pos_spec()
                    &&& token_content_ok(
                        t,
                        final(self).text_of(),
                        final(self).indent_level_spec() as int,
                    )
                    &&& final(self).prev_type_spec() == TokenType::LineText
                    &&& final(self).text_start_spec() == final(self).pos_spec()
                    &&& final(self).pos_spec() > old(self).pos_spec()
                    &&& final(self).stop_facts()
                },
                Err(e) => e.kind == ErrorKind::InvalidCarriageReturn,
            },
    {
        let ghost text = self.text_of();
        let ghost ts = self.pos as int;
        proof {
            self.content.lemma_wf();
            lemma_line_text_end(text, ts);
        }
        let len = self.content.len();
        let start = self.pos;
        let mut p = start;
        while p < len && !is_nl_exec(self.content.char_at(p)) && self.content.char_at(p) != '#'
            invariant
                self.wf(),
                *self == *old(self),
                text == self.text_of(),
                len == text.len(),
                ts == start as int,
                start == self.pos,
                start <= p <= len,
                forall|k: int| ts <= k < p ==> !is_nl(#[trigger] text[k]) && text[k] != '#',
                p <= line_text_end(text, ts),
            decreases len - p,
        {
            proof {
                lemma_line_text_end(text, ts);
                assert(line_text_end(text, ts) != p);
            }
            p = p + 1;
        }
        proof {
            lemma_line_text_end(text, ts);
            assert(p == line_text_end(text, ts)) by {
                if p < line_text_end(text, ts) {
                    assert(!is_nl(text[p as int]) && text[p as int] != '#');
                }
            }
            lemma_trim_back(text, ts, p as int);
        }
        let mut e = p;
        while e > start && is_blank_exec(self.content.char_at(e - 1))
            invariant
                self.wf(),
                *self == *old(self),
                text == self.text_of(),
                len == text.len(),
                ts == start as int,
                start == self.pos,
                start <= e <= p <= len,
                p == line_text_end(text, ts),
                forall|k: int| e <= k < p ==> is_blank(#[trigger] text[k]),
                trim_back_end(text, ts, p as int) <= e,
            decreases e,
        {
            proof {
                lemma_trim_back(text, ts, p as int);
                assert(trim_back_end(text, ts, p as int) != e) by {
                    if trim_back_end(text, ts, p as int) == e {
                        assert(!is_blank(text[e - 1]));
                    }
                }
            }
            e = e - 1;
        }
        proof {
            lemma_trim_back(text, ts, p as int);
            assert(e == trim_back_end(text, ts, p as int)) by {
                if e > trim_back_end(text, ts, p as int) {
                    assert(is_blank(text[e - 1]));
                }
            }
            assert(e > start) by {
                if e == start {
                    assert(trim_back_end(text, ts, p as int) <= start);
                }
            }
        }
        let chars = self.content.slice_chars(start, e);
        let value = chars_to_string(&chars);
        self.pos = e;
        self.new_token(TokenType::LineText, Some(value))
    }

    /// Lexes block text: consumes each following line indented by at least
    /// one more unit than the current level, stripping exactly that much
    /// padding, until a lesser-indented line or the end of input.
    fn lex_block_text(&mut self) -> (r: Result<Token, ParsingError>)
        requires
            old(self).wf(),
            old(self).text_start_spec() == old(self).pos_spec(),
            old(self).pos_spec() < old(self).text_of().len() ==> is_nl(
                old(self).text_of()[old(self).pos_spec() as int],
            ),
        ensures
            final(self).wf(),
            final(self).text_of() == old(self).text_of(),
            final(self).content_spec().filename_seq() == old(self).content_spec().filename_seq(),
            final(self).lookahead == old(self).lookahead,
            final(self).la_pos == old(self).la_pos,
            final(self).is_initial == old(self).is_initial,
            final(self).is_end_state == old(self).is_end_state,
            final(self).indent_level == old(self).indent_level,
            final(self).pos_spec() >= old(self).pos_spec(),
            ({
                let text = old(self).text_of();
                let req = (old(self).indent_level_spec() + 1) * indent_unit();
                match block_scan(text, old(self).pos_spec() as int, req) {
                    BlockScan::Done { value, end } => match trivia_scan(text, end, false) {
                        Ok(tend) => r is Ok && r->Ok_0.text_end as int == end && final(self).pos_spec() as int == tend,
                        Err(q) => r is Err && r->Err_0.kind
                            == ErrorKind::InvalidCarriageReturn && r->Err_0.byte_offset as int
                            == q,
                    },
                    BlockScan::CrError { at } => r is Err && r->Err_0.kind
                        == ErrorKind::InvalidCarriageReturn && r->Err_0.byte_offset as int == at,
                }
            }),
            match r {
                Ok(t) => {
                    &&& t.token_type == TokenType::BlockText
                    &&& t.wf()
                    &&& t.in_bounds(final(self).text_of().len() as int)
                    &&& t.text_start == old(self).pos_spec()
                    &&& token_content_ok(
                        t,
                        final(self).text_of(),
                        final(self).indent_level_spec() as int,
                    )
                    &&& final(self).prev_type_spec() == TokenType::BlockText
                    &&& final(self).text_start_spec() == final(self).pos_spec()
                    &&& final(self).stop_facts()
                },
                Err(e) => e.kind == ErrorKind::InvalidCarriageReturn,
            },
    {
        let ghost text = self.text_of();
        let ghost ts = self.pos as int;
        let ghost req = (self.indent_level + 1) * indent_unit();
        proof {
            self.content.lemma_wf();
        }
        let len = self.content.len();
        let required = (self.indent_level + 1) * 4;
        assert(required as int == req);
        let mut value: Vec<char> = Vec::new();
        loop
            invariant
                self.wf(),
                self.text_of() == text,
                text == old(self).text_of(),
                len == text.len(),
                self.content_spec().filename_seq() == old(self).content_spec().filename_seq(),
                self.lookahead == old(self).lookahead,
                self.la_pos == old(self).la_pos,
                self.is_initial == old(self).is_initial,
                self.is_end_state == old(self).is_end_state,
                self.indent_level == old(self).indent_level,
                self.prev_type == old(self).prev_type,
                self.leading_trivia_start == old(self).leading_trivia_start,
                self.text_start == old(self).text_start,
                ts == old(self).pos_spec() as int,
                required as int == req,
                req == (self.indent_level + 1) * indent_unit(),
                old(self).pos_spec() <= self.pos <= len,
                block_scan(text, ts, req) == bscan_prepend(value@, block_scan(text, self.pos as int, req)),
            ensures
                self.pos >= len || !is_nl(text[self.pos as int]) || block_scan(
                    text,
                    self.pos as int,
                    req,
                ) == (BlockScan::Done { value: Seq::<char>::empty(), end: self.pos as int }),
            decreases len - self.pos,
        {
            if self.pos >= len {
                break;
            }
            let c = self.content.char_at(self.pos);
            if c != '\n' && c != '\r' {
                break;
            }
            let nl = self.pos;
            let after: usize = if c == '\r' {
                if nl + 1 >= len || self.content.char_at(nl + 1) != '\n' {
                    return Err(self.error(
                        nl,
                        ErrorKind::InvalidCarriageReturn,
                        "Carriage return (CR) was not followed by a line feed (LF)".to_owned(),
                    ));
                }
                nl + 2
            } else {
                nl + 1
            };
            proof {
                lemma_space_run(text, after as int);
            }
            let mut se = after;
            while se < len && self.content.char_at(se) == ' '
                invariant
                    self.wf(),
                    text == self.text_of(),
                    len == text.len(),
                    after <= se <= len,
                    after <= len,
                    forall|k: int| after <= k < se ==> text[k] == ' ',
                    se <= space_run_end(text, after as int),
                decreases len - se,
            {
                proof {
                    lemma_space_run(text, after as int);
                    assert(space_run_end(text, after as int) != se);
                }
                se = se + 1;
            }
            proof {
                lemma_space_run(text, after as int);
                assert(se == space_run_end(text, after as int)) by {
                    if se < space_run_end(text, after as int) {
                        assert(text[se as int] == ' ');
                    }
                }
            }
            let leading = se - after;
            if leading >= required {
                proof {
                    lemma_line_end(text, after as int);
                }
                let mut le = after;
                while le < len && !is_nl_exec(self.content.char_at(le))
                    invariant
                        self.wf(),
                        text == self.text_of(),
                        len == text.len(),
                        after <= le <= len,
                        forall|k: int| after <= k < le ==> !is_nl(#[trigger] text[k]),
                        le <= line_end(text, after as int),
                    decreases len - le,
                {
                    proof {
                        lemma_line_end(text, after as int);
                        assert(line_end(text, after as int) != le);
                    }
                    le = le + 1;
                }
                proof {
                    lemma_line_end(text, after as int);
                    assert(le == line_end(text, after as int)) by {
                        if le < line_end(text, after as int) {
                            assert(!is_nl(text[le as int]));
                        }
                    }
                    assert(se <= le) by {
                        if le < se {
                            assert(text[le as int] == ' ');
                            assert(is_nl(text[le as int]));
                        }
                    }
                }
                let ghost value0 = value@;
                let ghost piece = text.subrange(nl as int, after as int) + text.subrange(
                    after + required,
                    le as int,
                );
                self.push_range(&mut value, nl, after);
                self.push_range(&mut value, after + required, le);
                proof {
                    assert(value@ =~= value0 + piece);
                    assert(block_scan(text, nl as int, req) == bscan_prepend(
                        piece,
                        block_scan(text, le as int, req),
                    ));
                    lemma_bscan_prepend_assoc(value0, piece, block_scan(text, le as int, req));
                }
                proof {
                    self.content.lemma_wf();
                }
                self.content.mark_line(after);
                self.cur_line_start = after;
                self.pos = le;
            } else {
                proof {
                    assert(block_scan(text, nl as int, req) == (BlockScan::Done {
                        value: Seq::<char>::empty(),
                        end: nl as int,
                    }));
                }
                break;
            }
        }
        proof {
            assert(block_scan(text, self.pos as int, req) == (BlockScan::Done {
                value: Seq::<char>::empty(),
                end: self.pos as int,
            }));
            assert(value@ + Seq::<char>::empty() =~= value@);
        }
        let s = chars_to_string(&value);
        self.new_token(TokenType::BlockText, Some(s))
    }
}


/// The outcome of one `lex` call on a state that is past the indentation
/// checks: dispatch on the character under the cursor, with the token's
/// trailing trivia scanned by [`trivia_scan`].
pub open spec fn lex_dispatch(text: Seq<char>, pos: int, prev: TokenType, level: int) -> Result<
    TokenType,
    (ErrorKind, int),
> {
    let c = text[pos];
    if c == '"' {
        match quoted_scan(text, pos + 1) {
            QuotedScan::Done { value, end } => match trivia_scan(text, end, false) {
                Ok(_) => Ok(TokenType::QuotedText),
                Err(q) => Err((ErrorKind::InvalidCarriageReturn, q)),
            },
            QuotedScan::Unterminated => Err((ErrorKind::UnterminatedQuotedString, pos)),
            QuotedScan::BadEscape { at } => Err((ErrorKind::InvalidEscapeSequence, at)),
        }
    } else if is_nl(c) {
        if prev is GreaterThan {
            match block_scan(text, pos, (level + 1) * indent_unit()) {
                BlockScan::Done { value, end } => match trivia_scan(text, end, false) {
                    Ok(_) => Ok(TokenType::BlockText),
                    Err(q) => Err((ErrorKind::InvalidCarriageReturn, q)),
                },
                BlockScan::CrError { at } => Err((ErrorKind::InvalidCarriageReturn, at)),
            }
        } else if c == '\r' && (pos + 1 >= text.len() || text[pos + 1] != '\n') {
            Err((ErrorKind::InvalidCarriageReturn, pos))
        } else {
            let after = pos + (if c == '\r' {
                2int
            } else {
                1int
            });
            match trivia_scan(text, after, true) {
                Ok(_) => Ok(TokenType::EndOfLine),
                Err(q) => Err((ErrorKind::InvalidCarriageReturn, q)),
            }
        }
    } else if prev is Colon {
        let te = trim_back_end(text, pos, line_text_end(text, pos));
        match trivia_scan(text, te, false) {
            Ok(_) => Ok(TokenType::LineText),
            Err(q) => Err((ErrorKind::InvalidCarriageReturn, q)),
        }
    } else if is_word_start(c) {
        match trivia_scan(text, word_run_end(text, pos), false) {
            Ok(_) => Ok(TokenType::Word),
            Err(q) => Err((ErrorKind::InvalidCarriageReturn, q)),
        }
    } else if c == ':' {
        match trivia_scan(text, pos + 1, false) {
            Ok(_) => Ok(TokenType::Colon),
            Err(q) => Err((ErrorKind::InvalidCarriageReturn, q)),
        }
    } else if c == '>' {
        match trivia_scan(text, pos + 1, false) {
            Ok(_) => Ok(TokenType::GreaterThan),
            Err(q) => Err((ErrorKind::InvalidCarriageReturn, q)),
        }
    } else {
        Err((ErrorKind::UnexpectedCharacter, pos))
    }
}

/// The complete outcome of one `lex` call: which token kind comes, or
/// which diagnostic, as a function of the lexer's position, line start,
/// previous token kind, indentation level and initial flag. Success is
/// owed wherever this yields `Ok`.
pub open spec fn lex_spec(
    text: Seq<char>,
    pos: int,
    cls: int,
    prev: TokenType,
    level: int,
    initial: bool,
) -> Result<TokenType, (ErrorKind, int)> {
    if initial {
        match trivia_scan(text, pos, true) {
            Ok(_) => Ok(TokenType::StartOfInput),
            Err(q) => Err((ErrorKind::InvalidCarriageReturn, q)),
        }
    } else if pos >= text.len() {
        if prev is GreaterThan {
            Ok(TokenType::BlockText)
        } else if level > 0 {
            Ok(TokenType::Outdent)
        } else {
            Ok(TokenType::EndOfInput)
        }
    } else if at_line_start(prev) {
        if leading_has_tab(text, cls) {
            Err((ErrorKind::TabIndentation, space_run_end(text, cls)))
        } else {
            let leading = space_run_end(text, cls) - cls;
            if leading % 4 != 0 {
                Err((ErrorKind::MisalignedIndentation, pos))
            } else {
                let target = leading / 4;
                if target > level {
                    Ok(TokenType::Indent)
                } else if target < level {
                    Ok(TokenType::Outdent)
                } else {
                    lex_dispatch(text, pos, prev, level)
                }
            }
        }
    } else {
        lex_dispatch(text, pos, prev, level)
    }
}

impl Lexer {
    /// Produces the next token. The outcome — which token kind comes, or
    /// which diagnostic at which position — is exactly [`lex_spec`] of the
    /// state, so success is owed wherever that function yields `Ok`.
    /// Exactly one `Indent` or `Outdent` is emitted per call — multi-level
    /// jumps come out as a sequence — and the indentation depth changes by
    /// exactly one per such token, returning to zero by the time
    /// `EndOfInput` is emitted. A tab in the leading whitespace of a
    /// measured line always fails with the tab-indentation error.
    fn lex(&mut self) -> (r: Result<Token, ParsingError>)
        requires
            old(self).wf(),
            old(self).clean(),
            !old(self).end_state_spec(),
            old(self).lookahead is None,
        ensures
            final(self).wf(),
            final(self).text_of() == old(self).text_of(),
            final(self).content_spec().filename_seq() == old(self).content_spec().filename_seq(),
            final(self).lookahead == old(self).lookahead,
            final(self).la_pos == old(self).la_pos,
            final(self).pos_spec() >= old(self).pos_spec(),
            !old(self).is_initial_spec() && at_line_start(old(self).prev_type_spec()) && old(self).pos_spec() < old(self).text_of().len() && leading_has_tab(
                old(self).text_of(),
                old(self).line_start_spec() as int,
            ) ==> r is Err && r->Err_0.kind == ErrorKind::TabIndentation,
            ({
                let s = lex_spec(
                    old(self).text_of(),
                    old(self).pos_spec() as int,
                    old(self).line_start_spec() as int,
                    old(self).prev_type_spec(),
                    old(self).indent_level_spec() as int,
                    old(self).is_initial_spec(),
                );
                match r {
                    Ok(t) => s == Ok::<TokenType, (ErrorKind, int)>(t.token_type),
                    Err(e) => s == Err::<TokenType, (ErrorKind, int)>(
                        (e.kind, e.byte_offset as int),
                    ),
                }
            }),
            match r {
                Ok(t) => {
                    &&& final(self).clean()
                    &&& t.wf()
                    &&& t.in_bounds(final(self).text_of().len() as int)
                    &&& t.token_type != TokenType::Error
                    &&& final(self).prev_type_spec() == t.token_type
                    &&& (consuming_type(t.token_type) ==> final(self).pos_spec() > old(self).pos_spec())
                    &&& (t.token_type is Indent ==> final(self).indent_level_spec() == old(self).indent_level_spec() + 1)
                    &&& (t.token_type is Outdent ==> old(self).indent_level_spec() >= 1 && final(self).indent_level_spec() == old(self).indent_level_spec() - 1)
                    &&& (!(t.token_type is Indent) && !(t.token_type is Outdent) ==> final(self).indent_level_spec() == old(self).indent_level_spec())
                    &&& (t.token_type is EndOfInput <==> final(self).end_state_spec())
                    &&& (t.token_type is EndOfInput ==> old(self).indent_level_spec() == 0)
                    &&& (old(self).is_initial_spec() ==> t.token_type is StartOfInput)
                    &&& !final(self).is_initial_spec()
                    &&& token_content_ok(
                        t,
                        final(self).text_of(),
                        old(self).indent_level_spec() as int,
                    )
                },
                Err(e) => {
                    &&& !final(self).end_state_spec()
                    &&& final(self).indent_level_spec() == old(self).indent_level_spec()
                },
            },
    {
        let ghost text = self.text_of();
        proof {
            self.content.lemma_wf();
        }
        if self.is_initial {
            let t = self.new_token(TokenType::StartOfInput, None);
            if let Ok(tok) = t {
                self.is_initial = false;
                return Ok(tok);
            } else {
                return t;
            }
        }
        let len = self.content.len();
        if self.pos >= len {
            if match self.prev_type {
                TokenType::GreaterThan => true,
                _ => false,
            } {
                return self.lex_block_text();
            }
            if self.indent_level > 0 {
                let t = self.new_token(TokenType::Outdent, None);
                if let Ok(tok) = t {
                    self.indent_level = self.indent_level - 1;
                    return Ok(tok);
                } else {
                    return t;
                }
            }
            self.is_end_state = true;
            let t = self.new_token(TokenType::EndOfInput, None);
            if t.is_err() {
                self.is_end_state = false;
            }
            return t;
        }
        if match self.prev_type {
            TokenType::StartOfInput => true,
            TokenType::EndOfLine => true,
            TokenType::Indent => true,
            TokenType::Outdent => true,
            _ => false,
        } {
            let leading = match self.measure_indentation() {
                Err(p) => {
                    return Err(self.error(
                        p,
                        ErrorKind::TabIndentation,
                        "Tab character used for indentation".to_owned(),
                    ));
                },
                Ok(n) => n,
            };
            proof {
                assert(self.pos == self.cur_line_start + leading) by {
                    let sre = space_run_end(text, self.cur_line_start as int);
                    lemma_space_run(text, self.cur_line_start as int);
                    lemma_blank_run(text, self.cur_line_start as int);
                    if self.pos < sre {
                        assert(text[self.pos as int] == ' ');
                    }
                    if self.pos > sre {
                        assert(is_blank(text[sre]));
                        assert(text[sre] == '\t');
                        assert(blank_run_end(text, self.cur_line_start as int) > sre) by {
                            if blank_run_end(text, self.cur_line_start as int) <= sre {
                                assert(text[blank_run_end(text, self.cur_line_start as int)]
                                    == ' ');
                            }
                        }
                        assert(leading_has_tab(text, self.cur_line_start as int));
                    }
                }
            }
            if leading % 4 != 0 {
                return Err(self.error(
                    self.pos,
                    ErrorKind::MisalignedIndentation,
                    "Indentation must be a multiple of four spaces".to_owned(),
                ));
            }
            let target = leading / 4;
            if target > self.indent_level {
                let t = self.new_token(TokenType::Indent, None);
                if let Ok(tok) = t {
                    self.indent_level = self.indent_level + 1;
                    return Ok(tok);
                } else {
                    return t;
                }
            }
            if target < self.indent_level {
                let t = self.new_token(TokenType::Outdent, None);
                if let Ok(tok) = t {
                    self.indent_level = self.indent_level - 1;
                    return Ok(tok);
                } else {
                    return t;
                }
            }
        }
        let ch = self.content.char_at(self.pos);
        if ch == '"' {
            return self.lex_quoted_text();
        }
        if ch == '\n' || ch == '\r' {
            if match self.prev_type {
                TokenType::GreaterThan => true,
                _ => false,
            } {
                return self.lex_block_text();
            }
            let res = self.handle_new_line_sequence();
            if let Err(e) = res {
                return Err(e);
            }
            return self.new_token(TokenType::EndOfLine, None);
        }
        if match self.prev_type {
            TokenType::Colon => true,
            _ => false,
        } {
            return self.lex_line_text();
        }
        if is_word_start_exec(ch) {
            return self.lex_word();
        }
        if ch == ':' {
            self.pos = self.pos + 1;
            return self.new_token(TokenType::Colon, None);
        }
        if ch == '>' {
            self.pos = self.pos + 1;
            return self.new_token(TokenType::GreaterThan, None);
        }
        let mut msg = "Unexpected character: ".to_owned();
        let one = chars_to_string(&vec![ch]);
        msg.append(one.as_str());
        Err(self.error(self.pos, ErrorKind::UnexpectedCharacter, msg))
    }

    /// Whether the end-of-input token has been produced.
    pub closed spec fn end_state_spec(&self) -> bool {
        self.is_end_state
    }

    /// Whether the start-of-input token is still pending.
    pub closed spec fn is_initial_spec(&self) -> bool {
        self.is_initial
    }

    /// The start offset of the line under the cursor.
    pub closed spec fn line_start_spec(&self) -> usize {
        self.cur_line_start
    }

    /// The kind of the next token, lexing and buffering it if none is
    /// buffered yet; `Error` if lexing it failed.
    pub fn peek_type(&mut self) -> (r: TokenType)
        requires
            old(self).lexer_ok(),
            old(self).live(),
        ensures
            final(self).lexer_ok(),
            final(self).live(),
            final(self).text_of() == old(self).text_of(),
            final(self).content_spec().filename_seq() == old(self).content_spec().filename_seq(),
            final(self).measure() == old(self).measure(),
            final(self).delivered_depth() == old(self).delivered_depth(),
            final(self).peeked() == Some(r),
            old(self).peeked() is Some ==> *final(self) == *old(self) && old(self).peeked()
                == Some(r),
            r != TokenType::Error ==> final(self).peeked_token() is Some && final(self).peeked_token()->0.token_type == r,
            r == TokenType::EndOfInput ==> final(self).delivered_depth() == 0,
            old(self).peeked() is None ==> ({
                let s = lex_spec(
                    old(self).text_of(),
                    old(self).pos_spec() as int,
                    old(self).line_start_spec() as int,
                    old(self).prev_type_spec(),
                    old(self).indent_level_spec() as int,
                    old(self).is_initial_spec(),
                );
                match s {
                    Ok(k) => r == k,
                    Err((k, p)) => r == TokenType::Error && final(self).peeked_err() is Some
                        && final(self).peeked_err()->0.kind == k && final(self).peeked_err()->0.byte_offset as int == p,
                }
            }),
            old(self).is_initial_spec() ==> (r == TokenType::StartOfInput || r
                == TokenType::Error),
    {
        if self.lookahead.is_none() {
            proof {
                self.la_pos@ = self.pos;
            }
            let res = self.lex();
            self.lookahead = Some(res);
        }
        match &self.lookahead {
            Some(Ok(t)) => t.token_type,
            Some(Err(_)) => TokenType::Error,
            None => TokenType::Error,
        }
    }

    /// Hands out the next token (or the diagnostic that lexing produced),
    /// taking the buffered one if present.
    pub fn advance(&mut self) -> (r: Result<Token, ParsingError>)
        requires
            old(self).lexer_ok(),
            old(self).live(),
        ensures
            r is Ok ==> final(self).lexer_ok(),
            final(self).text_of() == old(self).text_of(),
            final(self).content_spec().filename_seq() == old(self).content_spec().filename_seq(),
            final(self).measure() <= old(self).measure(),
            final(self).peeked() is None,
            old(self).peeked_token() is Some ==> r == Ok::<Token, ParsingError>(
                old(self).peeked_token()->0,
            ),
            old(self).peeked() == Some(TokenType::Error) ==> r is Err,
            old(self).peeked_err() is Some ==> r is Err && r->Err_0 == old(self).peeked_err()->0,
            old(self).peeked() is None ==> ({
                let s = lex_spec(
                    old(self).text_of(),
                    old(self).pos_spec() as int,
                    old(self).line_start_spec() as int,
                    old(self).prev_type_spec(),
                    old(self).indent_level_spec() as int,
                    old(self).is_initial_spec(),
                );
                match s {
                    Ok(k) => r is Ok && r->Ok_0.token_type == k,
                    Err((k, p)) => r is Err && r->Err_0.kind == k && r->Err_0.byte_offset as int
                        == p,
                }
            }),
            old(self).is_initial_spec() ==> (r is Ok ==> r->Ok_0.token_type is StartOfInput),
            match r {
                Ok(t) => {
                    &&& t.wf()
                    &&& t.in_bounds(final(self).text_of().len() as int)
                    &&& t.token_type != TokenType::Error
                    &&& token_content_ok(
                        t,
                        final(self).text_of(),
                        final(self).delivered_depth(),
                    )
                    &&& (consuming_type(t.token_type) ==> final(self).measure() < old(self).measure())
                    &&& (t.token_type is Indent ==> final(self).delivered_depth() == old(self).delivered_depth() + 1)
                    &&& (t.token_type is Outdent ==> old(self).delivered_depth() >= 1 && final(self).delivered_depth() == old(self).delivered_depth() - 1)
                    &&& (!(t.token_type is Indent) && !(t.token_type is Outdent) ==> final(self).delivered_depth() == old(self).delivered_depth())
                    &&& (t.token_type is EndOfInput ==> old(self).delivered_depth() == 0 && final(self).delivered_depth() == 0)
                    &&& (t.token_type != TokenType::EndOfInput ==> final(self).live())
                },
                Err(_) => true,
            },
    {
        let buffered = self.lookahead.take();
        match buffered {
            Some(res) => res,
            None => self.lex(),
        }
    }
}


/// Law: block-text dedent. At a proper newline whose following line
/// carries exactly `required + k` leading spaces, the scan keeps the
/// newline sequence verbatim, strips exactly `required` characters of
/// padding, and the retained line content begins with exactly `k` spaces.
pub proof fn lemma_block_dedent(text: Seq<char>, i: int, required: int, k: int)
    requires
        0 <= i < text.len(),
        is_nl(text[i]),
        text[i] == '\r' ==> i + 1 < text.len() && text[i + 1] == '\n',
        required >= 0,
        k >= 0,
        ({
            let after = if text[i] == '\r' {
                i + 2
            } else {
                i + 1
            };
            space_run_end(text, after) - after == required + k
        }),
    ensures
        ({
            let after = if text[i] == '\r' {
                i + 2
            } else {
                i + 1
            };
            let le = line_end(text, after);
            let kept = text.subrange(after + required, le);
            &&& after + required + k <= le
            &&& (match block_scan(text, le, required) {
                BlockScan::Done { value: rest, end } => block_scan(text, i, required)
                    == (BlockScan::Done {
                    value: text.subrange(i, after) + kept + rest,
                    end,
                }),
                other => block_scan(text, i, required) == other,
            })
            &&& forall|m: int| 0 <= m < k ==> kept[m] == ' '
            &&& k < kept.len() ==> kept[k] != ' '
        }),
{
    let after = if text[i] == '\r' {
        i + 2
    } else {
        i + 1
    };
    let sre = space_run_end(text, after);
    lemma_space_run(text, after);
    lemma_line_end(text, after);
    let le = line_end(text, after);
    assert(sre <= le) by {
        if le < sre {
            assert(text[le] == ' ');
            assert(is_nl(text[le]));
        }
    }
    let kept = text.subrange(after + required, le);
    assert forall|m: int| 0 <= m < k implies kept[m] == ' ' by {
        assert(text[after + required + m] == ' ');
    }
    if k < kept.len() {
        assert(kept[k] == text[sre]);
        if sre < text.len() {
            assert(text[sre] != ' ');
        }
    }
}

} // verus!
