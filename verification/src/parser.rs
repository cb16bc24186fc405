//! The recursive-descent parser: consumes the lexer's token stream with one
//! token of lookahead and builds the concrete syntax tree. Every block
//! consumes exactly one indent and one outdent token, so the tree's nesting
//! mirrors the indentation depth, which is back to zero once end of input
//! is reached.

use vstd::prelude::*;

use crate::content::FileContent;
use crate::error::{ErrorKind, ParsingError};
use crate::lexer::{lex_spec, Lexer};
use crate::nodes;
use crate::tokens::{token_type_name, Token, TokenType};

verus! {

/// The outcome of a parsing step: a node, or the first diagnostic.
pub type ParserResult<T> = Result<T, ParsingError>;

/// Lexes and parses a whole buffer. On success, hands back the tree
/// together with the buffer (its line-start table now fully recorded).
pub fn parse_configuration_file(content: FileContent) -> (r: ParserResult<
    (nodes::File, FileContent),
>)
    requires
        content.wf(),
    ensures
        match r {
            Ok((file, c)) => {
                &&& file.wf()
                &&& file.in_bounds(c.text_seq().len() as int)
                &&& c.wf()
                &&& c.text_seq() == content.text_seq()
                &&& c.filename_seq() == content.filename_seq()
            },
            Err(_) => true,
        },
{
    let mut lexer = Lexer::new(content);
    match parse_file(&mut lexer) {
        Ok(file) => Ok((file, lexer.into_content())),
        Err(e) => Err(e),
    }
}

/// Parses `File := PropertyList EndOfInput`, after consuming the
/// start-of-input token that carries the file's leading trivia.
fn parse_file(lexer: &mut Lexer) -> (r: ParserResult<nodes::File>)
    requires
        old(lexer).lexer_ok(),
        old(lexer).live(),
    ensures
        final(lexer).text_of() == old(lexer).text_of(),
        final(lexer).content_spec().filename_seq() == old(lexer).content_spec().filename_seq(),
        match r {
            Ok(f) => {
                &&& f.wf()
                &&& f.in_bounds(final(lexer).text_of().len() as int)
                &&& final(lexer).delivered_depth() == 0
                &&& final(lexer).lexer_ok()
            },
            Err(_) => true,
        },
    decreases lexer.measure(), 5int,
{
    let _start_of_input = require_token(lexer, TokenType::StartOfInput)?;
    let prop_list = parse_property_list(lexer)?;
    let end_of_input = require_token(lexer, TokenType::EndOfInput)?;
    Ok(nodes::File { property_list: prop_list, end_of_input })
}

/// Parses `PropertyList := Property+`: properties as long as the next
/// token is a word.
fn parse_property_list(lexer: &mut Lexer) -> (r: ParserResult<nodes::PropertyList>)
    requires
        old(lexer).lexer_ok(),
        old(lexer).live(),
    ensures
        final(lexer).text_of() == old(lexer).text_of(),
        final(lexer).content_spec().filename_seq() == old(lexer).content_spec().filename_seq(),
        final(lexer).measure() <= old(lexer).measure(),
        match r {
            Ok(l) => {
                &&& l.wf()
                &&& l.in_bounds(final(lexer).text_of().len() as int)
                &&& final(lexer).lexer_ok()
                &&& final(lexer).live()
                &&& final(lexer).measure() < old(lexer).measure()
                &&& final(lexer).delivered_depth() == old(lexer).delivered_depth()
            },
            Err(_) => true,
        },
    decreases lexer.measure(), 3int,
{
    let ghost m0 = old(lexer).measure();
    let ghost depth0 = old(lexer).delivered_depth();
    let ghost text0 = old(lexer).text_of();
    let ghost file0 = old(lexer).content_spec().filename_seq();
    let mut properties: Vec<nodes::Property> = Vec::new();
    loop
        invariant
            m0 == old(lexer).measure(),
            text0 == old(lexer).text_of(),
            file0 == old(lexer).content_spec().filename_seq(),
            depth0 == old(lexer).delivered_depth(),
            lexer.lexer_ok(),
            lexer.live(),
            lexer.text_of() == text0,
            lexer.content_spec().filename_seq() == file0,
            lexer.measure() <= m0,
            lexer.delivered_depth() == depth0,
            properties@.len() > 0 ==> lexer.measure() < m0,
            forall|i: int| 0 <= i < properties@.len() ==> #[trigger] properties@[i].wf(),
            forall|i: int|
                0 <= i < properties@.len() ==> #[trigger] properties@[i].in_bounds(
                    text0.len() as int,
                ),
        ensures
            properties@.len() > 0,
            lexer.lexer_ok(),
            lexer.live(),
            lexer.measure() < m0,
            lexer.delivered_depth() == depth0,
            lexer.text_of() == text0,
            lexer.content_spec().filename_seq() == file0,
            forall|i: int| 0 <= i < properties@.len() ==> #[trigger] properties@[i].wf(),
            forall|i: int|
                0 <= i < properties@.len() ==> #[trigger] properties@[i].in_bounds(
                    text0.len() as int,
                ),
        decreases lexer.measure(),
    {
        let prop = match parse_property(lexer) {
            Ok(p) => p,
            Err(e) => {
                return Err(e);
            },
        };
        properties.push(prop);
        if lexer.peek_type() != TokenType::Word {
            break;
        }
    }
    let ghost ps = properties@;
    proof {
        assert forall|i: int| 0 <= i < ps.len() implies (#[trigger] ps[i]).wf() && ps[i].in_bounds(
            text0.len() as int,
        ) by {
            assert(properties@[i].wf());
            assert(properties@[i].in_bounds(text0.len() as int));
        }
    }
    let list = nodes::PropertyList { properties };
    proof {
        assert(list.properties@ == ps);
        assert forall|i: int|
            0 <= i < list.properties@.len() implies (#[trigger] list.properties@[i]).wf() by {
            assert(ps[i].wf());
        }
        assert forall|i: int|
            0 <= i < list.properties@.len() implies (#[trigger] list.properties@[i]).in_bounds(
            text0.len() as int,
        ) by {
            assert(ps[i].in_bounds(text0.len() as int));
        }
    }
    Ok(list)
}

/// Parses `Property := PropertyDeclaration (PropertyValue EndOfLine |
/// EndOfLine PropertyBlock?)`.
fn parse_property(lexer: &mut Lexer) -> (r: ParserResult<nodes::Property>)
    requires
        old(lexer).lexer_ok(),
        old(lexer).live(),
    ensures
        final(lexer).text_of() == old(lexer).text_of(),
        final(lexer).content_spec().filename_seq() == old(lexer).content_spec().filename_seq(),
        final(lexer).measure() <= old(lexer).measure(),
        match r {
            Ok(p) => {
                &&& p.wf()
                &&& p.in_bounds(final(lexer).text_of().len() as int)
                &&& final(lexer).lexer_ok()
                &&& final(lexer).live()
                &&& final(lexer).measure() < old(lexer).measure()
                &&& final(lexer).delivered_depth() == old(lexer).delivered_depth()
            },
            Err(_) => true,
        },
        r is Ok && old(lexer).peeked_token() is Some ==> r->Ok_0.declaration.type_token == old(
            lexer,
        ).peeked_token()->0,
        (match old(lexer).peeked() {
            Some(k) => (!(k is Word) && k != TokenType::Error) ==> r is Err && r->Err_0.kind
                == ErrorKind::UnexpectedToken,
            None => true,
        }),
    decreases lexer.measure(), 2int,
{
    let declaration = parse_property_declaration(lexer)?;
    if lexer.peek_type() == TokenType::EndOfLine {
        let end_of_line = lexer.advance()?;
        if lexer.peek_type() != TokenType::Indent {
            return Ok(nodes::Property { declaration, value: None, end_of_line, block: None });
        }
        let block = parse_property_block(lexer)?;
        return Ok(nodes::Property {
            declaration,
            value: None,
            end_of_line,
            block: Some(block),
        });
    }
    let value = parse_property_value(lexer)?;
    let end_of_line = require_token(lexer, TokenType::EndOfLine)?;
    Ok(nodes::Property { declaration, value: Some(value), end_of_line, block: None })
}

/// Parses `PropertyDeclaration := Word (Word | QuotedText)?`.
fn parse_property_declaration(lexer: &mut Lexer) -> (r: ParserResult<nodes::PropertyDeclaration>)
    requires
        old(lexer).lexer_ok(),
        old(lexer).live(),
    ensures
        final(lexer).text_of() == old(lexer).text_of(),
        final(lexer).content_spec().filename_seq() == old(lexer).content_spec().filename_seq(),
        final(lexer).measure() <= old(lexer).measure(),
        match r {
            Ok(d) => {
                &&& d.wf()
                &&& d.in_bounds(final(lexer).text_of().len() as int)
                &&& final(lexer).lexer_ok()
                &&& final(lexer).live()
                &&& final(lexer).measure() < old(lexer).measure()
                &&& final(lexer).delivered_depth() == old(lexer).delivered_depth()
            },
            Err(_) => true,
        },
        r is Ok && old(lexer).peeked_token() is Some ==> r->Ok_0.type_token == old(
            lexer,
        ).peeked_token()->0,
        old(lexer).peeked() == Some(TokenType::Word) ==> r is Ok,
        (match old(lexer).peeked() {
            Some(k) => (!(k is Word) && k != TokenType::Error) ==> r is Err && r->Err_0.kind
                == ErrorKind::UnexpectedToken,
            None => true,
        }),
    decreases lexer.measure(), 1int,
{
    let prop_type = require_token(lexer, TokenType::Word)?;
    let peek = lexer.peek_type();
    if peek == TokenType::Word || peek == TokenType::QuotedText {
        let name = lexer.advance()?;
        return Ok(nodes::PropertyDeclaration { type_token: prop_type, name_token: Some(name) });
    }
    Ok(nodes::PropertyDeclaration { type_token: prop_type, name_token: None })
}

/// Parses `PropertyValue := Colon (LineText | QuotedText) | GreaterThan
/// BlockText`.
fn parse_property_value(lexer: &mut Lexer) -> (r: ParserResult<nodes::PropertyValue>)
    requires
        old(lexer).lexer_ok(),
        old(lexer).live(),
    ensures
        final(lexer).text_of() == old(lexer).text_of(),
        final(lexer).content_spec().filename_seq() == old(lexer).content_spec().filename_seq(),
        final(lexer).measure() <= old(lexer).measure(),
        match r {
            Ok(v) => {
                &&& v.wf()
                &&& v.in_bounds(final(lexer).text_of().len() as int)
                &&& final(lexer).lexer_ok()
                &&& final(lexer).live()
                &&& final(lexer).measure() < old(lexer).measure()
                &&& final(lexer).delivered_depth() == old(lexer).delivered_depth()
            },
            Err(_) => true,
        },
        (old(lexer).peeked() == Some(TokenType::Colon) && r is Ok)
            ==> r->Ok_0.specifier_token == old(lexer).peeked_token()->0
            && r->Ok_0.specifier_token.token_type is Colon,
        (old(lexer).peeked() == Some(TokenType::GreaterThan) && r is Ok)
            ==> r->Ok_0.specifier_token == old(lexer).peeked_token()->0
            && r->Ok_0.specifier_token.token_type is GreaterThan,
        (match old(lexer).peeked() {
            Some(k) => (!(k is Colon) && !(k is GreaterThan) && k != TokenType::Error) ==> r
                is Err && r->Err_0.kind == ErrorKind::UnexpectedToken,
            None => true,
        }),
    decreases lexer.measure(), 1int,
{
    let peek = lexer.peek_type();
    if peek == TokenType::Colon {
        let colon = lexer.advance()?;
        let peek2 = lexer.peek_type();
        if peek2 == TokenType::LineText || peek2 == TokenType::QuotedText {
            let text = lexer.advance()?;
            return Ok(nodes::PropertyValue { specifier_token: colon, text_token: text });
        }
        return Err(unexpected_token(lexer, &[TokenType::LineText, TokenType::QuotedText]));
    }
    if peek == TokenType::GreaterThan {
        let greater_than = lexer.advance()?;
        let block_text = require_token(lexer, TokenType::BlockText)?;
        return Ok(nodes::PropertyValue { specifier_token: greater_than, text_token: block_text });
    }
    Err(unexpected_token(lexer, &[TokenType::Colon, TokenType::GreaterThan]))
}

/// Parses `PropertyBlock := Indent PropertyList Outdent`: exactly one
/// indent and one outdent per block, so the nesting depth the lexer
/// reports is unchanged across a block.
fn parse_property_block(lexer: &mut Lexer) -> (r: ParserResult<nodes::PropertyBlock>)
    requires
        old(lexer).lexer_ok(),
        old(lexer).live(),
    ensures
        final(lexer).text_of() == old(lexer).text_of(),
        final(lexer).content_spec().filename_seq() == old(lexer).content_spec().filename_seq(),
        final(lexer).measure() <= old(lexer).measure(),
        match r {
            Ok(b) => {
                &&& b.wf()
                &&& b.in_bounds(final(lexer).text_of().len() as int)
                &&& final(lexer).lexer_ok()
                &&& final(lexer).live()
                &&& final(lexer).measure() < old(lexer).measure()
                &&& final(lexer).delivered_depth() == old(lexer).delivered_depth()
            },
            Err(_) => true,
        },
    decreases lexer.measure(), 4int,
{
    let indent = require_token(lexer, TokenType::Indent)?;
    let prop_list = parse_property_list(lexer)?;
    let outdent = require_token(lexer, TokenType::Outdent)?;
    Ok(nodes::PropertyBlock { indent_token: indent, property_list: prop_list, outdent_token: outdent })
}

/// Takes the next token when it has the required kind, and fails with an
/// unexpected-token diagnostic otherwise.
fn require_token(lexer: &mut Lexer, token_type: TokenType) -> (r: ParserResult<Token>)
    requires
        old(lexer).lexer_ok(),
        old(lexer).live(),
        token_type != TokenType::Error,
    ensures
        final(lexer).text_of() == old(lexer).text_of(),
        final(lexer).content_spec().filename_seq() == old(lexer).content_spec().filename_seq(),
        final(lexer).measure() <= old(lexer).measure(),
        match r {
            Ok(t) => {
                &&& t.token_type == token_type
                &&& t.wf()
                &&& t.in_bounds(final(lexer).text_of().len() as int)
                &&& final(lexer).lexer_ok()
                &&& (token_type != TokenType::EndOfInput ==> final(lexer).live())
                &&& (crate::lexer::consuming_type(token_type) ==> final(lexer).measure() < old(lexer).measure())
                &&& (token_type is Indent ==> final(lexer).delivered_depth() == old(lexer).delivered_depth() + 1)
                &&& (token_type is Outdent ==> final(lexer).delivered_depth() == old(lexer).delivered_depth() - 1)
                &&& (!(token_type is Indent) && !(token_type is Outdent) ==> final(lexer).delivered_depth() == old(lexer).delivered_depth())
                &&& (token_type is EndOfInput ==> final(lexer).delivered_depth() == 0 && old(lexer).delivered_depth() == 0)
            },
            Err(_) => true,
        },
        old(lexer).peeked_token() is Some ==> ({
            let pt = old(lexer).peeked_token()->0;
            &&& (r is Ok <==> pt.token_type == token_type)
            &&& (pt.token_type == token_type ==> r == Ok::<Token, ParsingError>(pt))
            &&& (pt.token_type != token_type ==> r is Err && r->Err_0.kind
                == ErrorKind::UnexpectedToken && r->Err_0.byte_offset == pt.text_start)
        }),
        old(lexer).peeked_err() is Some ==> r is Err && r->Err_0 == old(lexer).peeked_err()->0,
        old(lexer).peeked() is None ==> ({
            let s = lex_spec(
                old(lexer).text_of(),
                old(lexer).pos_spec() as int,
                old(lexer).line_start_spec() as int,
                old(lexer).prev_type_spec(),
                old(lexer).indent_level_spec() as int,
                old(lexer).is_initial_spec(),
            );
            match s {
                Ok(k) => (r is Ok <==> k == token_type) && (r is Err ==> r->Err_0.kind
                    == ErrorKind::UnexpectedToken),
                Err((k, p)) => r is Err && r->Err_0.kind == k && r->Err_0.byte_offset as int
                    == p,
            }
        }),
{
    if lexer.peek_type() == token_type {
        return lexer.advance();
    }
    Err(unexpected_token(lexer, &[token_type]))
}

/// Consumes the offending token and renders an unexpected-token
/// diagnostic naming the expected kinds; if lexing it already failed, that
/// diagnostic is returned instead.
fn unexpected_token(lexer: &mut Lexer, expected_types: &[TokenType]) -> (r: ParsingError)
    requires
        old(lexer).lexer_ok(),
        old(lexer).live(),
    ensures
        final(lexer).text_of() == old(lexer).text_of(),
        final(lexer).content_spec().filename_seq() == old(lexer).content_spec().filename_seq(),
        final(lexer).measure() <= old(lexer).measure(),
        old(lexer).peeked_token() is Some ==> r.kind == ErrorKind::UnexpectedToken
            && r.byte_offset == old(lexer).peeked_token()->0.text_start,
        old(lexer).peeked_err() is Some ==> r == old(lexer).peeked_err()->0,
        old(lexer).peeked() is None ==> ({
            let s = lex_spec(
                old(lexer).text_of(),
                old(lexer).pos_spec() as int,
                old(lexer).line_start_spec() as int,
                old(lexer).prev_type_spec(),
                old(lexer).indent_level_spec() as int,
                old(lexer).is_initial_spec(),
            );
            match s {
                Ok(_) => r.kind == ErrorKind::UnexpectedToken,
                Err((k, p)) => r.kind == k && r.byte_offset as int == p,
            }
        }),
{
    let token = match lexer.advance() {
        Ok(token) => token,
        Err(err) => {
            return err;
        },
    };
    let mut message = "Unexpected Token `".to_owned();
    message.append(token_type_name(token.token_type));
    message.append("`\n    Expected: ");
    let mut i: usize = 0;
    while i < expected_types.len()
        invariant
            i <= expected_types@.len(),
        decreases expected_types@.len() - i,
    {
        if i > 0 {
            message.append(", ");
        }
        message.append(token_type_name(expected_types[i]));
        i = i + 1;
    }
    let content = lexer.content();
    proof {
        content.lemma_wf();
    }
    ParsingError::new(content, token.text_start, ErrorKind::UnexpectedToken, message)
}

} // verus!
