//! Token-stream behavior: indentation tracking, tab rejection, escape
//! decoding and block-text dedenting.

use mot::content::FileContent;
use mot::error::ErrorKind;
use mot::lexer::Lexer;
use mot::tokens::{Token, TokenType};

fn content_of(text: &str) -> FileContent {
    FileContent::new("test.mot".to_string(), text)
}

fn lex_all(text: &str) -> Result<Vec<Token>, mot::error::ParsingError> {
    let mut lexer = Lexer::new(content_of(text));
    let mut tokens = Vec::new();
    loop {
        let t = lexer.advance()?;
        let kind = t.token_type;
        tokens.push(t);
        if kind == TokenType::EndOfInput {
            return Ok(tokens);
        }
    }
}

fn kinds(tokens: &[Token]) -> Vec<TokenType> {
    tokens.iter().map(|t| t.token_type).collect()
}

#[test]
fn indent_outdent_mirror_nesting_and_return_to_zero() {
    let tokens = lex_all(
        "profile\nprefix a\n    env dev: /x\nprefix b: /y\n",
    )
    .unwrap();
    let ks = kinds(&tokens);
    assert_eq!(
        ks,
        vec![
            TokenType::StartOfInput,
            TokenType::Word,
            TokenType::EndOfLine,
            TokenType::Word,
            TokenType::Word,
            TokenType::EndOfLine,
            TokenType::Indent,
            TokenType::Word,
            TokenType::Word,
            TokenType::Colon,
            TokenType::LineText,
            TokenType::EndOfLine,
            TokenType::Outdent,
            TokenType::Word,
            TokenType::Word,
            TokenType::Colon,
            TokenType::LineText,
            TokenType::EndOfLine,
            TokenType::EndOfInput,
        ]
    );
    // Depth changes by one per indent/outdent and is zero at end of input.
    let mut depth: i64 = 0;
    for k in &ks {
        match k {
            TokenType::Indent => depth += 1,
            TokenType::Outdent => depth -= 1,
            _ => {},
        }
        assert!(depth >= 0);
    }
    assert_eq!(depth, 0);
}

#[test]
fn multi_level_outdent_one_token_per_call() {
    let tokens = lex_all(
        "profile\nrepo r\n    path: /x\n    remote: u\nprefix b: /y\n",
    )
    .unwrap();
    let ks = kinds(&tokens);
    let outdents = ks.iter().filter(|k| **k == TokenType::Outdent).count();
    let indents = ks.iter().filter(|k| **k == TokenType::Indent).count();
    assert_eq!(indents, 1);
    assert_eq!(outdents, 1);
}

#[test]
fn tab_in_leading_whitespace_fails() {
    let err = lex_all("profile\n\tprefix a: /x\n").unwrap_err();
    assert_eq!(err.kind, ErrorKind::TabIndentation);
    // The error points at the tab itself.
    assert_eq!(err.byte_offset, 8);
}

#[test]
fn tab_after_spaces_in_leading_whitespace_fails() {
    let err = lex_all("profile\n  \tprefix a: /x\n").unwrap_err();
    assert_eq!(err.kind, ErrorKind::TabIndentation);
}

#[test]
fn misaligned_indentation_fails() {
    let err = lex_all("profile\n  prefix a: /x\n").unwrap_err();
    assert_eq!(err.kind, ErrorKind::MisalignedIndentation);
    // The error points at the line's first significant character.
    assert_eq!(err.byte_offset, 10);
}

#[test]
fn quoted_text_decodes_backslash_quote() {
    let tokens = lex_all("\"a\\\"b\"\n").unwrap();
    assert_eq!(tokens[1].token_type, TokenType::QuotedText);
    assert_eq!(tokens[1].value.as_ref().unwrap(), "a\"b");
}

#[test]
fn quoted_text_decodes_hex_escape() {
    let tokens = lex_all("\"\\u0041\"\n").unwrap();
    assert_eq!(tokens[1].token_type, TokenType::QuotedText);
    assert_eq!(tokens[1].value.as_ref().unwrap(), "A");
}

#[test]
fn quoted_text_decodes_simple_escapes() {
    let tokens = lex_all("\"x\\n\\t\\\\y\"\n").unwrap();
    assert_eq!(tokens[1].value.as_ref().unwrap(), "x\n\t\\y");
}

#[test]
fn unterminated_quoted_text_fails() {
    let err = lex_all("\"abc\n").unwrap_err();
    assert_eq!(err.kind, ErrorKind::UnterminatedQuotedString);
    // The error points at the opening quote.
    assert_eq!(err.byte_offset, 0);
}

#[test]
fn invalid_escape_fails() {
    let err = lex_all("\"a\\qb\"\n").unwrap_err();
    assert_eq!(err.kind, ErrorKind::InvalidEscapeSequence);
    // The error points at the backslash.
    assert_eq!(err.byte_offset, 2);
}

#[test]
fn hex_escape_with_no_digits_fails() {
    let err = lex_all("\"a\\uzz\"\n").unwrap_err();
    assert_eq!(err.kind, ErrorKind::InvalidEscapeSequence);
}

#[test]
fn hex_escape_out_of_range_fails() {
    let err = lex_all("\"a\\u110000\"\n").unwrap_err();
    assert_eq!(err.kind, ErrorKind::InvalidEscapeSequence);
}

#[test]
fn carriage_return_without_line_feed_fails() {
    let err = lex_all("profile\rx\n").unwrap_err();
    assert_eq!(err.kind, ErrorKind::InvalidCarriageReturn);
    assert_eq!(err.byte_offset, 7);
}

#[test]
fn unexpected_character_fails() {
    let err = lex_all("!\n").unwrap_err();
    assert_eq!(err.kind, ErrorKind::UnexpectedCharacter);
}

#[test]
fn line_text_trims_trailing_blanks_and_comment() {
    let tokens = lex_all("env dev: /home/x   # note\n").unwrap();
    let line_text = tokens
        .iter()
        .find(|t| t.token_type == TokenType::LineText)
        .unwrap();
    assert_eq!(line_text.value.as_ref().unwrap(), "/home/x");
}

#[test]
fn block_text_dedents_by_one_unit_and_keeps_extra_spaces() {
    let tokens = lex_all("block b>\n    hello\n     world\n").unwrap();
    let block = tokens
        .iter()
        .find(|t| t.token_type == TokenType::BlockText)
        .unwrap();
    assert_eq!(block.value.as_ref().unwrap(), "\nhello\n world");
}

#[test]
fn block_text_keeps_newline_sequences_verbatim() {
    let tokens = lex_all("block b>\r\n    a\r\n    b\r\n").unwrap();
    let block = tokens
        .iter()
        .find(|t| t.token_type == TokenType::BlockText)
        .unwrap();
    assert_eq!(block.value.as_ref().unwrap(), "\r\na\r\nb");
}

#[test]
fn block_text_ends_at_lesser_indented_line() {
    let tokens = lex_all("block b>\n    in\nword w: v\n").unwrap();
    let block = tokens
        .iter()
        .find(|t| t.token_type == TokenType::BlockText)
        .unwrap();
    assert_eq!(block.value.as_ref().unwrap(), "\nin");
    let words: Vec<_> = tokens
        .iter()
        .filter(|t| t.token_type == TokenType::Word)
        .collect();
    assert_eq!(words.len(), 4);
}

#[test]
fn blank_lines_and_comment_lines_collapse() {
    let tokens = lex_all("profile\n\n# note\n\nprefix a: /x\n").unwrap();
    let ks = kinds(&tokens);
    assert_eq!(
        ks,
        vec![
            TokenType::StartOfInput,
            TokenType::Word,
            TokenType::EndOfLine,
            TokenType::Word,
            TokenType::Word,
            TokenType::Colon,
            TokenType::LineText,
            TokenType::EndOfLine,
            TokenType::EndOfInput,
        ]
    );
}

#[test]
fn word_token_spans_and_trivia() {
    let mut lexer = Lexer::new(content_of("profile # hi\n"));
    let _start = lexer.advance().unwrap();
    let word = lexer.advance().unwrap();
    assert_eq!(word.token_type, TokenType::Word);
    let mut rest = Vec::new();
    loop {
        let t = lexer.advance().unwrap();
        let k = t.token_type;
        rest.push(t);
        if k == TokenType::EndOfInput {
            break;
        }
    }
    let content = lexer.into_content();
    assert_eq!(word.text(&content), "profile");
    assert_eq!(word.trailing_trivia(&content), " # hi");
    assert_eq!(word.value_or_text(&content), "profile");
}

#[test]
fn peek_type_matches_advance() {
    let mut lexer = Lexer::new(content_of("profile\n"));
    assert_eq!(lexer.peek_type(), TokenType::StartOfInput);
    assert_eq!(lexer.advance().unwrap().token_type, TokenType::StartOfInput);
    assert_eq!(lexer.peek_type(), TokenType::Word);
    let word = lexer.advance().unwrap();
    assert_eq!(word.value.as_ref().unwrap(), "profile");
}

#[test]
fn peek_reports_error_kind_for_bad_input() {
    let mut lexer = Lexer::new(content_of("!\n"));
    let _ = lexer.advance().unwrap();
    assert_eq!(lexer.peek_type(), TokenType::Error);
    assert!(lexer.advance().is_err());
}

#[test]
fn columns_count_characters_not_bytes() {
    // The character before the bad one takes two bytes in UTF-8; the
    // reported column must still count characters.
    let err = lex_all("\u{00dc}x !\n").unwrap_err();
    assert_eq!(err.kind, ErrorKind::UnexpectedCharacter);
    assert_eq!(err.line_number, 0);
    assert_eq!(err.column, 3);
    assert!(err.display_text.contains("1:4"));
}

#[test]
fn word_accepts_letters_beyond_ascii() {
    let tokens = lex_all("pr\u{00e9}fix\n").unwrap();
    assert_eq!(tokens[1].token_type, TokenType::Word);
    assert_eq!(tokens[1].value.as_ref().unwrap(), "pr\u{00e9}fix");
}
