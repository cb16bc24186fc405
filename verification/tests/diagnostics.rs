//! Positions, rendering and the small text utilities the diagnostics rest
//! on.

use mot::configuration::MotConfig;
use mot::content::{FileContent, PositionDetails};
use mot::error::{usize_to_string, ParsingError};
use mot::keywords::{keyword_of, Keyword};
use mot::text::{str_is_whitespace, str_normalize};

#[test]
fn normalization_trims_and_lower_cases() {
    assert_eq!(str_normalize(" Foo "), "foo");
    assert_eq!(str_normalize("foo"), "foo");
    assert_eq!(str_normalize("FOO"), "foo");
}

#[test]
fn normalization_lower_cases_beyond_ascii() {
    assert_eq!(str_normalize("\u{00c4}"), "\u{00e4}");
    assert_eq!(str_normalize("\u{00c4}"), str_normalize("\u{00e4}"));
    // Trimming removes Unicode whitespace such as the no-break space.
    assert_eq!(str_normalize("\u{a0}Foo\u{a0}"), "foo");
}

#[test]
fn normalization_is_idempotent_on_samples() {
    for s in [" MiXeD  CaSe ", "", "  ", "a", " \u{00dc}ber X "] {
        let once = str_normalize(s);
        let twice = str_normalize(&once);
        assert_eq!(once, twice);
    }
}

#[test]
fn whitespace_test_accepts_empty_and_blank() {
    assert!(str_is_whitespace(""));
    assert!(str_is_whitespace(" \t "));
    assert!(!str_is_whitespace(" a "));
}

#[test]
fn whitespace_test_covers_unicode_whitespace() {
    assert!(str_is_whitespace("\u{a0}"));
    assert!(str_is_whitespace(" \u{2028}\u{85}"));
    assert!(!str_is_whitespace("\u{a0}x"));
}

#[test]
fn decimal_rendering_is_exact() {
    assert_eq!(usize_to_string(0), "0");
    assert_eq!(usize_to_string(7), "7");
    assert_eq!(usize_to_string(90126), "90126");
}

#[test]
fn position_line_renders_one_based() {
    let details = PositionDetails { line_number: 2, line_start: 10, column: 4 };
    let line = ParsingError::fmt_position_line("f.mot", &details);
    assert_eq!(line, "    at \"f.mot\" 3:5");
}

#[test]
fn position_details_finds_line_by_binary_search() {
    let mut content = FileContent::new("f.mot".to_string(), "ab\ncd\nef\n");
    content.reset_line_markers();
    content.mark_line(0);
    content.mark_line(3);
    content.mark_line(6);
    let d = content.position_details(4);
    assert_eq!(d.line_number, 1);
    assert_eq!(d.line_start, 3);
    assert_eq!(d.column, 1);
    let d0 = content.position_details(0);
    assert_eq!(d0.line_number, 0);
    assert_eq!(d0.column, 0);
    let dl = content.position_details(8);
    assert_eq!(dl.line_number, 2);
    assert_eq!(dl.column, 2);
}

#[test]
fn position_details_without_lines_reports_zero() {
    let content = FileContent::new("f.mot".to_string(), "abc");
    let d = content.position_details(2);
    assert_eq!((d.line_number, d.line_start, d.column), (0, 0, 0));
}

#[test]
fn error_rendering_includes_message_and_position() {
    let mut content = FileContent::new("f.mot".to_string(), "ab\ncd\n");
    content.reset_line_markers();
    content.mark_line(0);
    content.mark_line(3);
    let err = ParsingError::new(
        &content,
        4,
        mot::error::ErrorKind::UnexpectedCharacter,
        "Unexpected character: d".to_string(),
    );
    assert_eq!(
        err.display_string(),
        "Error: Unexpected character: d\n    at \"f.mot\" 2:2\n"
    );
    assert_eq!(err.byte_offset, 4);
    assert_eq!(err.line_number, 1);
    assert_eq!(err.column, 1);
}

#[test]
fn content_iterator_walks_characters() {
    let content = FileContent::new("f.mot".to_string(), "hi");
    let mut it = content.iter(0);
    assert!(!it.is_end_of_input());
    assert_eq!(it.next(), Some('h'));
    assert_eq!(it.position(), 0);
    assert_eq!(it.current_char(), 'h');
    assert_eq!(it.next(), Some('i'));
    assert_eq!(it.position(), 1);
    assert_eq!(it.next(), None);
    assert!(it.is_end_of_input());
    assert_eq!(it.current_char(), '\u{0}');
    assert_eq!(it.position(), 2);
}

#[test]
fn keyword_lookup_is_exact_and_case_sensitive() {
    assert_eq!(keyword_of(&"prefix".to_string()), Some(Keyword::Prefix));
    assert_eq!(keyword_of(&"repo".to_string()), Some(Keyword::Repo));
    assert_eq!(keyword_of(&"path".to_string()), Some(Keyword::RepoPath));
    assert_eq!(keyword_of(&"Prefix".to_string()), None);
    assert_eq!(keyword_of(&"prefixes".to_string()), None);
}

#[test]
fn configuration_lookup_finds_first_match() {
    let config = MotConfig::from_pairs(vec![
        ("work".to_string(), "/w".to_string()),
        ("home".to_string(), "/h".to_string()),
    ]);
    let dir = config.find_directory(&"home".to_string()).unwrap();
    assert_eq!(dir.path(), "/h");
    assert!(config.find_directory(&"missing".to_string()).is_none());
}
