//! End-to-end behavior of the parser and the semantic builder: the model
//! built from well-formed files, and the exact diagnostic for each way a
//! file can be wrong.

use mot::content::FileContent;
use mot::error::{ErrorKind, ParsingError};
use mot::ir::{File, FileType, OverrideMode};
use mot::keywords::Keyword;
use mot::parser::parse_configuration_file;

fn build(text: &str, file_type: FileType) -> Result<File, ParsingError> {
    let content = FileContent::new("test.mot".to_string(), text);
    let (cst, content) = parse_configuration_file(content)?;
    File::build(&cst, file_type, &content)
}

#[test]
fn end_to_end_prefix_with_environments_and_override() {
    let file = build(
        "profile\nprefix build\n    env dev: /home/dev/build\n    env prod: /srv/build\n    override: merge\n",
        FileType::Profile,
    )
    .unwrap();
    assert_eq!(file.prefixes().len(), 1);
    let prefix = &file.prefixes()[0];
    assert_eq!(prefix.name(), "build");
    assert_eq!(prefix.name_normalized(), "build");
    assert_eq!(prefix.override_mode(), OverrideMode::Merge);
    let paths = prefix.paths();
    assert_eq!(paths.len(), 2);
    assert_eq!(paths[0].name_normalized(), "dev");
    assert_eq!(paths[0].raw_value(), "/home/dev/build");
    assert_eq!(paths[1].name_normalized(), "prod");
    assert_eq!(paths[1].raw_value(), "/srv/build");
    assert_eq!(file.aliases().len(), 0);
    assert_eq!(file.repos().len(), 0);
    assert_eq!(file.includes().len(), 0);
    assert_eq!(file.file_type(), FileType::Profile);
}

#[test]
fn end_to_end_header_mismatch_fails() {
    let err = build("prefix x: /a\n", FileType::Profile).unwrap_err();
    assert_eq!(err.kind, ErrorKind::InvalidHeader);
    assert_eq!(err.byte_offset, 0);
    assert_eq!(err.line_number, 0);
    assert_eq!(err.column, 0);
    assert!(err.display_text.contains("1:1"));
    assert!(err.message.contains("profile"));
}

#[test]
fn resource_header_is_required_for_resources() {
    let err = build("profile\n", FileType::Resource).unwrap_err();
    assert_eq!(err.kind, ErrorKind::InvalidHeader);
    assert!(build("resource\n", FileType::Resource).is_ok());
}

#[test]
fn header_with_value_fails() {
    let err = build("profile: x\n", FileType::Profile).unwrap_err();
    assert_eq!(err.kind, ErrorKind::UnexpectedValue);
}

#[test]
fn header_with_block_fails() {
    let err = build("profile\n    env a: /x\n", FileType::Profile).unwrap_err();
    assert_eq!(err.kind, ErrorKind::UnexpectedBlock);
}

#[test]
fn duplicate_prefixes_differing_in_case_fail() {
    let err = build(
        "profile\nprefix Build: /a\nprefix build: /b\n",
        FileType::Profile,
    )
    .unwrap_err();
    assert_eq!(err.kind, ErrorKind::DuplicatePropertyName);
    // The duplicate is reported at the second declaration.
    assert_eq!(err.byte_offset, 25);
    assert!(err.message.contains("build"));
}

#[test]
fn duplicate_aliases_fail() {
    let err = build(
        "profile\nalias a: x\nalias A: y\n",
        FileType::Profile,
    )
    .unwrap_err();
    assert_eq!(err.kind, ErrorKind::DuplicatePropertyName);
}

#[test]
fn repo_missing_path_child_fails_naming_path() {
    let err = build(
        "profile\nrepo r\n    remote: http://x\n",
        FileType::Profile,
    )
    .unwrap_err();
    assert_eq!(err.kind, ErrorKind::MissingChildProperty(Keyword::RepoPath));
    assert!(err.message.contains("path"));
}

#[test]
fn repo_without_remotes_fails_naming_remote() {
    let err = build("profile\nrepo r\n    path: /x\n", FileType::Profile).unwrap_err();
    assert_eq!(err.kind, ErrorKind::MissingChildProperty(Keyword::Remote));
    assert!(err.message.contains("remote"));
}

#[test]
fn repo_builds_with_defaulted_remote_name() {
    let file = build(
        "profile\nrepo r\n    path: /x\n    remote: http://x\n    config: c1\n    override: none\n",
        FileType::Profile,
    )
    .unwrap();
    assert_eq!(file.repos().len(), 1);
    let repo = &file.repos()[0];
    assert_eq!(repo.name().as_ref().unwrap(), "r");
    assert_eq!(repo.path().raw_value(), "/x");
    assert_eq!(repo.remotes().len(), 1);
    assert_eq!(repo.remotes()[0].name, "origin");
    assert_eq!(repo.remotes()[0].url, "http://x");
    assert_eq!(repo.config().as_ref().unwrap(), "c1");
    assert_eq!(repo.override_mode(), OverrideMode::NoOverride);
}

#[test]
fn repo_duplicate_remote_names_fail() {
    let err = build(
        "profile\nrepo r\n    path: /x\n    remote up: a\n    remote UP: b\n",
        FileType::Profile,
    )
    .unwrap_err();
    assert_eq!(err.kind, ErrorKind::DuplicatePropertyName);
}

#[test]
fn repo_with_inline_value_fails() {
    let err = build("profile\nrepo r: /x\n", FileType::Profile).unwrap_err();
    assert_eq!(err.kind, ErrorKind::UnexpectedValue);
}

#[test]
fn repo_duplicate_path_children_fail() {
    let err = build(
        "profile\nrepo r\n    path: /x\n    path: /y\n    remote: u\n",
        FileType::Profile,
    )
    .unwrap_err();
    assert_eq!(err.kind, ErrorKind::DuplicatePropertyType);
}

#[test]
fn prefix_without_name_fails() {
    let err = build("profile\nprefix: /a\n", FileType::Profile).unwrap_err();
    assert_eq!(err.kind, ErrorKind::MissingName);
}

#[test]
fn prefix_with_whitespace_only_name_fails() {
    let err = build("profile\nprefix \"  \": /a\n", FileType::Profile).unwrap_err();
    assert_eq!(err.kind, ErrorKind::MissingName);
}

#[test]
fn prefix_without_paths_fails_naming_env() {
    let err = build(
        "profile\nprefix p\n    override: merge\n",
        FileType::Profile,
    )
    .unwrap_err();
    assert_eq!(err.kind, ErrorKind::MissingChildProperty(Keyword::Env));
}

#[test]
fn prefix_duplicate_environments_fail() {
    let err = build(
        "profile\nprefix p\n    env dev: /a\n    env DEV: /b\n",
        FileType::Profile,
    )
    .unwrap_err();
    assert_eq!(err.kind, ErrorKind::DuplicatePropertyName);
}

#[test]
fn prefix_inline_value_becomes_default_path() {
    let file = build("profile\nprefix p: /a\n", FileType::Profile).unwrap();
    let paths = file.prefixes()[0].paths();
    assert_eq!(paths.len(), 1);
    assert_eq!(paths[0].name(), "default");
    assert_eq!(paths[0].name_normalized(), "default");
    assert_eq!(paths[0].raw_value(), "/a");
}

#[test]
fn prefix_unknown_child_keyword_fails() {
    let err = build(
        "profile\nprefix p\n    radius x: /a\n",
        FileType::Profile,
    )
    .unwrap_err();
    assert_eq!(err.kind, ErrorKind::UnexpectedProperty);
}

#[test]
fn multiple_override_children_fail() {
    let err = build(
        "profile\nprefix p\n    env a: /x\n    override: merge\n    override: none\n",
        FileType::Profile,
    )
    .unwrap_err();
    assert_eq!(err.kind, ErrorKind::DuplicatePropertyType);
}

#[test]
fn named_override_fails() {
    let err = build(
        "profile\nprefix p\n    env a: /x\n    override now: merge\n",
        FileType::Profile,
    )
    .unwrap_err();
    assert_eq!(err.kind, ErrorKind::UnexpectedName);
}

#[test]
fn override_value_is_case_insensitive() {
    let file = build(
        "profile\nprefix p\n    env a: /x\n    override: RePlAcE\n",
        FileType::Profile,
    )
    .unwrap();
    assert_eq!(file.prefixes()[0].override_mode(), OverrideMode::Replace);
}

#[test]
fn bad_override_value_fails() {
    let err = build(
        "profile\nprefix p\n    env a: /x\n    override: sometimes\n",
        FileType::Profile,
    )
    .unwrap_err();
    assert_eq!(err.kind, ErrorKind::InvalidOverrideValue);
}

#[test]
fn alias_builds_with_quoted_name() {
    let file = build("profile\nalias \"My Box\": /b\n", FileType::Profile).unwrap();
    assert_eq!(file.aliases().len(), 1);
    assert_eq!(file.aliases()[0].name(), "My Box");
    assert_eq!(file.aliases()[0].name_normalized(), "my box");
    assert_eq!(file.aliases()[0].value(), "/b");
}

#[test]
fn alias_without_value_fails() {
    let err = build("profile\nalias a\n", FileType::Profile).unwrap_err();
    assert_eq!(err.kind, ErrorKind::MissingValue);
}

#[test]
fn alias_with_block_fails() {
    let err = build(
        "profile\nalias a\n    env x: /y\n",
        FileType::Profile,
    )
    .unwrap_err();
    assert_eq!(err.kind, ErrorKind::UnexpectedBlock);
}

#[test]
fn unknown_top_level_property_fails() {
    let err = build("profile\nshortcut s: /x\n", FileType::Profile).unwrap_err();
    assert_eq!(err.kind, ErrorKind::UnexpectedProperty, "got: {}", err.display_text);
}

#[test]
fn unexpected_token_fails_parsing() {
    let content = FileContent::new("test.mot".to_string(), "profile\n: x\n");
    let err = parse_configuration_file(content).unwrap_err();
    assert_eq!(err.kind, ErrorKind::UnexpectedToken);
    assert!(err.message.contains("Expected"));
}

#[test]
fn property_names_may_be_quoted_with_escapes() {
    let file = build(
        "profile\nprefix \"\\u0042ox\": /b\n",
        FileType::Profile,
    )
    .unwrap();
    assert_eq!(file.prefixes()[0].name(), "Box");
    assert_eq!(file.prefixes()[0].name_normalized(), "box");
}

#[test]
fn names_beyond_ascii_are_kept_and_lower_cased() {
    let file = build("profile\nprefix \u{00dc}ber: /u\n", FileType::Profile).unwrap();
    assert_eq!(file.prefixes()[0].name(), "\u{00dc}ber");
    // Normalization lower-cases per Unicode.
    assert_eq!(file.prefixes()[0].name_normalized(), "\u{00fc}ber");
}

#[test]
fn duplicate_prefixes_differing_in_case_beyond_ascii_fail() {
    let err = build(
        "profile\nprefix \u{00c4}x: /a\nprefix \u{00e4}x: /b\n",
        FileType::Profile,
    )
    .unwrap_err();
    assert_eq!(err.kind, ErrorKind::DuplicatePropertyName);
}
