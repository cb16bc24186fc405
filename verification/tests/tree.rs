//! The shape of the concrete syntax tree the parser builds.

use mot::content::FileContent;
use mot::nodes::{Node, NodeType};
use mot::parser::parse_configuration_file;

fn parse(text: &str) -> (mot::nodes::File, FileContent) {
    let content = FileContent::new("test.mot".to_string(), text);
    parse_configuration_file(content).unwrap()
}

#[test]
fn properties_carry_declarations_values_and_blocks() {
    let (file, _content) = parse(
        "profile\nprefix build\n    env dev: /x\nalias a: b\n",
    );
    let props = file.property_list().properties();
    assert_eq!(props.len(), 3);
    assert_eq!(props[0].property_type(), "profile");
    assert!(!props[0].declaration().has_name());
    assert!(!props[0].has_value());
    assert!(!props[0].has_block());
    assert_eq!(props[1].property_type(), "prefix");
    assert_eq!(props[1].property_name().unwrap(), "build");
    assert!(props[1].has_block());
    let children = props[1].block().unwrap().property_list().properties();
    assert_eq!(children.len(), 1);
    assert_eq!(children[0].property_type(), "env");
    assert_eq!(children[0].value_str().unwrap(), "/x");
    assert_eq!(props[2].property_type(), "alias");
    assert!(props[2].has_value());
    assert_eq!(props[2].value().unwrap().value(), "b");
}

#[test]
fn block_text_value_reaches_the_tree() {
    let (file, _content) = parse("block b>\n    hello\n     world\n");
    let props = file.property_list().properties();
    assert_eq!(props.len(), 1);
    assert_eq!(props[0].value_str().unwrap(), "\nhello\n world");
}

#[test]
fn node_types_and_positions() {
    let (file, _content) = parse("profile\nprefix p: /a\n");
    assert_eq!(file.node_type(), NodeType::File);
    assert_eq!(file.content_position(), 0);
    let props = file.property_list().properties();
    assert_eq!(props[1].node_type(), NodeType::Property);
    // The second property begins right after "profile\n".
    assert_eq!(props[1].content_position(), 8);
    assert_eq!(props[1].declaration().node_type(), NodeType::PropertyDeclaration);
    assert_eq!(
        props[1].value().unwrap().node_type(),
        NodeType::PropertyValue
    );
}
