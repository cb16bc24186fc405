//! The concrete syntax tree the parser builds: a structural parse retaining
//! all grammar nodes, with no semantic interpretation attached.

use vstd::prelude::*;

use crate::tokens::{Token, TokenType};

verus! {

/// The closed set of node variants.
#[derive(Copy, Clone, PartialEq, Eq, Structural, Debug)]
pub enum NodeType {
    File,
    PropertyList,
    Property,
    PropertyDeclaration,
    PropertyValue,
    PropertyBlock,
}

/// The common interface of all tree nodes.
pub trait Node {
    /// Which variant this node is.
    fn node_type(&self) -> NodeType;

    /// The buffer offset of the node's first token: where diagnostics about
    /// the node point.
    fn content_position(&self) -> usize;
}

/// The whole file: a property list followed by end of input.
#[derive(Debug)]
pub struct File {
    pub property_list: PropertyList,
    pub end_of_input: Token,
}

/// One or more properties, in source order. Order is semantically
/// significant: later duplicates are errors, not overrides.
#[derive(Debug)]
pub struct PropertyList {
    pub properties: Vec<Property>,
}

/// One property: a declaration, then either an inline value or an optional
/// indented block of child properties.
#[derive(Debug)]
pub struct Property {
    pub declaration: PropertyDeclaration,
    pub value: Option<PropertyValue>,
    pub end_of_line: Token,
    pub block: Option<PropertyBlock>,
}

/// A property's type keyword and optional name.
#[derive(Debug)]
pub struct PropertyDeclaration {
    pub type_token: Token,
    pub name_token: Option<Token>,
}

/// An inline value: a specifier (`:` or `>`) and the text it introduces.
#[derive(Debug)]
pub struct PropertyValue {
    pub specifier_token: Token,
    pub text_token: Token,
}

/// An indented block of child properties.
#[derive(Debug)]
pub struct PropertyBlock {
    pub indent_token: Token,
    pub property_list: PropertyList,
    pub outdent_token: Token,
}

/// Whether every token span of a node fits a buffer of `len` characters is
/// tracked separately from structural well-formedness, so value getters need
/// no buffer at hand.

impl PropertyDeclaration {
    /// Well-formedness: the type is a word token, the optional name a word
    /// or quoted-text token; both carry decoded values.
    pub open spec fn wf(&self) -> bool {
        &&& self.type_token.wf()
        &&& self.type_token.token_type is Word
        &&& match self.name_token {
            Some(t) => t.wf() && (t.token_type is Word || t.token_type is QuotedText),
            None => true,
        }
    }

    /// Whether every token span fits a buffer of `len` characters.
    pub open spec fn in_bounds(&self, len: int) -> bool {
        &&& self.type_token.in_bounds(len)
        &&& match self.name_token {
            Some(t) => t.in_bounds(len),
            None => true,
        }
    }

    /// The declared type keyword text.
    pub open spec fn type_seq(&self) -> Seq<char> {
        self.type_token.value_seq()
    }

    /// The declared name text, if a name is present.
    pub open spec fn name_seq(&self) -> Option<Seq<char>> {
        match self.name_token {
            Some(t) => Some(t.value_seq()),
            None => None,
        }
    }

    /// The declared property type.
    pub fn property_type(&self) -> (r: &String)
        requires
            self.wf(),
        ensures
            r@ == self.type_seq(),
    {
        self.type_token.value.as_ref().unwrap()
    }

    /// The declared property name, if any.
    pub fn property_name(&self) -> (r: Option<&String>)
        requires
            self.wf(),
        ensures
            r is Some <==> self.name_seq() is Some,
            r is Some ==> r->0@ == self.name_seq()->0,
    {
        match &self.name_token {
            Some(t) => Some(t.value.as_ref().unwrap()),
            None => None,
        }
    }

    /// Whether the declaration carries a name.
    pub fn has_name(&self) -> (r: bool)
        ensures
            r == (self.name_token is Some),
    {
        match &self.name_token {
            Some(_) => true,
            None => false,
        }
    }
}

impl PropertyValue {
    /// Well-formedness: a colon introduces line or quoted text, a
    /// greater-than sign introduces block text; the text carries a value.
    pub open spec fn wf(&self) -> bool {
        &&& self.specifier_token.wf()
        &&& self.text_token.wf()
        &&& self.specifier_token.token_type is Colon ==> (self.text_token.token_type is LineText
            || self.text_token.token_type is QuotedText)
        &&& self.specifier_token.token_type is GreaterThan ==> self.text_token.token_type
            is BlockText
        &&& (self.specifier_token.token_type is Colon || self.specifier_token.token_type
            is GreaterThan)
    }

    /// Whether every token span fits a buffer of `len` characters.
    pub open spec fn in_bounds(&self, len: int) -> bool {
        self.specifier_token.in_bounds(len) && self.text_token.in_bounds(len)
    }

    /// The decoded value text.
    pub open spec fn value_seq(&self) -> Seq<char> {
        self.text_token.value_seq()
    }

    /// The decoded value text.
    pub fn value(&self) -> (r: &String)
        requires
            self.wf(),
        ensures
            r@ == self.value_seq(),
    {
        self.text_token.value.as_ref().unwrap()
    }
}

impl Property {
    /// Well-formedness of the property and everything beneath it.
    pub open spec fn wf(&self) -> bool
        decreases self,
    {
        &&& self.declaration.wf()
        &&& match self.value {
            Some(v) => v.wf(),
            None => true,
        }
        &&& self.end_of_line.wf()
        &&& self.end_of_line.token_type is EndOfLine
        &&& match self.block {
            Some(b) => b.wf(),
            None => true,
        }
        &&& !(self.value is Some && self.block is Some)
    }

    /// Whether every token span beneath the property fits a buffer of `len`
    /// characters.
    pub open spec fn in_bounds(&self, len: int) -> bool
        decreases self,
    {
        &&& self.declaration.in_bounds(len)
        &&& match self.value {
            Some(v) => v.in_bounds(len),
            None => true,
        }
        &&& self.end_of_line.in_bounds(len)
        &&& match self.block {
            Some(b) => b.in_bounds(len),
            None => true,
        }
    }

    /// The declared type keyword text.
    pub open spec fn type_seq(&self) -> Seq<char> {
        self.declaration.type_seq()
    }

    /// The declared name text, if any.
    pub open spec fn name_seq(&self) -> Option<Seq<char>> {
        self.declaration.name_seq()
    }

    /// The inline value text, if the property has an inline value.
    pub open spec fn value_seq(&self) -> Option<Seq<char>> {
        match self.value {
            Some(v) => Some(v.value_seq()),
            None => None,
        }
    }

    /// The child properties, if the property has a block.
    pub open spec fn children_seq(&self) -> Seq<Property> {
        match self.block {
            Some(b) => b.property_list.properties@,
            None => Seq::empty(),
        }
    }

    /// The buffer offset diagnostics about this property point at.
    pub open spec fn pos_spec(&self) -> int {
        self.declaration.type_token.text_start as int
    }

    /// The declaration node.
    pub fn declaration(&self) -> (r: &PropertyDeclaration)
        ensures
            r == self.declaration,
    {
        &self.declaration
    }

    /// The declared property type.
    pub fn property_type(&self) -> (r: &String)
        requires
            self.wf(),
        ensures
            r@ == self.type_seq(),
    {
        self.declaration.property_type()
    }

    /// The declared property name, if any.
    pub fn property_name(&self) -> (r: Option<&String>)
        requires
            self.wf(),
        ensures
            r is Some <==> self.name_seq() is Some,
            r is Some ==> r->0@ == self.name_seq()->0,
    {
        self.declaration.property_name()
    }

    /// Whether the property carries an inline value.
    pub fn has_value(&self) -> (r: bool)
        ensures
            r == (self.value is Some),
    {
        match &self.value {
            Some(_) => true,
            None => false,
        }
    }

    /// The value node, if any.
    pub fn value(&self) -> (r: Option<&PropertyValue>)
        ensures
            match r {
                Some(v) => self.value == Some(*v),
                None => self.value is None,
            },
    {
        match &self.value {
            Some(v) => Some(v),
            None => None,
        }
    }

    /// The value text, if the property carries an inline value.
    pub fn value_str(&self) -> (r: Option<&String>)
        requires
            self.wf(),
        ensures
            r is Some <==> self.value_seq() is Some,
            r is Some ==> r->0@ == self.value_seq()->0,
    {
        match &self.value {
            Some(v) => Some(v.value()),
            None => None,
        }
    }

    /// Whether the property carries a block of child properties.
    pub fn has_block(&self) -> (r: bool)
        ensures
            r == (self.block is Some),
    {
        match &self.block {
            Some(_) => true,
            None => false,
        }
    }

    /// The block node, if any.
    pub fn block(&self) -> (r: Option<&PropertyBlock>)
        ensures
            match r {
                Some(b) => self.block == Some(*b),
                None => self.block is None,
            },
    {
        match &self.block {
            Some(b) => Some(b),
            None => None,
        }
    }
}

impl PropertyList {
    /// Well-formedness: at least one property, each well-formed.
    pub open spec fn wf(&self) -> bool
        decreases self,
    {
        &&& self.properties@.len() >= 1
        &&& forall|i: int|
            0 <= i < self.properties@.len() ==> (#[trigger] self.properties@[i]).wf()
    }

    /// Whether every token span beneath the list fits a buffer of `len`
    /// characters.
    pub open spec fn in_bounds(&self, len: int) -> bool
        decreases self,
    {
        forall|i: int|
            0 <= i < self.properties@.len() ==> (#[trigger] self.properties@[i]).in_bounds(len)
    }

    /// The properties, in source order.
    pub fn properties(&self) -> (r: &Vec<Property>)
        ensures
            r == self.properties,
    {
        &self.properties
    }
}

impl PropertyBlock {
    /// Well-formedness: an indent token, a well-formed list, an outdent
    /// token.
    pub open spec fn wf(&self) -> bool
        decreases self,
    {
        &&& self.indent_token.wf()
        &&& self.indent_token.token_type is Indent
        &&& self.property_list.wf()
        &&& self.outdent_token.wf()
        &&& self.outdent_token.token_type is Outdent
    }

    /// Whether every token span beneath the block fits a buffer of `len`
    /// characters.
    pub open spec fn in_bounds(&self, len: int) -> bool
        decreases self,
    {
        &&& self.indent_token.in_bounds(len)
        &&& self.property_list.in_bounds(len)
        &&& self.outdent_token.in_bounds(len)
    }

    /// The child property list.
    pub fn property_list(&self) -> (r: &PropertyList)
        ensures
            r == self.property_list,
    {
        &self.property_list
    }
}

impl File {
    /// Well-formedness of the whole tree.
    pub open spec fn wf(&self) -> bool {
        &&& self.property_list.wf()
        &&& self.end_of_input.wf()
        &&& self.end_of_input.token_type is EndOfInput
    }

    /// Whether every token span beneath the tree fits a buffer of `len`
    /// characters.
    pub open spec fn in_bounds(&self, len: int) -> bool {
        &&& self.property_list.in_bounds(len)
        &&& self.end_of_input.in_bounds(len)
    }

    /// The top-level property list.
    pub fn property_list(&self) -> (r: &PropertyList)
        ensures
            r == self.property_list,
    {
        &self.property_list
    }
}

impl Node for File {
    fn node_type(&self) -> NodeType {
        NodeType::File
    }

    fn content_position(&self) -> usize {
        if self.property_list.properties.len() > 0 {
            self.property_list.properties[0].declaration.type_token.text_start
        } else {
            self.end_of_input.text_start
        }
    }
}

impl Node for PropertyList {
    fn node_type(&self) -> NodeType {
        NodeType::PropertyList
    }

    fn content_position(&self) -> usize {
        if self.properties.len() > 0 {
            self.properties[0].declaration.type_token.text_start
        } else {
            0
        }
    }
}

impl Node for Property {
    fn node_type(&self) -> NodeType {
        NodeType::Property
    }

    fn content_position(&self) -> usize {
        self.declaration.type_token.text_start
    }
}

impl Node for PropertyDeclaration {
    fn node_type(&self) -> NodeType {
        NodeType::PropertyDeclaration
    }

    fn content_position(&self) -> usize {
        self.type_token.text_start
    }
}

impl Node for PropertyValue {
    fn node_type(&self) -> NodeType {
        NodeType::PropertyValue
    }

    fn content_position(&self) -> usize {
        self.specifier_token.text_start
    }
}

impl Node for PropertyBlock {
    fn node_type(&self) -> NodeType {
        NodeType::PropertyBlock
    }

    fn content_position(&self) -> usize {
        self.indent_token.text_start
    }
}

} // verus!
