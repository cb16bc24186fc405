//! Front end for `mot` profile files: an indentation-sensitive lexer, a
//! recursive-descent parser producing a concrete syntax tree, and a semantic
//! builder that interprets the tree into a validated model of directory
//! shortcuts, path prefixes and repository bindings.

pub mod configuration;
pub mod content;
pub mod error;
pub mod ir;
pub mod keywords;
pub mod lexer;
pub mod nodes;
pub mod parser;
pub mod text;
pub mod tokens;
