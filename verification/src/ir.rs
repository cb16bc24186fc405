//! The semantic builder: interprets the concrete syntax tree, keyed off the
//! keyword vocabulary, into a validated model, enforcing uniqueness,
//! cardinality and well-formedness rules. Every builder's contract states
//! exactly which value it produces and exactly which diagnostic it raises
//! on which input, via the specification functions in this module.

mod alias;
pub use self::alias::{build_alias_spec, Alias, AliasV};
mod file;
pub use self::file::{alias_keys, alias_views, build_file_spec, file_body_spec, find_earlier,
    first_dup, header_spec, keys_view, prefix_keys, prefix_views, repo_keys, repo_views,
    validate_header, validate_ids_spec, File, FileV};
mod inclusion;
pub use self::inclusion::{Include, Rename};
mod path;
pub use self::path::{build_path_spec, Path, PathV};
mod prefix;
pub use self::prefix::{build_prefix_spec, paths_check, paths_seq, prefix_block_spec,
    valid_paths_spec, Prefix, PrefixV};
mod repo;
pub use self::repo::{build_config_spec, build_remote_spec, build_repo_path_spec,
    build_repo_spec, remote_name_taken, remotes_seq, repo_block_spec, Remote, RemoteV, Repo,
    RepoV};

use vstd::prelude::*;

use crate::content::FileContent;
use crate::error::{ErrorKind, ParsingError};
use crate::keywords::{keyword_str, Keyword};
use crate::nodes::Property;
use crate::text::norm_spec;

verus! {

/// The outcome of a build step: a model entity, or the first diagnostic.
pub type ParsingResult<T> = Result<T, ParsingError>;

/// Which kind of file a tree is interpreted as: a top-level profile, or a
/// resource file pulled in by an include.
#[derive(Copy, Clone, PartialEq, Eq, Structural, Debug)]
pub enum FileType {
    Profile,
    Resource,
}

/// How a re-declared or included prefix or repo combines with a prior
/// definition. `Undefined` is the only valid "absent" state; user input
/// produces the other three.
#[derive(Copy, Clone, PartialEq, Eq, Structural, Debug)]
pub enum OverrideMode {
    Undefined,
    NoOverride,
    Replace,
    Merge,
}

/// What a builder promises: the same value the specification computes, or
/// a diagnostic with exactly the specified kind and position.
pub open spec fn err_of(e: ParsingError, s: (ErrorKind, int)) -> bool {
    e.kind == s.0 && e.byte_offset == s.1
}

/// A property node that the builders may be handed: well-formed and within
/// the buffer.
pub open spec fn prop_ok(p: Property, content: FileContent) -> bool {
    &&& p.wf()
    &&& p.in_bounds(content.text_seq().len() as int)
    &&& content.wf()
}

/// Builds a failing result at `position`.
fn err_result<T>(content: &FileContent, position: usize, kind: ErrorKind, message: String) -> (r:
    ParsingResult<T>)
    requires
        content.wf(),
        position <= content.text_seq().len(),
    ensures
        r is Err,
        r->Err_0.kind == kind,
        r->Err_0.byte_offset == position,
{
    Err(ParsingError::new(content, position, kind, message))
}

/// The buffer offset of a property, for diagnostics.
fn prop_position(prop: &Property) -> (r: usize)
    ensures
        r as int == prop.pos_spec(),
{
    prop.declaration.type_token.text_start
}

/// "Duplicate `<type>` property."
fn err_duplicate_property_type<T>(prop: &Property, content: &FileContent) -> (r: ParsingResult<T>)
    requires
        prop_ok(*prop, *content),
    ensures
        r is Err,
        err_of(r->Err_0, (ErrorKind::DuplicatePropertyType, prop.pos_spec())),
{
    let mut m = "Duplicate ".to_owned();
    m.append(prop.property_type().as_str());
    m.append(" property.");
    err_result(content, prop_position(prop), ErrorKind::DuplicatePropertyType, m)
}

/// "Duplicate `<type>` \"`<name>`\"."
fn err_duplicate_property_name<T>(prop: &Property, content: &FileContent) -> (r: ParsingResult<T>)
    requires
        prop_ok(*prop, *content),
    ensures
        r is Err,
        err_of(r->Err_0, (ErrorKind::DuplicatePropertyName, prop.pos_spec())),
{
    let mut m = "Duplicate ".to_owned();
    m.append(prop.property_type().as_str());
    match prop.property_name() {
        Some(name) => {
            m.append(" \"");
            m.append(name.as_str());
            m.append("\".");
        },
        None => {
            m.append(" property.");
        },
    }
    err_result(content, prop_position(prop), ErrorKind::DuplicatePropertyName, m)
}

/// "`<type>` property needs a child `<expected>` property."
fn err_missing_child_property<T>(prop: &Property, content: &FileContent, expected: Keyword) -> (r:
    ParsingResult<T>)
    requires
        prop_ok(*prop, *content),
    ensures
        r is Err,
        err_of(r->Err_0, (ErrorKind::MissingChildProperty(expected), prop.pos_spec())),
{
    let mut m = prop.property_type().clone();
    m.append(" property ");
    match prop.property_name() {
        Some(name) => {
            m.append("\"");
            m.append(name.as_str());
            m.append("\" ");
        },
        None => {},
    }
    m.append("needs a child ");
    m.append(keyword_str(expected));
    m.append(" property.");
    err_result(content, prop_position(prop), ErrorKind::MissingChildProperty(expected), m)
}

/// "`<type>` property requires a non-empty name."
fn err_missing_name<T>(prop: &Property, content: &FileContent) -> (r: ParsingResult<T>)
    requires
        prop_ok(*prop, *content),
    ensures
        r is Err,
        err_of(r->Err_0, (ErrorKind::MissingName, prop.pos_spec())),
{
    let mut m = prop.property_type().clone();
    m.append(" property requires a non-empty name.");
    err_result(content, prop_position(prop), ErrorKind::MissingName, m)
}

/// "`<type>` property requires a value."
fn err_missing_value<T>(prop: &Property, content: &FileContent) -> (r: ParsingResult<T>)
    requires
        prop_ok(*prop, *content),
    ensures
        r is Err,
        err_of(r->Err_0, (ErrorKind::MissingValue, prop.pos_spec())),
{
    let mut m = prop.property_type().clone();
    m.append(" property requires a value.");
    err_result(content, prop_position(prop), ErrorKind::MissingValue, m)
}

/// "`<type>` property cannot have child properties."
fn err_unexpected_block<T>(prop: &Property, content: &FileContent) -> (r: ParsingResult<T>)
    requires
        prop_ok(*prop, *content),
    ensures
        r is Err,
        err_of(r->Err_0, (ErrorKind::UnexpectedBlock, prop.pos_spec())),
{
    let mut m = prop.property_type().clone();
    m.append(" property cannot have child properties.");
    err_result(content, prop_position(prop), ErrorKind::UnexpectedBlock, m)
}

/// "`<type>` property cannot have a string value."
fn err_unexpected_value<T>(prop: &Property, content: &FileContent) -> (r: ParsingResult<T>)
    requires
        prop_ok(*prop, *content),
    ensures
        r is Err,
        err_of(r->Err_0, (ErrorKind::UnexpectedValue, prop.pos_spec())),
{
    let mut m = prop.property_type().clone();
    m.append(" property cannot have a string value.");
    err_result(content, prop_position(prop), ErrorKind::UnexpectedValue, m)
}

/// "`<type>` property cannot be named."
fn err_unexpected_name<T>(prop: &Property, content: &FileContent) -> (r: ParsingResult<T>)
    requires
        prop_ok(*prop, *content),
    ensures
        r is Err,
        err_of(r->Err_0, (ErrorKind::UnexpectedName, prop.pos_spec())),
{
    let mut m = prop.property_type().clone();
    m.append(" property cannot be named.");
    err_result(content, prop_position(prop), ErrorKind::UnexpectedName, m)
}

/// "Unexpected property type \"`<type>`\". Expected: ..."
fn err_unexpected_property<T>(prop: &Property, content: &FileContent, expected: &[Keyword]) -> (r:
    ParsingResult<T>)
    requires
        prop_ok(*prop, *content),
    ensures
        r is Err,
        err_of(r->Err_0, (ErrorKind::UnexpectedProperty, prop.pos_spec())),
{
    let mut m = "Unexpected property type \"".to_owned();
    m.append(prop.property_type().as_str());
    m.append("\".\n    Expected: ");
    let mut i: usize = 0;
    while i < expected.len()
        invariant
            i <= expected@.len(),
        decreases expected@.len() - i,
    {
        if i > 0 {
            m.append(", ");
        }
        m.append(keyword_str(expected[i]));
        i = i + 1;
    }
    err_result(content, prop_position(prop), ErrorKind::UnexpectedProperty, m)
}

/// What an `override` child property means: at most one per scope, never
/// named, and its value must read `merge`, `replace` or `none`
/// (case-insensitively, surrounding whitespace ignored).
pub open spec fn override_spec(p: Property, cur: OverrideMode) -> Result<
    OverrideMode,
    (ErrorKind, int),
> {
    if cur != OverrideMode::Undefined {
        Err((ErrorKind::DuplicatePropertyType, p.pos_spec()))
    } else if p.name_seq() is Some {
        Err((ErrorKind::UnexpectedName, p.pos_spec()))
    } else {
        match p.value_seq() {
            Some(v) => {
                if norm_spec(v) == "merge"@ {
                    Ok(OverrideMode::Merge)
                } else if norm_spec(v) == "replace"@ {
                    Ok(OverrideMode::Replace)
                } else if norm_spec(v) == "none"@ {
                    Ok(OverrideMode::NoOverride)
                } else {
                    Err((ErrorKind::InvalidOverrideValue, p.pos_spec()))
                }
            },
            None => Err((ErrorKind::InvalidOverrideValue, p.pos_spec())),
        }
    }
}

/// Interprets an `override` child property against the mode seen so far.
pub fn build_override(prop: &Property, content: &FileContent, current_mode: OverrideMode) -> (r:
    ParsingResult<OverrideMode>)
    requires
        prop_ok(*prop, *content),
    ensures
        ({
            let s = override_spec(*prop, current_mode);
            match r {
                Ok(m) => s == Ok::<OverrideMode, (ErrorKind, int)>(m),
                Err(e) => s is Err && err_of(e, s->Err_0),
            }
        }),
{
    if match current_mode {
        OverrideMode::Undefined => false,
        _ => true,
    } {
        return err_duplicate_property_type(prop, content);
    }
    if prop.declaration.has_name() {
        return err_unexpected_name(prop, content);
    }
    let value = match prop.value_str() {
        Some(v) => v,
        None => {
            let mut m = "Value of ".to_owned();
            m.append(prop.property_type().as_str());
            m.append(" must be \"merge\", \"replace\", or \"none\"");
            return err_result(
                content,
                prop_position(prop),
                ErrorKind::InvalidOverrideValue,
                m,
            );
        },
    };
    let v = crate::text::str_normalize(value.as_str());
    if v == "merge".to_owned() {
        Ok(OverrideMode::Merge)
    } else if v == "replace".to_owned() {
        Ok(OverrideMode::Replace)
    } else if v == "none".to_owned() {
        Ok(OverrideMode::NoOverride)
    } else {
        let mut m = "Value of ".to_owned();
        m.append(prop.property_type().as_str());
        m.append(" must be \"merge\", \"replace\", or \"none\"");
        err_result(content, prop_position(prop), ErrorKind::InvalidOverrideValue, m)
    }
}

} // verus!
