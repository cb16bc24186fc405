//! A named path: one environment's directory value within a prefix, or a
//! repo's working path.

use vstd::prelude::*;

use crate::content::FileContent;
use crate::error::ErrorKind;
use crate::nodes::Property;
use crate::text::{norm_spec, str_normalize};

use super::{err_missing_value, prop_ok, prop_position, ParsingResult};

verus! {

/// The mathematical model of a [`Path`].
pub struct PathV {
    pub name: Seq<char>,
    pub name_norm: Seq<char>,
    pub raw_value: Seq<char>,
    pub pos: int,
}

/// A named path value. The normalized name is the uniqueness key; the
/// original spelling is kept for display.
#[derive(Debug)]
pub struct Path {
    position_: usize,
    name_: String,
    name_normalized_: String,
    raw_value_: String,
}

impl View for Path {
    type V = PathV;

    closed spec fn view(&self) -> PathV {
        PathV {
            name: self.name_@,
            name_norm: self.name_normalized_@,
            raw_value: self.raw_value_@,
            pos: self.position_ as int,
        }
    }
}

/// What building a path from a property means: the name defaults to
/// `default` when none is given, the normalized name is derived from it,
/// and a property without a value is rejected.
pub open spec fn build_path_spec(p: Property, name: Option<Seq<char>>) -> Result<
    PathV,
    (ErrorKind, int),
> {
    let name_s = match name {
        Some(n) => n,
        None => "default"@,
    };
    match p.value_seq() {
        Some(v) => Ok(
            PathV { name: name_s, name_norm: norm_spec(name_s), raw_value: v, pos: p.pos_spec() },
        ),
        None => Err((ErrorKind::MissingValue, p.pos_spec())),
    }
}

impl Path {
    /// The buffer offset of the property this path was built from.
    pub fn position(&self) -> (r: usize)
        ensures
            r as int == self@.pos,
    {
        self.position_
    }

    /// The path's name as declared.
    pub fn name(&self) -> (r: &String)
        ensures
            r@ == self@.name,
    {
        &self.name_
    }

    /// The normalized (trimmed, lower-cased) name, the uniqueness key.
    pub fn name_normalized(&self) -> (r: &String)
        ensures
            r@ == self@.name_norm,
    {
        &self.name_normalized_
    }

    /// The raw path text as written in the file.
    pub fn raw_value(&self) -> (r: &String)
        ensures
            r@ == self@.raw_value,
    {
        &self.raw_value_
    }

    /// Builds a path from a property, under the given name (or `default`).
    pub fn build(prop: &Property, content: &FileContent, name: Option<&String>) -> (r:
        ParsingResult<Path>)
        requires
            prop_ok(*prop, *content),
        ensures
            ({
                let s = build_path_spec(
                    *prop,
                    match name {
                        Some(n) => Some(n@),
                        None => None,
                    },
                );
                match r {
                    Ok(p) => s is Ok && p@ == s->Ok_0,
                    Err(e) => s is Err && super::err_of(e, s->Err_0),
                }
            }),
    {
        let name_owned: String = match name {
            Some(n) => n.clone(),
            None => "default".to_owned(),
        };
        let raw_value = match prop.value_str() {
            Some(v) => v.clone(),
            None => {
                return err_missing_value(prop, content);
            },
        };
        let name_normalized = str_normalize(name_owned.as_str());
        Ok(
            Path {
                position_: prop_position(prop),
                name_: name_owned,
                name_normalized_: name_normalized,
                raw_value_: raw_value,
            },
        )
    }
}

} // verus!
