//! An alias: a named shorthand for a value, declared inline.

use vstd::prelude::*;

use crate::content::FileContent;
use crate::error::ErrorKind;
use crate::nodes::Property;
use crate::text::{norm_spec, str_normalize};

use super::{err_missing_name, err_missing_value, err_unexpected_block, prop_ok, prop_position,
    ParsingResult};

verus! {

/// The mathematical model of an [`Alias`].
pub struct AliasV {
    pub name: Seq<char>,
    pub name_norm: Seq<char>,
    pub value: Seq<char>,
    pub pos: int,
}

/// A named alias. The normalized name is the uniqueness key.
#[derive(Debug)]
pub struct Alias {
    position_: usize,
    name_: String,
    name_normalized_: String,
    value_: String,
}

impl View for Alias {
    type V = AliasV;

    closed spec fn view(&self) -> AliasV {
        AliasV {
            name: self.name_@,
            name_norm: self.name_normalized_@,
            value: self.value_@,
            pos: self.position_ as int,
        }
    }
}

/// What building an alias means: the name must normalize to something
/// non-empty, child properties are rejected, and a value is required.
pub open spec fn build_alias_spec(p: Property) -> Result<AliasV, (ErrorKind, int)> {
    let name = match p.name_seq() {
        Some(n) => n,
        None => Seq::empty(),
    };
    let nn = norm_spec(name);
    if nn.len() == 0 {
        Err((ErrorKind::MissingName, p.pos_spec()))
    } else if p.block is Some {
        Err((ErrorKind::UnexpectedBlock, p.pos_spec()))
    } else {
        match p.value_seq() {
            Some(v) => Ok(AliasV { name, name_norm: nn, value: v, pos: p.pos_spec() }),
            None => Err((ErrorKind::MissingValue, p.pos_spec())),
        }
    }
}

impl Alias {
    /// The buffer offset of the property this alias was built from.
    pub fn position(&self) -> (r: usize)
        ensures
            r as int == self@.pos,
    {
        self.position_
    }

    /// The alias's name as declared.
    pub fn name(&self) -> (r: &String)
        ensures
            r@ == self@.name,
    {
        &self.name_
    }

    /// The normalized (trimmed, lower-cased) name, the uniqueness key.
    pub fn name_normalized(&self) -> (r: &String)
        ensures
            r@ == self@.name_norm,
    {
        &self.name_normalized_
    }

    /// The alias's value.
    pub fn value(&self) -> (r: &String)
        ensures
            r@ == self@.value,
    {
        &self.value_
    }

    /// Builds an alias from its property.
    pub fn build(prop: &Property, content: &FileContent) -> (r: ParsingResult<Alias>)
        requires
            prop_ok(*prop, *content),
        ensures
            ({
                let s = build_alias_spec(*prop);
                match r {
                    Ok(a) => s is Ok && a@ == s->Ok_0,
                    Err(e) => s is Err && super::err_of(e, s->Err_0),
                }
            }),
    {
        proof {
            reveal_strlit("");
            assert(""@ =~= Seq::<char>::empty());
        }
        let name: String = match prop.property_name() {
            Some(n) => n.clone(),
            None => "".to_owned(),
        };
        let name_normalized = str_normalize(name.as_str());
        if name_normalized.as_str().is_empty() {
            return err_missing_name(prop, content);
        }
        if prop.has_block() {
            return err_unexpected_block(prop, content);
        }
        let value = match prop.value_str() {
            Some(v) => v.clone(),
            None => {
                return err_missing_value(prop, content);
            },
        };
        Ok(
            Alias {
                position_: prop_position(prop),
                name_: name,
                name_normalized_: name_normalized,
                value_: value,
            },
        )
    }
}

} // verus!
