//! An include: a declared reference to a resource file, with optional
//! renames. Includes are part of the data model but their interpretation
//! is a future extension point; the file builder requires that none occur.

use vstd::prelude::*;

verus! {

/// One rename rule attached to an include.
#[derive(Debug)]
pub struct Rename {
    pub from_pattern: String,
    pub to_pattern: String,
}

/// A declared include of a resource file.
#[derive(Debug)]
pub struct Include {
    pub position: usize,
    pub name: Option<String>,
    pub file: String,
    pub renames: Vec<Rename>,
}

impl Include {
    /// The include's name, if one was declared.
    pub fn name(&self) -> (r: &Option<String>)
        ensures
            r == self.name,
    {
        &self.name
    }

    /// The file the include points at.
    pub fn file(&self) -> (r: &String)
        ensures
            r == self.file,
    {
        &self.file
    }

    /// The rename rules, in declaration order.
    pub fn renames(&self) -> (r: &Vec<Rename>)
        ensures
            r == self.renames,
    {
        &self.renames
    }
}

} // verus!
