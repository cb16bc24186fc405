//! The directory-shortcut configuration consumed by the command-line
//! front end: a list of named directories with a by-name lookup. Reading
//! and decoding the configuration file happens outside this crate; this
//! module holds the validated model and its lookup rule.

use vstd::prelude::*;

verus! {

/// One named directory shortcut.
#[derive(Debug)]
pub struct MotDirectory {
    pub name: String,
    pub path: String,
}

/// The loaded configuration: directory shortcuts in file order.
#[derive(Debug)]
pub struct MotConfig {
    pub directories: Vec<MotDirectory>,
}

/// An error raised while loading the configuration.
#[derive(Debug)]
pub struct ConfigError {
    pub message: String,
}

impl ConfigError {
    /// Builds an error carrying `message`.
    pub fn new(message: String) -> (r: ConfigError)
        ensures
            r.message == message,
    {
        ConfigError { message }
    }

    /// The error text a user sees.
    pub fn message(&self) -> (r: &String)
        ensures
            r == self.message,
    {
        &self.message
    }
}

/// Whether some directory at or after `i` is named `name`.
pub open spec fn has_directory_from(dirs: Seq<MotDirectory>, name: Seq<char>, i: int) -> bool {
    exists|j: int| i <= j < dirs.len() && (#[trigger] dirs[j]).name@ == name
}

impl MotConfig {
    /// Builds a configuration from `(name, path)` pairs, in order.
    pub fn from_pairs(pairs: Vec<(String, String)>) -> (r: MotConfig)
        ensures
            r.directories@.len() == pairs@.len(),
            forall|i: int|
                0 <= i < pairs@.len() ==> (#[trigger] r.directories@[i]).name == pairs@[i].0
                    && r.directories@[i].path == pairs@[i].1,
    {
        let mut directories: Vec<MotDirectory> = Vec::new();
        let n = pairs.len();
        let mut i: usize = 0;
        while i < n
            invariant
                n == pairs@.len(),
                i <= n,
                directories@.len() == i,
                forall|k: int|
                    0 <= k < i ==> (#[trigger] directories@[k]).name == pairs@[k].0
                        && directories@[k].path == pairs@[k].1,
            decreases n - i,
        {
            let (name, path) = (pairs[i].0.clone(), pairs[i].1.clone());
            directories.push(MotDirectory { name, path });
            i = i + 1;
        }
        MotConfig { directories }
    }

    /// Looks a directory up by exact name: the first entry with that name,
    /// or nothing when no entry carries it.
    pub fn find_directory(&self, name: &String) -> (r: Option<&MotDirectory>)
        ensures
            match r {
                Some(d) => {
                    &&& d.name@ == name@
                    &&& exists|i: int|
                        0 <= i < self.directories@.len() && *d == self.directories@[i]
                },
                None => !has_directory_from(self.directories@, name@, 0),
            },
    {
        let n = self.directories.len();
        let mut i: usize = 0;
        while i < n
            invariant
                n == self.directories@.len(),
                i <= n,
                forall|k: int|
                    0 <= k < i ==> (#[trigger] self.directories@[k]).name@ != name@,
            decreases n - i,
        {
            if *self.directories[i].name() == *name {
                proof {
                    assert(self.directories@[i as int].name@ == name@);
                }
                return Some(&self.directories[i]);
            }
            i = i + 1;
        }
        proof {
            assert(!has_directory_from(self.directories@, name@, 0));
        }
        None
    }
}

impl MotDirectory {
    /// The shortcut's name.
    pub fn name(&self) -> (r: &String)
        ensures
            r == self.name,
    {
        &self.name
    }

    /// The directory path the shortcut points at.
    pub fn path(&self) -> (r: &String)
        ensures
            r == self.path,
    {
        &self.path
    }
}

} // verus!
