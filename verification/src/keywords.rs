//! The keyword vocabulary of the language, as a closed enumeration with a
//! text-to-tag lookup, so the semantic builder dispatches on tags rather
//! than raw text.

use vstd::prelude::*;

verus! {

/// The property-type keywords the semantic builder recognizes.
#[derive(Copy, Clone, PartialEq, Eq, Structural, Debug)]
pub enum Keyword {
    Profile,
    Resource,
    Alias,
    Include,
    Prefix,
    Repo,
    Env,
    Override,
    Config,
    RepoPath,
    Remote,
}

/// The spelling of each keyword.
pub open spec fn keyword_seq(k: Keyword) -> Seq<char> {
    match k {
        Keyword::Profile => "profile"@,
        Keyword::Resource => "resource"@,
        Keyword::Alias => "alias"@,
        Keyword::Include => "include"@,
        Keyword::Prefix => "prefix"@,
        Keyword::Repo => "repo"@,
        Keyword::Env => "env"@,
        Keyword::Override => "override"@,
        Keyword::Config => "config"@,
        Keyword::RepoPath => "path"@,
        Keyword::Remote => "remote"@,
    }
}

/// Executable twin of [`keyword_seq`].
pub fn keyword_str(k: Keyword) -> (r: &'static str)
    ensures
        r@ == keyword_seq(k),
{
    match k {
        Keyword::Profile => "profile",
        Keyword::Resource => "resource",
        Keyword::Alias => "alias",
        Keyword::Include => "include",
        Keyword::Prefix => "prefix",
        Keyword::Repo => "repo",
        Keyword::Env => "env",
        Keyword::Override => "override",
        Keyword::Config => "config",
        Keyword::RepoPath => "path",
        Keyword::Remote => "remote",
    }
}

/// The tag a piece of text denotes, if any. Keyword matching is exact:
/// case-sensitive, with no surrounding whitespace (the lexer never leaves
/// whitespace in a word token).
pub open spec fn keyword_of_seq(s: Seq<char>) -> Option<Keyword> {
    if s == "profile"@ {
        Some(Keyword::Profile)
    } else if s == "resource"@ {
        Some(Keyword::Resource)
    } else if s == "alias"@ {
        Some(Keyword::Alias)
    } else if s == "include"@ {
        Some(Keyword::Include)
    } else if s == "prefix"@ {
        Some(Keyword::Prefix)
    } else if s == "repo"@ {
        Some(Keyword::Repo)
    } else if s == "env"@ {
        Some(Keyword::Env)
    } else if s == "override"@ {
        Some(Keyword::Override)
    } else if s == "config"@ {
        Some(Keyword::Config)
    } else if s == "path"@ {
        Some(Keyword::RepoPath)
    } else if s == "remote"@ {
        Some(Keyword::Remote)
    } else {
        None
    }
}

/// Executable twin of [`keyword_of_seq`].
pub fn keyword_of(s: &String) -> (r: Option<Keyword>)
    ensures
        r == keyword_of_seq(s@),
{
    if *s == "profile".to_owned() {
        Some(Keyword::Profile)
    } else if *s == "resource".to_owned() {
        Some(Keyword::Resource)
    } else if *s == "alias".to_owned() {
        Some(Keyword::Alias)
    } else if *s == "include".to_owned() {
        Some(Keyword::Include)
    } else if *s == "prefix".to_owned() {
        Some(Keyword::Prefix)
    } else if *s == "repo".to_owned() {
        Some(Keyword::Repo)
    } else if *s == "env".to_owned() {
        Some(Keyword::Env)
    } else if *s == "override".to_owned() {
        Some(Keyword::Override)
    } else if *s == "config".to_owned() {
        Some(Keyword::Config)
    } else if *s == "path".to_owned() {
        Some(Keyword::RepoPath)
    } else if *s == "remote".to_owned() {
        Some(Keyword::Remote)
    } else {
        None
    }
}

} // verus!
