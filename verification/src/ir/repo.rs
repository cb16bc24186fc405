//! A repo: a version-control repository binding with exactly one working
//! path, at least one remote, an optional config value and an optional
//! override mode.

use vstd::prelude::*;

use crate::content::FileContent;
use crate::error::ErrorKind;
use crate::keywords::{keyword_of, keyword_of_seq, Keyword};
use crate::nodes::Property;
use crate::text::{norm_spec, str_normalize};

use super::path::{build_path_spec, Path, PathV};
use super::{build_override, err_duplicate_property_type, err_missing_child_property,
    err_missing_value, err_of, err_result, err_unexpected_name, err_unexpected_property,
    err_unexpected_value, override_spec, prop_ok, prop_position, OverrideMode, ParsingResult};

verus! {

/// The mathematical model of a [`Remote`].
pub struct RemoteV {
    pub name: Seq<char>,
    pub url: Seq<char>,
}

/// A named remote of a repo.
#[derive(Debug)]
pub struct Remote {
    pub name: String,
    pub url: String,
}

impl View for Remote {
    type V = RemoteV;

    open spec fn view(&self) -> RemoteV {
        RemoteV { name: self.name@, url: self.url@ }
    }
}

/// The models of a sequence of remotes.
pub open spec fn remotes_seq(v: Seq<Remote>) -> Seq<RemoteV> {
    v.map_values(|r: Remote| r@)
}

/// The mathematical model of a [`Repo`].
pub struct RepoV {
    pub name: Option<Seq<char>>,
    pub name_norm: Option<Seq<char>>,
    pub path: PathV,
    pub config: Option<Seq<char>>,
    pub remotes: Seq<RemoteV>,
    pub mode: OverrideMode,
    pub pos: int,
}

/// A repository binding.
#[derive(Debug)]
pub struct Repo {
    position_: usize,
    name_: Option<String>,
    name_normalized_: Option<String>,
    path_: Path,
    config_: Option<String>,
    remotes_: Vec<Remote>,
    override_mode_: OverrideMode,
}

impl View for Repo {
    type V = RepoV;

    closed spec fn view(&self) -> RepoV {
        RepoV {
            name: match self.name_ {
                Some(n) => Some(n@),
                None => None,
            },
            name_norm: match self.name_normalized_ {
                Some(n) => Some(n@),
                None => None,
            },
            path: self.path_@,
            config: match self.config_ {
                Some(c) => Some(c@),
                None => None,
            },
            remotes: remotes_seq(self.remotes_@),
            mode: self.override_mode_,
            pos: self.position_ as int,
        }
    }
}

/// What building a remote means: the name defaults to `origin`, and a
/// value (the URL) is required.
pub open spec fn build_remote_spec(p: Property) -> Result<RemoteV, (ErrorKind, int)> {
    let name = match p.name_seq() {
        Some(n) => n,
        None => "origin"@,
    };
    match p.value_seq() {
        Some(v) => Ok(RemoteV { name, url: v }),
        None => Err((ErrorKind::MissingValue, p.pos_spec())),
    }
}

/// What a `config` child means: at most one, unnamed, with a value.
pub open spec fn build_config_spec(p: Property, existing: Option<Seq<char>>) -> Result<
    Seq<char>,
    (ErrorKind, int),
> {
    if existing is Some {
        Err((ErrorKind::DuplicatePropertyType, p.pos_spec()))
    } else if p.name_seq() is Some {
        Err((ErrorKind::UnexpectedName, p.pos_spec()))
    } else {
        match p.value_seq() {
            Some(v) => Ok(v),
            None => Err((ErrorKind::MissingValue, p.pos_spec())),
        }
    }
}

/// What a `path` child means: at most one, unnamed, built as a path.
pub open spec fn build_repo_path_spec(p: Property, existing: Option<PathV>) -> Result<
    PathV,
    (ErrorKind, int),
> {
    if existing is Some {
        Err((ErrorKind::DuplicatePropertyType, p.pos_spec()))
    } else if p.name_seq() is Some {
        Err((ErrorKind::UnexpectedName, p.pos_spec()))
    } else {
        build_path_spec(p, None)
    }
}

/// Whether a remote with the same normalized name is already present.
pub open spec fn remote_name_taken(remotes: Seq<RemoteV>, name: Seq<char>) -> bool {
    exists|j: int|
        0 <= j < remotes.len() && #[trigger] norm_spec(remotes[j].name) == norm_spec(name)
}

/// What folding a repo's child properties means.
pub open spec fn repo_block_spec(
    ch: Seq<Property>,
    i: int,
    path: Option<PathV>,
    config: Option<Seq<char>>,
    remotes: Seq<RemoteV>,
    mode: OverrideMode,
) -> Result<(Option<PathV>, Option<Seq<char>>, Seq<RemoteV>, OverrideMode), (ErrorKind, int)>
    decreases ch.len() - i,
{
    if i < 0 || i >= ch.len() {
        Ok((path, config, remotes, mode))
    } else {
        let c = ch[i];
        match keyword_of_seq(c.type_seq()) {
            Some(Keyword::Config) => match build_config_spec(c, config) {
                Ok(v) => repo_block_spec(ch, i + 1, path, Some(v), remotes, mode),
                Err(e) => Err(e),
            },
            Some(Keyword::Override) => match override_spec(c, mode) {
                Ok(m) => repo_block_spec(ch, i + 1, path, config, remotes, m),
                Err(e) => Err(e),
            },
            Some(Keyword::RepoPath) => match build_repo_path_spec(c, path) {
                Ok(pv) => repo_block_spec(ch, i + 1, Some(pv), config, remotes, mode),
                Err(e) => Err(e),
            },
            Some(Keyword::Remote) => match build_remote_spec(c) {
                Ok(rv) => {
                    if remote_name_taken(remotes, rv.name) {
                        Err((ErrorKind::DuplicatePropertyName, c.pos_spec()))
                    } else {
                        repo_block_spec(ch, i + 1, path, config, remotes.push(rv), mode)
                    }
                },
                Err(e) => Err(e),
            },
            _ => Err((ErrorKind::UnexpectedProperty, c.pos_spec())),
        }
    }
}

/// What building a repo means: an optional name; no inline value; child
/// properties folded by [`repo_block_spec`]; exactly one `path` child and
/// at least one `remote` child required.
pub open spec fn build_repo_spec(p: Property) -> Result<RepoV, (ErrorKind, int)> {
    let name = p.name_seq();
    let nn = match name {
        Some(n) => Some(norm_spec(n)),
        None => None,
    };
    if p.value_seq() is Some {
        Err((ErrorKind::UnexpectedValue, p.pos_spec()))
    } else {
        let base = if p.block is Some {
            repo_block_spec(
                p.children_seq(),
                0,
                None,
                None,
                Seq::empty(),
                OverrideMode::Undefined,
            )
        } else {
            Ok((None, None, Seq::<RemoteV>::empty(), OverrideMode::Undefined))
        };
        match base {
            Err(e) => Err(e),
            Ok((path, config, remotes, mode)) => {
                match path {
                    None => Err((ErrorKind::MissingChildProperty(Keyword::RepoPath), p.pos_spec())),
                    Some(pv) => {
                        if remotes.len() == 0 {
                            Err((ErrorKind::MissingChildProperty(Keyword::Remote), p.pos_spec()))
                        } else {
                            Ok(
                                RepoV {
                                    name,
                                    name_norm: nn,
                                    path: pv,
                                    config,
                                    remotes,
                                    mode,
                                    pos: p.pos_spec(),
                                },
                            )
                        }
                    },
                }
            },
        }
    }
}

impl Repo {
    /// The buffer offset of the property this repo was built from.
    pub fn position(&self) -> (r: usize)
        ensures
            r as int == self@.pos,
    {
        self.position_
    }

    /// The repo's name, if one was declared.
    pub fn name(&self) -> (r: &Option<String>)
        ensures
            r is Some <==> self@.name is Some,
            r is Some ==> r->0@ == self@.name->0,
    {
        &self.name_
    }

    /// The normalized name, if a name was declared.
    pub fn name_normalized(&self) -> (r: &Option<String>)
        ensures
            r is Some <==> self@.name_norm is Some,
            r is Some ==> r->0@ == self@.name_norm->0,
    {
        &self.name_normalized_
    }

    /// The repo's single working path.
    pub fn path(&self) -> (r: &Path)
        ensures
            r@ == self@.path,
    {
        &self.path_
    }

    /// The config value, if one was declared.
    pub fn config(&self) -> (r: &Option<String>)
        ensures
            r is Some <==> self@.config is Some,
            r is Some ==> r->0@ == self@.config->0,
    {
        &self.config_
    }

    /// The remotes, in declaration order.
    pub fn remotes(&self) -> (r: &Vec<Remote>)
        ensures
            remotes_seq(r@) == self@.remotes,
    {
        &self.remotes_
    }

    /// The override mode, or `Undefined` when none was declared.
    pub fn override_mode(&self) -> (r: OverrideMode)
        ensures
            r == self@.mode,
    {
        self.override_mode_
    }

    /// Builds a repo from its property.
    pub fn build(prop: &Property, content: &FileContent) -> (r: ParsingResult<Repo>)
        requires
            prop_ok(*prop, *content),
        ensures
            ({
                let s = build_repo_spec(*prop);
                match r {
                    Ok(p) => s is Ok && p@ == s->Ok_0,
                    Err(e) => s is Err && err_of(e, s->Err_0),
                }
            }),
    {
        let ghost len = content.text_seq().len() as int;
        let name: Option<String> = match prop.property_name() {
            Some(n) => Some(n.clone()),
            None => None,
        };
        let name_normalized: Option<String> = match &name {
            Some(n) => Some(str_normalize(n.as_str())),
            None => None,
        };
        if prop.has_value() {
            return err_unexpected_value(prop, content);
        }
        let mut path_opt: Option<Path> = None;
        let mut config: Option<String> = None;
        let mut remotes: Vec<Remote> = Vec::new();
        let mut override_mode = OverrideMode::Undefined;
        let ghost ch = prop.children_seq();
        if let Some(block) = prop.block() {
            let n = block.property_list.properties.len();
            let mut i: usize = 0;
            proof {
                assert(remotes_seq(remotes@) =~= Seq::<RemoteV>::empty());
            }
            while i < n
                invariant
                    prop_ok(*prop, *content),
                    len == content.text_seq().len() as int,
                    prop.value_seq() is None,
                    prop.block == Some(*block),
                    block.wf(),
                    block.in_bounds(len),
                    ch == block.property_list.properties@,
                    n == ch.len(),
                    i <= n,
                    repo_block_spec(ch, 0, None, None, Seq::empty(), OverrideMode::Undefined)
                        == repo_block_spec(
                        ch,
                        i as int,
                        match path_opt {
                            Some(p) => Some(p@),
                            None => None,
                        },
                        match config {
                            Some(c) => Some(c@),
                            None => None,
                        },
                        remotes_seq(remotes@),
                        override_mode,
                    ),
                decreases n - i,
            {
                let child = &block.property_list.properties[i];
                proof {
                    assert(*child == ch[i as int]);
                    assert(ch[i as int].wf());
                    assert(ch[i as int].in_bounds(len));
                }
                let kw = keyword_of(child.property_type());
                if match kw {
                    Some(Keyword::Config) => true,
                    _ => false,
                } {
                    let v = match build_config(child, content, &config) {
                        Ok(v) => v,
                        Err(e) => {
                            return Err(e);
                        },
                    };
                    config = Some(v);
                } else if match kw {
                    Some(Keyword::Override) => true,
                    _ => false,
                } {
                    let m = match build_override(child, content, override_mode) {
                        Ok(m) => m,
                        Err(e) => {
                            return Err(e);
                        },
                    };
                    override_mode = m;
                } else if match kw {
                    Some(Keyword::RepoPath) => true,
                    _ => false,
                } {
                    let p = match build_path(child, content, &path_opt) {
                        Ok(p) => p,
                        Err(e) => {
                            return Err(e);
                        },
                    };
                    path_opt = Some(p);
                } else if match kw {
                    Some(Keyword::Remote) => true,
                    _ => false,
                } {
                    let remote = match build_remote(child, content) {
                        Ok(r) => r,
                        Err(e) => {
                            return Err(e);
                        },
                    };
                    let mut j: usize = 0;
                    let m = remotes.len();
                    while j < m
                        invariant
                            prop_ok(*prop, *content),
                            content.wf(),
                            len == content.text_seq().len() as int,
                            m == remotes@.len(),
                            j <= m,
                            *child == ch[i as int],
                            ch[i as int].wf(),
                            ch[i as int].in_bounds(content.text_seq().len() as int),
                            i < ch.len(),
                            prop.block == Some(*block),
                            block.wf(),
                            block.in_bounds(len),
                            ch == block.property_list.properties@,
                            prop.value_seq() is None,
                            repo_block_spec(ch, 0, None, None, Seq::empty(), OverrideMode::Undefined)
                                == repo_block_spec(
                                ch,
                                i as int,
                                match path_opt {
                                    Some(p) => Some(p@),
                                    None => None,
                                },
                                match config {
                                    Some(c) => Some(c@),
                                    None => None,
                                },
                                remotes_seq(remotes@),
                                override_mode,
                            ),
                            keyword_of_seq(ch[i as int].type_seq()) == Some(Keyword::Remote),
                            remote@ == build_remote_spec(ch[i as int])->Ok_0,
                            build_remote_spec(ch[i as int]) is Ok,
                            forall|k: int|
                                0 <= k < j ==> norm_spec((#[trigger] remotes@[k])@.name)
                                    != norm_spec(remote@.name),
                        decreases m - j,
                    {
                        let existing_norm = str_normalize(remotes[j].name.as_str());
                        let new_norm = str_normalize(remote.name.as_str());
                        if existing_norm == new_norm {
                            proof {
                                assert(remotes_seq(remotes@)[j as int] == remotes@[j as int]@);
                                assert(norm_spec(remotes_seq(remotes@)[j as int].name)
                                    == norm_spec(remote@.name));
                                assert(remote_name_taken(remotes_seq(remotes@), remote@.name));
                                assert(repo_block_spec(
                                    ch,
                                    i as int,
                                    match path_opt {
                                        Some(p) => Some(p@),
                                        None => None,
                                    },
                                    match config {
                                        Some(c) => Some(c@),
                                        None => None,
                                    },
                                    remotes_seq(remotes@),
                                    override_mode,
                                ) == Err::<
                                    (Option<PathV>, Option<Seq<char>>, Seq<RemoteV>, OverrideMode),
                                    (ErrorKind, int),
                                >((ErrorKind::DuplicatePropertyName, ch[i as int].pos_spec())));
                            }
                            return err_duplicate_property_name_at(child, content);
                        }
                        j = j + 1;
                    }
                    proof {
                        assert(!remote_name_taken(remotes_seq(remotes@), remote@.name)) by {
                            if exists|k: int|
                                0 <= k < remotes_seq(remotes@).len() && norm_spec(
                                    remotes_seq(remotes@)[k].name,
                                ) == norm_spec(remote@.name) {
                                let k = choose|k: int|
                                    0 <= k < remotes_seq(remotes@).len() && norm_spec(
                                        remotes_seq(remotes@)[k].name,
                                    ) == norm_spec(remote@.name);
                                assert(remotes_seq(remotes@)[k] == remotes@[k]@);
                            }
                        }
                        let ghost before = remotes_seq(remotes@);
                        assert(repo_block_spec(
                            ch,
                            i as int,
                            match path_opt {
                                Some(p) => Some(p@),
                                None => None,
                            },
                            match config {
                                Some(c) => Some(c@),
                                None => None,
                            },
                            before,
                            override_mode,
                        ) == repo_block_spec(
                            ch,
                            i + 1,
                            match path_opt {
                                Some(p) => Some(p@),
                                None => None,
                            },
                            match config {
                                Some(c) => Some(c@),
                                None => None,
                            },
                            before.push(remote@),
                            override_mode,
                        ));
                    }
                    let ghost before = remotes_seq(remotes@);
                    let ghost rv = remote@;
                    remotes.push(remote);
                    proof {
                        assert(remotes_seq(remotes@) =~= before.push(rv));
                    }
                } else {
                    return err_unexpected_property(
                        child,
                        content,
                        &[Keyword::Config, Keyword::Override, Keyword::RepoPath, Keyword::Remote],
                    );
                }
                i = i + 1;
            }
        } else {
            proof {
                assert(remotes_seq(remotes@) =~= Seq::<RemoteV>::empty());
            }
        }
        let path = match path_opt {
            Some(p) => p,
            None => {
                return err_missing_child_property(prop, content, Keyword::RepoPath);
            },
        };
        if remotes.len() == 0 {
            return err_missing_child_property(prop, content, Keyword::Remote);
        }
        Ok(
            Repo {
                position_: prop_position(prop),
                name_: name,
                name_normalized_: name_normalized,
                path_: path,
                config_: config,
                remotes_: remotes,
                override_mode_: override_mode,
            },
        )
    }
}

/// "Duplicate `<type>` \"`<name>`\"." for a remote child.
fn err_duplicate_property_name_at<T>(prop: &Property, content: &FileContent) -> (r: ParsingResult<
    T,
>)
    requires
        prop_ok(*prop, *content),
    ensures
        r is Err,
        err_of(r->Err_0, (ErrorKind::DuplicatePropertyName, prop.pos_spec())),
{
    super::err_duplicate_property_name(prop, content)
}

/// Interprets a `config` child property.
fn build_config(prop: &Property, content: &FileContent, existing: &Option<String>) -> (r:
    ParsingResult<String>)
    requires
        prop_ok(*prop, *content),
    ensures
        ({
            let s = build_config_spec(
                *prop,
                match existing {
                    Some(c) => Some(c@),
                    None => None,
                },
            );
            match r {
                Ok(v) => s is Ok && v@ == s->Ok_0,
                Err(e) => s is Err && err_of(e, s->Err_0),
            }
        }),
{
    if existing.is_some() {
        return err_duplicate_property_type(prop, content);
    }
    if prop.declaration.has_name() {
        return err_unexpected_name(prop, content);
    }
    match prop.value_str() {
        Some(v) => Ok(v.clone()),
        None => err_missing_value(prop, content),
    }
}

/// Interprets a `path` child property.
fn build_path(prop: &Property, content: &FileContent, existing: &Option<Path>) -> (r:
    ParsingResult<Path>)
    requires
        prop_ok(*prop, *content),
    ensures
        ({
            let s = build_repo_path_spec(
                *prop,
                match existing {
                    Some(p) => Some(p@),
                    None => None,
                },
            );
            match r {
                Ok(p) => s is Ok && p@ == s->Ok_0,
                Err(e) => s is Err && err_of(e, s->Err_0),
            }
        }),
{
    if existing.is_some() {
        return err_duplicate_property_type(prop, content);
    }
    if prop.declaration.has_name() {
        return err_unexpected_name(prop, content);
    }
    Path::build(prop, content, None)
}

/// Interprets a `remote` child property.
fn build_remote(prop: &Property, content: &FileContent) -> (r: ParsingResult<Remote>)
    requires
        prop_ok(*prop, *content),
    ensures
        ({
            let s = build_remote_spec(*prop);
            match r {
                Ok(rm) => s is Ok && rm@ == s->Ok_0,
                Err(e) => s is Err && err_of(e, s->Err_0),
            }
        }),
{
    let name: String = match prop.property_name() {
        Some(n) => n.clone(),
        None => "origin".to_owned(),
    };
    let url = match prop.value_str() {
        Some(v) => v.clone(),
        None => {
            return err_missing_value(prop, content);
        },
    };
    Ok(Remote { name, url })
}

} // verus!
