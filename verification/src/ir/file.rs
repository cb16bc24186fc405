//! The whole-file builder: validates the header property, dispatches each
//! body property to its builder by keyword, and then checks normalized
//! names for duplicates within each category.

use vstd::prelude::*;

use crate::content::FileContent;
use crate::error::{ErrorKind, ParsingError};
use crate::keywords::{keyword_of, keyword_of_seq, Keyword};
use crate::nodes;
use crate::nodes::Property;

use super::alias::{build_alias_spec, Alias, AliasV};
use super::inclusion::Include;
use super::prefix::{build_prefix_spec, Prefix, PrefixV};
use super::repo::{build_repo_spec, Repo, RepoV};
use super::{err_of, err_result, err_unexpected_block, err_unexpected_property,
    err_unexpected_value, prop_ok, prop_position, FileType, ParsingResult};

verus! {

/// The mathematical model of a built [`File`].
pub struct FileV {
    pub file_type: FileType,
    pub aliases: Seq<AliasV>,
    pub prefixes: Seq<PrefixV>,
    pub repos: Seq<RepoV>,
}

/// The models of the collected entities.
pub open spec fn alias_views(v: Seq<Alias>) -> Seq<AliasV> {
    v.map_values(|a: Alias| a@)
}

/// The models of the collected prefixes.
pub open spec fn prefix_views(v: Seq<Prefix>) -> Seq<PrefixV> {
    v.map_values(|p: Prefix| p@)
}

/// The models of the collected repos.
pub open spec fn repo_views(v: Seq<Repo>) -> Seq<RepoV> {
    v.map_values(|r: Repo| r@)
}

/// What validating the header means: the first property must declare the
/// expected file kind, with no value and no child properties.
pub open spec fn header_spec(p: Property, ft: FileType) -> Option<(ErrorKind, int)> {
    let want = match ft {
        FileType::Profile => "profile"@,
        FileType::Resource => "resource"@,
    };
    if p.type_seq() != want {
        Some((ErrorKind::InvalidHeader, p.pos_spec()))
    } else if p.value is Some {
        Some((ErrorKind::UnexpectedValue, p.pos_spec()))
    } else if p.block is Some {
        Some((ErrorKind::UnexpectedBlock, p.pos_spec()))
    } else {
        None
    }
}

/// What folding the body properties means: each is dispatched by its
/// keyword to the alias, prefix or repo builder; anything else is
/// rejected. (Include declarations are not interpreted; the builder
/// requires that none occur.)
pub open spec fn file_body_spec(
    props: Seq<Property>,
    i: int,
    al: Seq<AliasV>,
    pf: Seq<PrefixV>,
    rp: Seq<RepoV>,
) -> Result<(Seq<AliasV>, Seq<PrefixV>, Seq<RepoV>), (ErrorKind, int)>
    decreases props.len() - i,
{
    if i < 0 || i >= props.len() {
        Ok((al, pf, rp))
    } else {
        let c = props[i];
        match keyword_of_seq(c.type_seq()) {
            Some(Keyword::Alias) => match build_alias_spec(c) {
                Ok(a) => file_body_spec(props, i + 1, al.push(a), pf, rp),
                Err(e) => Err(e),
            },
            Some(Keyword::Prefix) => match build_prefix_spec(c) {
                Ok(p) => file_body_spec(props, i + 1, al, pf.push(p), rp),
                Err(e) => Err(e),
            },
            Some(Keyword::Repo) => match build_repo_spec(c) {
                Ok(r) => file_body_spec(props, i + 1, al, pf, rp.push(r)),
                Err(e) => Err(e),
            },
            _ => Err((ErrorKind::UnexpectedProperty, c.pos_spec())),
        }
    }
}

/// The first index `j` before `i` whose key is present and equal to key
/// `i`, if any.
pub open spec fn find_earlier(keys: Seq<(Option<Seq<char>>, int)>, i: int, j: int) -> Option<int>
    decreases i - j,
{
    if j < 0 || j >= i || i > keys.len() {
        None
    } else if keys[j].0 is Some && keys[j].0 == keys[i].0 {
        Some(j)
    } else {
        find_earlier(keys, i, j + 1)
    }
}

/// The first duplicate in scan order: the smallest `i` whose present key
/// repeats an earlier one, paired with the earliest such earlier index.
pub open spec fn first_dup(keys: Seq<(Option<Seq<char>>, int)>, i: int) -> Option<(int, int)>
    decreases keys.len() - i,
{
    if i < 0 || i >= keys.len() {
        None
    } else if keys[i].0 is Some && find_earlier(keys, i, 0) is Some {
        Some((i, find_earlier(keys, i, 0)->0))
    } else {
        first_dup(keys, i + 1)
    }
}

/// The uniqueness keys of each category.
pub open spec fn alias_keys(al: Seq<AliasV>) -> Seq<(Option<Seq<char>>, int)> {
    al.map_values(|a: AliasV| (Some(a.name_norm), a.pos))
}

/// The uniqueness keys of the prefixes.
pub open spec fn prefix_keys(pf: Seq<PrefixV>) -> Seq<(Option<Seq<char>>, int)> {
    pf.map_values(|p: PrefixV| (Some(p.name_norm), p.pos))
}

/// The uniqueness keys of the repos (unnamed repos have no key).
pub open spec fn repo_keys(rp: Seq<RepoV>) -> Seq<(Option<Seq<char>>, int)> {
    rp.map_values(|r: RepoV| (r.name_norm, r.pos))
}

/// What the cross-category duplicate check means: within each category —
/// aliases, then prefixes, then repos — normalized names must be unique;
/// the first duplicate fails at its own position.
pub open spec fn validate_ids_spec(
    al: Seq<AliasV>,
    pf: Seq<PrefixV>,
    rp: Seq<RepoV>,
) -> Option<(ErrorKind, int)> {
    if first_dup(alias_keys(al), 0) is Some {
        Some((ErrorKind::DuplicatePropertyName, alias_keys(al)[(first_dup(alias_keys(al), 0)->0).0].1))
    } else if first_dup(prefix_keys(pf), 0) is Some {
        Some(
            (
                ErrorKind::DuplicatePropertyName,
                prefix_keys(pf)[(first_dup(prefix_keys(pf), 0)->0).0].1,
            ),
        )
    } else if first_dup(repo_keys(rp), 0) is Some {
        Some((ErrorKind::DuplicatePropertyName, repo_keys(rp)[(first_dup(repo_keys(rp), 0)->0).0].1))
    } else {
        None
    }
}

/// What building a file means: header validation, body dispatch, then the
/// duplicate check.
pub open spec fn build_file_spec(fnode: nodes::File, ft: FileType) -> Result<
    FileV,
    (ErrorKind, int),
> {
    let props = fnode.property_list.properties@;
    if props.len() == 0 {
        Err((ErrorKind::InvalidHeader, 0))
    } else {
        match header_spec(props[0], ft) {
            Some(e) => Err(e),
            None => match file_body_spec(props, 1, Seq::empty(), Seq::empty(), Seq::empty()) {
                Err(e) => Err(e),
                Ok((al, pf, rp)) => match validate_ids_spec(al, pf, rp) {
                    Some(e) => Err(e),
                    None => Ok(FileV { file_type: ft, aliases: al, prefixes: pf, repos: rp }),
                },
            },
        }
    }
}

/// A validated file: the declarative model built from one source file.
#[derive(Debug)]
pub struct File {
    file_type_: FileType,
    aliases_: Vec<Alias>,
    includes_: Vec<Include>,
    prefixes_: Vec<Prefix>,
    repos_: Vec<Repo>,
}

impl View for File {
    type V = FileV;

    closed spec fn view(&self) -> FileV {
        FileV {
            file_type: self.file_type_,
            aliases: alias_views(self.aliases_@),
            prefixes: prefix_views(self.prefixes_@),
            repos: repo_views(self.repos_@),
        }
    }
}

impl File {
    /// Which kind of file this was interpreted as.
    pub fn file_type(&self) -> (r: FileType)
        ensures
            r == self@.file_type,
    {
        self.file_type_
    }

    /// The aliases, in declaration order.
    pub fn aliases(&self) -> (r: &Vec<Alias>)
        ensures
            alias_views(r@) == self@.aliases,
    {
        &self.aliases_
    }

    /// The includes. Include interpretation is a future extension point,
    /// so a built file holds none.
    pub fn includes(&self) -> (r: &Vec<Include>)
        ensures
            r@.len() == self.includes_seq_len(),
    {
        &self.includes_
    }

    /// The prefixes, in declaration order.
    pub fn prefixes(&self) -> (r: &Vec<Prefix>)
        ensures
            prefix_views(r@) == self@.prefixes,
    {
        &self.prefixes_
    }

    /// The repos, in declaration order.
    pub fn repos(&self) -> (r: &Vec<Repo>)
        ensures
            repo_views(r@) == self@.repos,
    {
        &self.repos_
    }

    /// Builds the validated model from a parsed tree.
    pub fn build(file_node: &nodes::File, file_type: FileType, content: &FileContent) -> (r:
        ParsingResult<File>)
        requires
            file_node.wf(),
            file_node.in_bounds(content.text_seq().len() as int),
            content.wf(),
        ensures
            ({
                let s = build_file_spec(*file_node, file_type);
                match r {
                    Ok(f) => s is Ok && f@ == s->Ok_0 && f.includes_wf(),
                    Err(e) => s is Err && err_of(e, s->Err_0),
                }
            }),
    {
        let ghost len = content.text_seq().len() as int;
        let ghost props = file_node.property_list.properties@;
        let properties = &file_node.property_list.properties;
        proof {
            assert(file_node.wf());
            assert(file_node.property_list.wf());
            assert(file_node.property_list.properties@.len() >= 1);
            assert(file_node.property_list.properties@[0].wf());
            assert(props[0].wf());
            assert(props[0].in_bounds(len));
        }
        let header = validate_header(&properties[0], file_type, content);
        if let Err(e) = header {
            return Err(e);
        }
        let mut aliases: Vec<Alias> = Vec::new();
        let mut prefixes: Vec<Prefix> = Vec::new();
        let mut repos: Vec<Repo> = Vec::new();
        let n = properties.len();
        let mut i: usize = 1;
        proof {
            assert(alias_views(aliases@) =~= Seq::<AliasV>::empty());
            assert(prefix_views(prefixes@) =~= Seq::<PrefixV>::empty());
            assert(repo_views(repos@) =~= Seq::<RepoV>::empty());
        }
        while i < n
            invariant
                file_node.wf(),
                file_node.in_bounds(len),
                content.wf(),
                len == content.text_seq().len() as int,
                props == file_node.property_list.properties@,
                n == props.len(),
                1 <= i <= n,
                header_spec(props[0], file_type) is None,
                file_body_spec(props, 1, Seq::empty(), Seq::empty(), Seq::empty())
                    == file_body_spec(
                    props,
                    i as int,
                    alias_views(aliases@),
                    prefix_views(prefixes@),
                    repo_views(repos@),
                ),
                forall|k: int|
                    0 <= k < aliases@.len() ==> 0 <= (#[trigger] aliases@[k])@.pos <= len,
                forall|k: int|
                    0 <= k < prefixes@.len() ==> 0 <= (#[trigger] prefixes@[k])@.pos <= len,
                forall|k: int| 0 <= k < repos@.len() ==> 0 <= (#[trigger] repos@[k])@.pos <= len,
            decreases n - i,
        {
            let prop = &file_node.property_list.properties[i];
            proof {
                assert(*prop == props[i as int]);
                assert(props[i as int].wf());
                assert(props[i as int].in_bounds(len));
                assert(props[i as int].pos_spec() <= len);
            }
            let kw = keyword_of(prop.property_type());
            if match kw {
                Some(Keyword::Alias) => true,
                _ => false,
            } {
                let alias = match Alias::build(prop, content) {
                    Ok(a) => a,
                    Err(e) => {
                        proof {
                            assert(file_body_spec(
                                props,
                                i as int,
                                alias_views(aliases@),
                                prefix_views(prefixes@),
                                repo_views(repos@),
                            ) is Err);
                        }
                        return Err(e);
                    },
                };
                let ghost before = alias_views(aliases@);
                let ghost av = alias@;
                aliases.push(alias);
                proof {
                    assert(alias_views(aliases@) =~= before.push(av));
                    assert(file_body_spec(
                        props,
                        i as int,
                        before,
                        prefix_views(prefixes@),
                        repo_views(repos@),
                    ) == file_body_spec(
                        props,
                        i + 1,
                        before.push(av),
                        prefix_views(prefixes@),
                        repo_views(repos@),
                    ));
                }
            } else if match kw {
                Some(Keyword::Prefix) => true,
                _ => false,
            } {
                let prefix = match Prefix::build(prop, content) {
                    Ok(p) => p,
                    Err(e) => {
                        proof {
                            assert(file_body_spec(
                                props,
                                i as int,
                                alias_views(aliases@),
                                prefix_views(prefixes@),
                                repo_views(repos@),
                            ) is Err);
                        }
                        return Err(e);
                    },
                };
                let ghost before = prefix_views(prefixes@);
                let ghost pv = prefix@;
                prefixes.push(prefix);
                proof {
                    assert(prefix_views(prefixes@) =~= before.push(pv));
                    assert(file_body_spec(
                        props,
                        i as int,
                        alias_views(aliases@),
                        before,
                        repo_views(repos@),
                    ) == file_body_spec(
                        props,
                        i + 1,
                        alias_views(aliases@),
                        before.push(pv),
                        repo_views(repos@),
                    ));
                }
            } else if match kw {
                Some(Keyword::Repo) => true,
                _ => false,
            } {
                let repo = match Repo::build(prop, content) {
                    Ok(p) => p,
                    Err(e) => {
                        proof {
                            assert(file_body_spec(
                                props,
                                i as int,
                                alias_views(aliases@),
                                prefix_views(prefixes@),
                                repo_views(repos@),
                            ) is Err);
                        }
                        return Err(e);
                    },
                };
                let ghost before = repo_views(repos@);
                let ghost rv = repo@;
                repos.push(repo);
                proof {
                    assert(repo_views(repos@) =~= before.push(rv));
                    assert(file_body_spec(
                        props,
                        i as int,
                        alias_views(aliases@),
                        prefix_views(prefixes@),
                        before,
                    ) == file_body_spec(
                        props,
                        i + 1,
                        alias_views(aliases@),
                        prefix_views(prefixes@),
                        before.push(rv),
                    ));
                }
            } else {
                proof {
                    assert(file_body_spec(
                        props,
                        i as int,
                        alias_views(aliases@),
                        prefix_views(prefixes@),
                        repo_views(repos@),
                    ) == Err::<(Seq<AliasV>, Seq<PrefixV>, Seq<RepoV>), (ErrorKind, int)>(
                        (ErrorKind::UnexpectedProperty, props[i as int].pos_spec()),
                    ));
                }
                return err_unexpected_property(
                    prop,
                    content,
                    &[Keyword::Alias, Keyword::Prefix, Keyword::Repo],
                );
            }
            i = i + 1;
        }
        let check = validate_identifiers(&aliases, &prefixes, &repos, content);
        if let Err(e) = check {
            return Err(e);
        }
        Ok(
            File {
                file_type_: file_type,
                aliases_: aliases,
                includes_: Vec::new(),
                prefixes_: prefixes,
                repos_: repos,
            },
        )
    }

    /// The includes list is empty (interpretation is a future extension
    /// point).
    pub open spec fn includes_wf(&self) -> bool {
        self.includes_seq_len() == 0
    }

    /// The number of includes held (always zero).
    pub closed spec fn includes_seq_len(&self) -> int {
        self.includes_@.len() as int
    }
}

/// Validates the header property: it must declare the expected file kind
/// and carry neither value nor child properties.
pub fn validate_header(prop: &Property, file_type: FileType, content: &FileContent) -> (r:
    ParsingResult<()>)
    requires
        prop_ok(*prop, *content),
    ensures
        ({
            let s = header_spec(*prop, file_type);
            match r {
                Ok(()) => s is None,
                Err(e) => s is Some && err_of(e, s->0),
            }
        }),
{
    let want: &str = match file_type {
        FileType::Profile => "profile",
        FileType::Resource => "resource",
    };
    if !(*prop.property_type() == want.to_owned()) {
        let m: String = match file_type {
            FileType::Profile => {
                "Your main MOT profile needs to be declared with the \"profile\" property at the beginning of the file.".to_owned()
            },
            FileType::Resource => {
                "Resource files pulled in by your profile must be declared with the \"resource\" property at the beginning of the resource file.".to_owned()
            },
        };
        return err_result(content, prop_position(prop), ErrorKind::InvalidHeader, m);
    }
    if prop.has_value() {
        return err_unexpected_value(prop, content);
    }
    if prop.has_block() {
        return err_unexpected_block(prop, content);
    }
    Ok(())
}

/// The view of a collected key list.
pub open spec fn keys_view(v: Seq<(Option<String>, usize)>) -> Seq<(Option<Seq<char>>, int)> {
    v.map_values(
        |p: (Option<String>, usize)|
            (
                match p.0 {
                    Some(s) => Some(s@),
                    None => None,
                },
                p.1 as int,
            ),
    )
}

/// Finds the first duplicate present key, scanning in order; the result
/// pairs the duplicate's index with the index of the earliest earlier
/// occurrence.
fn find_duplicate(keys: &Vec<(Option<String>, usize)>) -> (r: Option<(usize, usize)>)
    ensures
        match r {
            Some(d) => first_dup(keys_view(keys@), 0) == Some((d.0 as int, d.1 as int)) && d.0
                < keys@.len() && d.1 < d.0,
            None => first_dup(keys_view(keys@), 0) is None,
        },
{
    let ghost ks = keys_view(keys@);
    let n = keys.len();
    let mut i: usize = 0;
    while i < n
        invariant
            ks == keys_view(keys@),
            n == keys@.len(),
            i <= n,
            first_dup(ks, 0) == first_dup(ks, i as int),
        decreases n - i,
    {
        proof {
            assert(ks[i as int].0 == (match keys@[i as int].0 {
                Some(s) => Some(s@),
                None => None,
            }));
        }
        if keys[i].0.is_some() {
            let mut j: usize = 0;
            while j < i
                invariant
                    ks == keys_view(keys@),
                    n == keys@.len(),
                    j <= i < n,
                    ks[i as int].0 is Some,
                    keys@[i as int].0 is Some,
                    first_dup(ks, 0) == first_dup(ks, i as int),
                    find_earlier(ks, i as int, j as int) == find_earlier(ks, i as int, 0),
                decreases i - j,
            {
                proof {
                    assert(ks[j as int].0 == (match keys@[j as int].0 {
                        Some(s) => Some(s@),
                        None => None,
                    }));
                }
                let hit = match (&keys[j].0, &keys[i].0) {
                    (Some(a), Some(b)) => *a == *b,
                    _ => false,
                };
                if hit {
                    proof {
                        assert(find_earlier(ks, i as int, j as int) == Some(j as int));
                        assert(first_dup(ks, i as int) == Some((i as int, j as int)));
                    }
                    return Some((i, j));
                }
                proof {
                    assert(find_earlier(ks, i as int, j as int) == find_earlier(
                        ks,
                        i as int,
                        j + 1,
                    ));
                }
                j = j + 1;
            }
            proof {
                assert(find_earlier(ks, i as int, i as int) is None);
                assert(find_earlier(ks, i as int, 0) is None);
                assert(first_dup(ks, i as int) == first_dup(ks, i + 1));
            }
        } else {
            proof {
                assert(first_dup(ks, i as int) == first_dup(ks, i + 1));
            }
        }
        i = i + 1;
    }
    proof {
        assert(first_dup(ks, n as int) is None);
    }
    None
}

/// Checks normalized-name uniqueness within each category, reporting the
/// first duplicate at its own position, with the original's position in
/// the message.
fn validate_identifiers(
    aliases: &Vec<Alias>,
    prefixes: &Vec<Prefix>,
    repos: &Vec<Repo>,
    content: &FileContent,
) -> (r: ParsingResult<()>)
    requires
        content.wf(),
        forall|k: int|
            0 <= k < aliases@.len() ==> 0 <= (#[trigger] aliases@[k])@.pos
                <= content.text_seq().len(),
        forall|k: int|
            0 <= k < prefixes@.len() ==> 0 <= (#[trigger] prefixes@[k])@.pos
                <= content.text_seq().len(),
        forall|k: int|
            0 <= k < repos@.len() ==> 0 <= (#[trigger] repos@[k])@.pos <= content.text_seq().len(),
    ensures
        ({
            let s = validate_ids_spec(alias_views(aliases@), prefix_views(prefixes@), repo_views(repos@));
            match r {
                Ok(()) => s is None,
                Err(e) => s is Some && err_of(e, s->0),
            }
        }),
{
    let ghost alv = alias_views(aliases@);
    let ghost pfv = prefix_views(prefixes@);
    let ghost rpv = repo_views(repos@);
    let mut keys: Vec<(Option<String>, usize)> = Vec::new();
    let mut k: usize = 0;
    while k < aliases.len()
        invariant
            alv == alias_views(aliases@),
            k <= aliases@.len(),
            keys@.len() == k,
            keys_view(keys@) =~= alias_keys(alv).take(k as int),
        decreases aliases@.len() - k,
    {
        keys.push((Some(aliases[k].name_normalized().clone()), aliases[k].position()));
        proof {
            assert(keys_view(keys@) =~= alias_keys(alv).take(k + 1));
        }
        k = k + 1;
    }
    proof {
        assert(keys_view(keys@) =~= alias_keys(alv));
    }
    match find_duplicate(&keys) {
        Some((d, o)) => {
            proof {
                assert(alias_keys(alv)[d as int].1 == alv[d as int].pos);
                assert(alv[d as int] == aliases@[d as int]@);
            }
            let mut m = "Duplicate alias \"".to_owned();
            m.append(aliases[d].name().as_str());
            m.append("\".\n");
            proof {
                assert(aliases@[o as int]@.pos <= content.text_seq().len());
                content.lemma_wf();
            }
            let details = content.position_details(aliases[o].position());
            proof {
                if content.lines_seq().len() > 0 {
                    assert(content.lines_seq()[details.line_number as int] >= details.line_number);
                }
            }
            let line2 = ParsingError::fmt_position_line(content.filename().as_str(), &details);
            m.append(line2.as_str());
            return err_result(
                content,
                aliases[d].position(),
                ErrorKind::DuplicatePropertyName,
                m,
            );
        },
        None => {},
    }
    let mut keys2: Vec<(Option<String>, usize)> = Vec::new();
    let mut k2: usize = 0;
    while k2 < prefixes.len()
        invariant
            pfv == prefix_views(prefixes@),
            k2 <= prefixes@.len(),
            keys2@.len() == k2,
            keys_view(keys2@) =~= prefix_keys(pfv).take(k2 as int),
        decreases prefixes@.len() - k2,
    {
        keys2.push((Some(prefixes[k2].name_normalized().clone()), prefixes[k2].position()));
        proof {
            assert(keys_view(keys2@) =~= prefix_keys(pfv).take(k2 + 1));
        }
        k2 = k2 + 1;
    }
    proof {
        assert(keys_view(keys2@) =~= prefix_keys(pfv));
    }
    match find_duplicate(&keys2) {
        Some((d, o)) => {
            proof {
                assert(prefix_keys(pfv)[d as int].1 == pfv[d as int].pos);
                assert(pfv[d as int] == prefixes@[d as int]@);
            }
            let mut m = "Duplicate prefix \"".to_owned();
            m.append(prefixes[d].name().as_str());
            m.append("\".\n");
            proof {
                assert(prefixes@[o as int]@.pos <= content.text_seq().len());
                content.lemma_wf();
            }
            let details = content.position_details(prefixes[o].position());
            proof {
                if content.lines_seq().len() > 0 {
                    assert(content.lines_seq()[details.line_number as int] >= details.line_number);
                }
            }
            let line = ParsingError::fmt_position_line(content.filename().as_str(), &details);
            m.append(line.as_str());
            return err_result(
                content,
                prefixes[d].position(),
                ErrorKind::DuplicatePropertyName,
                m,
            );
        },
        None => {},
    }
    let mut keys3: Vec<(Option<String>, usize)> = Vec::new();
    let mut k3: usize = 0;
    while k3 < repos.len()
        invariant
            rpv == repo_views(repos@),
            k3 <= repos@.len(),
            keys3@.len() == k3,
            keys_view(keys3@) =~= repo_keys(rpv).take(k3 as int),
        decreases repos@.len() - k3,
    {
        let key: Option<String> = match repos[k3].name_normalized() {
            Some(n) => Some(n.clone()),
            None => None,
        };
        keys3.push((key, repos[k3].position()));
        proof {
            assert(keys_view(keys3@) =~= repo_keys(rpv).take(k3 + 1));
        }
        k3 = k3 + 1;
    }
    proof {
        assert(keys_view(keys3@) =~= repo_keys(rpv));
    }
    match find_duplicate(&keys3) {
        Some((d, o)) => {
            proof {
                assert(repo_keys(rpv)[d as int].1 == rpv[d as int].pos);
                assert(rpv[d as int] == repos@[d as int]@);
            }
            let mut m = "Duplicate repo".to_owned();
            match repos[d].name() {
                Some(name) => {
                    m.append(" \"");
                    m.append(name.as_str());
                    m.append("\"");
                },
                None => {},
            }
            m.append(".\n");
            proof {
                assert(repos@[o as int]@.pos <= content.text_seq().len());
                content.lemma_wf();
            }
            let details = content.position_details(repos[o].position());
            proof {
                if content.lines_seq().len() > 0 {
                    assert(content.lines_seq()[details.line_number as int] >= details.line_number);
                }
            }
            let line = ParsingError::fmt_position_line(content.filename().as_str(), &details);
            m.append(line.as_str());
            return err_result(
                content,
                repos[d].position(),
                ErrorKind::DuplicatePropertyName,
                m,
            );
        },
        None => {},
    }
    Ok(())
}

} // verus!
