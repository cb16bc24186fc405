//! A prefix: a named set of per-environment directory paths with an
//! optional override mode.

use vstd::prelude::*;

use crate::content::FileContent;
use crate::error::ErrorKind;
use crate::keywords::{keyword_of, keyword_of_seq, Keyword};
use crate::nodes::{Property, PropertyBlock};
use crate::text::{norm_spec, str_normalize};

use super::path::{build_path_spec, Path, PathV};
use super::{err_missing_child_property, err_missing_name, err_of, err_result,
    err_unexpected_property, override_spec, prop_ok, prop_position, build_override, OverrideMode,
    ParsingResult};

verus! {

/// The models of a sequence of paths.
pub open spec fn paths_seq(v: Seq<Path>) -> Seq<PathV> {
    v.map_values(|p: Path| p@)
}

/// The mathematical model of a [`Prefix`].
pub struct PrefixV {
    pub name: Seq<char>,
    pub name_norm: Seq<char>,
    pub paths: Seq<PathV>,
    pub mode: OverrideMode,
    pub pos: int,
}

/// A named prefix: one or more paths keyed by environment name, plus an
/// override mode.
#[derive(Debug)]
pub struct Prefix {
    position_: usize,
    name_: String,
    name_normalized_: String,
    paths_: Vec<Path>,
    override_mode_: OverrideMode,
}

impl View for Prefix {
    type V = PrefixV;

    closed spec fn view(&self) -> PrefixV {
        PrefixV {
            name: self.name_@,
            name_norm: self.name_normalized_@,
            paths: paths_seq(self.paths_@),
            mode: self.override_mode_,
            pos: self.position_ as int,
        }
    }
}

/// What folding a prefix's child properties means: `env` children add
/// paths in order, `override` children set the mode (at most once), and
/// any other keyword is rejected.
pub open spec fn prefix_block_spec(
    ch: Seq<Property>,
    i: int,
    paths: Seq<PathV>,
    mode: OverrideMode,
) -> Result<(Seq<PathV>, OverrideMode), (ErrorKind, int)>
    decreases ch.len() - i,
{
    if i < 0 || i >= ch.len() {
        Ok((paths, mode))
    } else {
        let c = ch[i];
        match keyword_of_seq(c.type_seq()) {
            Some(Keyword::Env) => match build_path_spec(c, c.name_seq()) {
                Ok(pv) => prefix_block_spec(ch, i + 1, paths.push(pv), mode),
                Err(e) => Err(e),
            },
            Some(Keyword::Override) => match override_spec(c, mode) {
                Ok(m) => prefix_block_spec(ch, i + 1, paths, m),
                Err(e) => Err(e),
            },
            _ => Err((ErrorKind::UnexpectedProperty, c.pos_spec())),
        }
    }
}

/// What checking a prefix's collected paths means: scanning in order, a
/// path whose normalized name is empty fails, and a path whose normalized
/// name repeats an earlier one fails.
pub open spec fn paths_check(paths: Seq<PathV>, i: int) -> Option<(ErrorKind, int)>
    decreases paths.len() - i,
{
    if i < 0 || i >= paths.len() {
        None
    } else if paths[i].name_norm.len() == 0 {
        Some((ErrorKind::MissingName, paths[i].pos))
    } else if exists|j: int| 0 <= j < i && paths[j].name_norm == paths[i].name_norm {
        Some((ErrorKind::DuplicatePropertyName, paths[i].pos))
    } else {
        paths_check(paths, i + 1)
    }
}

/// A prefix must end up with at least one path, every path named, and no
/// two paths sharing a normalized name.
pub open spec fn valid_paths_spec(paths: Seq<PathV>, prefix_pos: int) -> Option<(ErrorKind, int)> {
    if paths.len() == 0 {
        Some((ErrorKind::MissingChildProperty(Keyword::Env), prefix_pos))
    } else {
        paths_check(paths, 0)
    }
}

/// What building a prefix means: a non-empty name is required; an inline
/// value becomes the single default path; a block is folded by
/// [`prefix_block_spec`]; and the collected paths must pass
/// [`valid_paths_spec`].
pub open spec fn build_prefix_spec(p: Property) -> Result<PrefixV, (ErrorKind, int)> {
    let name = match p.name_seq() {
        Some(n) => n,
        None => Seq::empty(),
    };
    let nn = norm_spec(name);
    if nn.len() == 0 {
        Err((ErrorKind::MissingName, p.pos_spec()))
    } else {
        let base = if p.value_seq() is Some {
            match build_path_spec(p, None) {
                Ok(pv) => Ok((seq![pv], OverrideMode::Undefined)),
                Err(e) => Err(e),
            }
        } else if p.block is Some {
            prefix_block_spec(p.children_seq(), 0, Seq::empty(), OverrideMode::Undefined)
        } else {
            Ok((Seq::<PathV>::empty(), OverrideMode::Undefined))
        };
        match base {
            Err(e) => Err(e),
            Ok((paths, mode)) => match valid_paths_spec(paths, p.pos_spec()) {
                Some(e) => Err(e),
                None => Ok(PrefixV { name, name_norm: nn, paths, mode, pos: p.pos_spec() }),
            },
        }
    }
}

impl Prefix {
    /// The buffer offset of the property this prefix was built from.
    pub fn position(&self) -> (r: usize)
        ensures
            r as int == self@.pos,
    {
        self.position_
    }

    /// The prefix's name as declared.
    pub fn name(&self) -> (r: &String)
        ensures
            r@ == self@.name,
    {
        &self.name_
    }

    /// The normalized (trimmed, lower-cased) name, the uniqueness key.
    pub fn name_normalized(&self) -> (r: &String)
        ensures
            r@ == self@.name_norm,
    {
        &self.name_normalized_
    }

    /// The paths, in declaration order.
    pub fn paths(&self) -> (r: &Vec<Path>)
        ensures
            paths_seq(r@) == self@.paths,
    {
        &self.paths_
    }

    /// The override mode, or `Undefined` when none was declared.
    pub fn override_mode(&self) -> (r: OverrideMode)
        ensures
            r == self@.mode,
    {
        self.override_mode_
    }

    /// Builds a prefix from its property.
    pub fn build(prop: &Property, content: &FileContent) -> (r: ParsingResult<Prefix>)
        requires
            prop_ok(*prop, *content),
        ensures
            ({
                let s = build_prefix_spec(*prop);
                match r {
                    Ok(p) => s is Ok && p@ == s->Ok_0,
                    Err(e) => s is Err && err_of(e, s->Err_0),
                }
            }),
    {
        proof {
            reveal_strlit("");
            assert(""@ =~= Seq::<char>::empty());
        }
        let name: String = match prop.property_name() {
            Some(n) => n.clone(),
            None => "".to_owned(),
        };
        let name_normalized = str_normalize(name.as_str());
        if name_normalized.as_str().is_empty() {
            return err_missing_name(prop, content);
        }
        let mut paths: Vec<Path> = Vec::new();
        let mut override_mode = OverrideMode::Undefined;
        if prop.has_value() {
            let path = match Path::build(prop, content, None) {
                Ok(p) => p,
                Err(e) => {
                    return Err(e);
                },
            };
            paths.push(path);
            proof {
                assert(paths_seq(paths@) =~= seq![paths@[0]@]);
            }
        } else {
            match prop.block() {
                Some(block) => {
                    proof {
                        assert(paths_seq(paths@) =~= Seq::<PathV>::empty());
                    }
                    let res = build_from_block(block, content, &mut paths, &mut override_mode);
                    if let Err(e) = res {
                        return Err(e);
                    }
                },
                None => {
                    proof {
                        assert(paths_seq(paths@) =~= Seq::<PathV>::empty());
                    }
                },
            }
        }
        let check = assert_valid_paths(&paths, prop, content);
        if let Err(e) = check {
            return Err(e);
        }
        Ok(
            Prefix {
                position_: prop_position(prop),
                name_: name,
                name_normalized_: name_normalized,
                paths_: paths,
                override_mode_: override_mode,
            },
        )
    }
}

/// Folds a prefix block's child properties into the path list and the
/// override mode.
fn build_from_block(
    block: &PropertyBlock,
    content: &FileContent,
    paths: &mut Vec<Path>,
    override_mode: &mut OverrideMode,
) -> (r: ParsingResult<()>)
    requires
        content.wf(),
        block.wf(),
        block.in_bounds(content.text_seq().len() as int),
        forall|i: int|
            0 <= i < old(paths)@.len() ==> 0 <= (#[trigger] old(paths)@[i])@.pos
                <= content.text_seq().len(),
    ensures
        forall|i: int|
            0 <= i < final(paths)@.len() ==> 0 <= (#[trigger] final(paths)@[i])@.pos
                <= content.text_seq().len(),
        ({
            let s = prefix_block_spec(
                block.property_list.properties@,
                0,
                paths_seq(old(paths)@),
                *old(override_mode),
            );
            match r {
                Ok(()) => s == Ok::<(Seq<PathV>, OverrideMode), (ErrorKind, int)>(
                    (paths_seq(final(paths)@), *final(override_mode)),
                ),
                Err(e) => s is Err && err_of(e, s->Err_0),
            }
        }),
{
    let ghost ch = block.property_list.properties@;
    let ghost len = content.text_seq().len() as int;
    let n = block.property_list.properties.len();
    let mut i: usize = 0;
    while i < n
        invariant
            content.wf(),
            block.wf(),
            block.in_bounds(len),
            len == content.text_seq().len() as int,
            ch == block.property_list.properties@,
            n == ch.len(),
            i <= n,
            forall|k: int|
                0 <= k < paths@.len() ==> 0 <= (#[trigger] paths@[k])@.pos
                    <= content.text_seq().len(),
            prefix_block_spec(ch, 0, paths_seq(old(paths)@), *old(override_mode))
                == prefix_block_spec(ch, i as int, paths_seq(paths@), *override_mode),
        decreases n - i,
    {
        let child = &block.property_list.properties[i];
        proof {
            assert(*child == ch[i as int]);
            assert(block.property_list.wf());
            assert(ch[i as int].wf());
            assert(block.property_list.in_bounds(len));
            assert(ch[i as int].in_bounds(len));
        }
        let kw = keyword_of(child.property_type());
        if match kw {
            Some(Keyword::Env) => true,
            _ => false,
        } {
            let name_arg = child.property_name();
            proof {
                assert((match name_arg {
                    Some(n) => Some(n@),
                    None => None,
                }) == ch[i as int].name_seq());
            }
            let path = match Path::build(child, content, name_arg) {
                Ok(p) => p,
                Err(e) => {
                    return Err(e);
                },
            };
            let ghost before = paths_seq(paths@);
            paths.push(path);
            proof {
                assert(paths_seq(paths@) =~= before.push(path@));
                assert(prefix_block_spec(ch, i as int, before, *override_mode)
                    == prefix_block_spec(ch, i + 1, before.push(path@), *override_mode));
            }
        } else if match kw {
            Some(Keyword::Override) => true,
            _ => false,
        } {
            let m = match build_override(child, content, *override_mode) {
                Ok(m) => m,
                Err(e) => {
                    return Err(e);
                },
            };
            proof {
                assert(prefix_block_spec(ch, i as int, paths_seq(paths@), *override_mode)
                    == prefix_block_spec(ch, i + 1, paths_seq(paths@), m));
            }
            *override_mode = m;
        } else {
            return err_unexpected_property(child, content, &[Keyword::Env, Keyword::Override]);
        }
        i = i + 1;
    }
    Ok(())
}

/// Checks the collected paths of a prefix: at least one, all named, no
/// duplicate normalized names.
fn assert_valid_paths(paths: &Vec<Path>, prop: &Property, content: &FileContent) -> (r:
    ParsingResult<()>)
    requires
        prop_ok(*prop, *content),
        forall|i: int| 0 <= i < paths@.len() ==> 0 <= (#[trigger] paths@[i])@.pos
            <= content.text_seq().len(),
    ensures
        ({
            let s = valid_paths_spec(paths_seq(paths@), prop.pos_spec());
            match r {
                Ok(()) => s is None,
                Err(e) => s is Some && err_of(e, s->0),
            }
        }),
{
    let ghost ps = paths_seq(paths@);
    if paths.len() == 0 {
        return err_missing_child_property(prop, content, Keyword::Env);
    }
    let n = paths.len();
    let mut i: usize = 0;
    while i < n
        invariant
            n == paths@.len(),
            ps == paths_seq(paths@),
            i <= n,
            prop_ok(*prop, *content),
            forall|k: int| 0 <= k < paths@.len() ==> 0 <= (#[trigger] paths@[k])@.pos
                <= content.text_seq().len(),
            paths_check(ps, 0) == paths_check(ps, i as int),
            n > 0,
        decreases n - i,
    {
        if paths[i].name_normalized().as_str().is_empty() {
            proof {
                assert(ps[i as int] == paths@[i as int]@);
            }
            let m = "Path name must not be empty.".to_owned();
            return err_result(content, paths[i].position(), ErrorKind::MissingName, m);
        }
        let mut j: usize = 0;
        while j < i
            invariant
                n == paths@.len(),
                ps == paths_seq(paths@),
                j <= i < n,
                prop_ok(*prop, *content),
                ps[i as int].name_norm.len() != 0,
                paths_check(ps, 0) == paths_check(ps, i as int),
                forall|k: int| 0 <= k < paths@.len() ==> 0 <= (#[trigger] paths@[k])@.pos
                    <= content.text_seq().len(),
                forall|k: int| 0 <= k < j ==> (#[trigger] ps[k]).name_norm != ps[i as int].name_norm,
            decreases i - j,
        {
            if *paths[j].name_normalized() == *paths[i].name_normalized() {
                proof {
                    assert(ps[j as int] == paths@[j as int]@);
                    assert(ps[i as int] == paths@[i as int]@);
                    assert(0 <= j < i && ps[j as int].name_norm == ps[i as int].name_norm);
                    assert(exists|k: int|
                        0 <= k < i && ps[k].name_norm == ps[i as int].name_norm);
                    assert(paths_check(ps, i as int) == Some(
                        (ErrorKind::DuplicatePropertyName, ps[i as int].pos),
                    ));
                }
                let mut m = "Duplicate path \"".to_owned();
                m.append(paths[i].name().as_str());
                m.append("\".");
                return err_result(
                    content,
                    paths[i].position(),
                    ErrorKind::DuplicatePropertyName,
                    m,
                );
            }
            j = j + 1;
        }
        proof {
            assert(ps[i as int] == paths@[i as int]@);
            assert(!(exists|k: int|
                0 <= k < i && ps[k].name_norm == ps[i as int].name_norm));
            assert(paths_check(ps, i as int) == paths_check(ps, i + 1));
        }
        i = i + 1;
    }
    proof {
        assert(paths_check(ps, n as int) is None);
    }
    Ok(())
}

} // verus!
