//! POSIX-style paths, modelled as a sequence of name components together
//! with a flag saying whether the path is absolute.
//!
//! The bundling engine only ever needs to strip a leading root, append
//! components, and render a path for display, so a component list is the
//! whole of what the logic reads from a path.
use vstd::prelude::*;
use vstd::string::*;

verus! {

/// Mathematical model of a path: each component is a sequence of characters.
pub ghost struct PathModel {
    pub absolute: bool,
    pub comps: Seq<Seq<char>>,
}

/// A POSIX-style path: `absolute` says whether it begins at the filesystem
/// root; `comps` holds the name components in order, root excluded.
#[derive(Debug, PartialEq, Eq)]
pub struct FsPath {
    pub absolute: bool,
    pub comps: Vec<String>,
}

impl View for FsPath {
    type V = PathModel;

    open spec fn view(&self) -> PathModel {
        PathModel { absolute: self.absolute, comps: self.comps.deep_view() }
    }
}

/// The mirrored destination of `source` under `root`: the source's root
/// component (if any) is stripped and what remains is joined onto `root`.
/// A source with no root component is joined unchanged, as a defensive
/// fallback.  Either way the result appends the source's components to the
/// root's.
pub open spec fn map_spec(source: PathModel, root: PathModel) -> PathModel {
    PathModel { absolute: root.absolute, comps: root.comps + source.comps }
}

/// `anc` is `desc` itself or one of its ancestors: the two agree on
/// absoluteness and `anc`'s components are a prefix of `desc`'s.
pub open spec fn is_ancestor_of(anc: PathModel, desc: PathModel) -> bool {
    &&& anc.absolute == desc.absolute
    &&& anc.comps.len() <= desc.comps.len()
    &&& anc.comps =~= desc.comps.subrange(0, anc.comps.len() as int)
}

impl FsPath {
    /// Appends one name component.
    pub fn push(&mut self, name: String)
        ensures
            final(self)@ == (PathModel {
                absolute: old(self)@.absolute,
                comps: old(self)@.comps.push(name@),
            }),
    {
        self.comps.push(name);
        proof {
            assert(self@.comps =~= old(self)@.comps.push(name@));
        }
    }

    /// A copy with the same view.
    pub fn duplicate(&self) -> (r: FsPath)
        ensures
            r@ == self@,
    {
        let mut comps: Vec<String> = Vec::new();
        let mut i: usize = 0;
        while i < self.comps.len()
            invariant
                i <= self.comps.len(),
                comps.deep_view() =~= self@.comps.subrange(0, i as int),
            decreases self.comps.len() - i,
        {
            let ghost prev = comps.deep_view();
            let c = self.comps[i].clone();
            proof {
                assert(c@ == self@.comps[i as int]);
            }
            comps.push(c);
            proof {
                assert(comps.deep_view() =~= prev.push(self@.comps[i as int]));
                assert(self@.comps.subrange(0, i as int + 1) =~= self@.comps.subrange(
                    0,
                    i as int,
                ).push(self@.comps[i as int]));
            }
            i += 1;
        }
        let r = FsPath { absolute: self.absolute, comps };
        proof {
            assert(r@.comps =~= self@.comps);
        }
        r
    }

    /// The path without its final component; `None` when there is none.
    pub fn parent(&self) -> (r: Option<FsPath>)
        ensures
            match r {
                Some(p) => self@.comps.len() > 0 && p@ == (PathModel {
                    absolute: self@.absolute,
                    comps: self@.comps.drop_last(),
                }),
                None => self@.comps.len() == 0,
            },
    {
        if self.comps.len() == 0 {
            None
        } else {
            let mut p = self.duplicate();
            p.comps.pop();
            proof {
                assert(p@.comps =~= self@.comps.drop_last());
            }
            Some(p)
        }
    }
}

/// `p` with `suffix` appended to its final component (or `suffix` as the
/// only component, when `p` has none), as rendering the path, appending
/// the suffix to the rendered text and reading it back would do.
pub open spec fn append_to_last_spec(p: PathModel, suffix: Seq<char>) -> PathModel {
    if p.comps.len() == 0 {
        PathModel { absolute: p.absolute, comps: seq![suffix] }
    } else {
        PathModel {
            absolute: p.absolute,
            comps: p.comps.update(p.comps.len() - 1, p.comps.last() + suffix),
        }
    }
}

/// Appends `suffix` to the final component of `p`.
pub fn append_to_last(p: &FsPath, suffix: &str) -> (r: FsPath)
    ensures
        r@ == append_to_last_spec(p@, suffix@),
{
    let mut r = p.duplicate();
    match r.comps.pop() {
        None => {
            let mut name = String::new();
            name.append(suffix);
            r.comps.push(name);
            proof {
                assert(r@.comps =~= append_to_last_spec(p@, suffix@).comps);
            }
        },
        Some(last) => {
            let mut name = last;
            name.append(suffix);
            r.comps.push(name);
            proof {
                assert(r@.comps =~= append_to_last_spec(p@, suffix@).comps);
            }
        },
    }
    r
}

/// Computes the mirrored destination of `source` under `backup_root`:
/// `source`'s root component is stripped and the remaining components are
/// joined, in order, onto `backup_root`.
pub fn build_full_backup_path(source: &FsPath, backup_root: &FsPath) -> (r: FsPath)
    ensures
        r@ == map_spec(source@, backup_root@),
{
    let mut r = backup_root.duplicate();
    let mut i: usize = 0;
    while i < source.comps.len()
        invariant
            i <= source.comps.len(),
            r@.absolute == backup_root@.absolute,
            r@.comps =~= backup_root@.comps + source@.comps.subrange(0, i as int),
        decreases source.comps.len() - i,
    {
        r.push(source.comps[i].clone());
        i += 1;
    }
    proof {
        assert(r@.comps =~= backup_root@.comps + source@.comps);
    }
    r
}

/// The components joined with `/` between them.
pub open spec fn join_comps(comps: Seq<Seq<char>>) -> Seq<char>
    decreases comps.len(),
{
    if comps.len() == 0 {
        Seq::empty()
    } else if comps.len() == 1 {
        comps.last()
    } else {
        join_comps(comps.drop_last()) + seq!['/'] + comps.last()
    }
}

/// The rendered POSIX form of a path: its components joined with `/`,
/// behind a leading `/` when the path is absolute.
pub open spec fn display_spec(p: PathModel) -> Seq<char> {
    if p.absolute {
        seq!['/'] + join_comps(p.comps)
    } else {
        join_comps(p.comps)
    }
}

/// Renders a path in POSIX form.
pub fn to_display_string(p: &FsPath) -> (r: String)
    ensures
        r@ == display_spec(p@),
{
    let mut s = String::new();
    proof {
        reveal_strlit("/");
    }
    if p.absolute {
        s.append("/");
    }
    let mut i: usize = 0;
    while i < p.comps.len()
        invariant
            i <= p.comps.len(),
            "/"@ == seq!['/'],
            s@ == (if p@.absolute {
                seq!['/']
            } else {
                Seq::<char>::empty()
            }) + join_comps(p@.comps.subrange(0, i as int)),
        decreases p.comps.len() - i,
    {
        let ghost pre = p@.comps.subrange(0, i as int);
        let ghost post = p@.comps.subrange(0, i as int + 1);
        proof {
            assert(post.drop_last() =~= pre);
            assert(post.last() == p@.comps[i as int]);
        }
        if i > 0 {
            s.append("/");
        }
        s.append(p.comps[i].as_str());
        proof {
            if i == 0 {
                assert(join_comps(post) == post.last());
            }
            assert(s@ =~= (if p@.absolute {
                seq!['/']
            } else {
                Seq::<char>::empty()
            }) + join_comps(post));
        }
        i += 1;
    }
    proof {
        assert(p@.comps.subrange(0, p@.comps.len() as int) =~= p@.comps);
        assert("/"@ =~= seq!['/']);
    }
    s
}

/// The mirrored destination is a pure function of the source path and the
/// root: any two calls of `build_full_backup_path` on the same source and
/// root yield paths with the same view.
pub proof fn lemma_map_deterministic(source: FsPath, root: FsPath, r1: FsPath, r2: FsPath)
    requires
        call_ensures(build_full_backup_path, (&source, &root), r1),
        call_ensures(build_full_backup_path, (&source, &root), r2),
    ensures
        r1@ == r2@,
{
}

/// Mapping preserves the ancestor relation: when `p1` is an ancestor of
/// `p2`, the mirrored destination of `p1` is an ancestor of the mirrored
/// destination of `p2`, under any root.
pub proof fn lemma_map_preserves_prefix(p1: PathModel, p2: PathModel, root: PathModel)
    requires
        is_ancestor_of(p1, p2),
    ensures
        is_ancestor_of(map_spec(p1, root), map_spec(p2, root)),
{
    let m1 = map_spec(p1, root);
    let m2 = map_spec(p2, root);
    assert(m1.comps =~= m2.comps.subrange(0, m1.comps.len() as int));
}

} // verus!
