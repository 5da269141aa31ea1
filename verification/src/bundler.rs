//! The bundling engine: plans the reconstruction of source trees under a
//! timestamped staging root.
//!
//! The engine is pure.  The caller classifies real filesystem entries,
//! enumerates directories one level at a time, and feeds what it finds to a
//! [`Walk`]; the walk answers with [`Action`]s — directories to create,
//! files to copy, entries skipped with a diagnostic — which the caller then
//! performs.  Outcomes of the copies are fed back to [`summarize`], which
//! builds the run's report; a failed copy is a warning, never an abort.
use crate::paths::{build_full_backup_path, map_spec, FsPath, PathModel};
use crate::timestamp::{bundled_name_spec, generate_bundled_name, Timestamp};
use vstd::prelude::*;

verus! {

/// Classification of a filesystem object: only regular files and
/// directories are eligible for copying.
#[derive(Clone, Copy, PartialEq, Eq, Structural, Debug)]
pub enum EntryKind {
    RegularFile,
    Directory,
    Other,
}

/// Violation of the file-copy contract: the copy primitive was handed a
/// directory, which indicates a bug in the dispatch, not a user condition.
#[derive(Clone, Copy, PartialEq, Eq, Structural, Debug)]
pub enum CopyError {
    NotAFile,
}

/// Rejection of a whole source path at the bundling boundary.
#[derive(Clone, Copy, PartialEq, Eq, Structural, Debug)]
pub enum BundleError {
    NotAbsolute,
}

/// One child found when a directory is enumerated, one level deep.  A
/// subdirectory carries its canonicalized (symlink-resolved) path, which
/// the self-reference guard compares against the parent's.
#[derive(Debug, PartialEq, Eq)]
pub enum ChildEntry {
    File { name: String },
    Dir { name: String, canon: String },
    Other { name: String },
}

/// Model of a [`ChildEntry`].
pub ghost enum ChildModel {
    File { name: Seq<char> },
    Dir { name: Seq<char>, canon: Seq<char> },
    Other { name: Seq<char> },
}

impl View for ChildEntry {
    type V = ChildModel;

    open spec fn view(&self) -> ChildModel {
        match self {
            ChildEntry::File { name } => ChildModel::File { name: name@ },
            ChildEntry::Dir { name, canon } => ChildModel::Dir { name: name@, canon: canon@ },
            ChildEntry::Other { name } => ChildModel::Other { name: name@ },
        }
    }
}

/// One step of filesystem work that the caller is asked to perform.
/// `Skip` records an entry passed over with a diagnostic: a non-regular
/// file, or a path with no final component.
#[derive(Debug, PartialEq, Eq)]
pub enum Action {
    CreateDir { dest: FsPath },
    CopyFile { source: FsPath, dest: FsPath },
    Skip { source: FsPath },
}

/// Model of an [`Action`].
pub ghost enum ActionModel {
    CreateDir { dest: PathModel },
    CopyFile { source: PathModel, dest: PathModel },
    Skip { source: PathModel },
}

impl View for Action {
    type V = ActionModel;

    open spec fn view(&self) -> ActionModel {
        match self {
            Action::CreateDir { dest } => ActionModel::CreateDir { dest: dest@ },
            Action::CopyFile { source, dest } => ActionModel::CopyFile {
                source: source@,
                dest: dest@,
            },
            Action::Skip { source } => ActionModel::Skip { source: source@ },
        }
    }
}

/// A directory waiting to be enumerated, with its canonicalized path.
#[derive(Debug, PartialEq, Eq)]
pub struct PendingDir {
    pub source: FsPath,
    pub canon: String,
}

/// Model of a [`PendingDir`].
pub ghost struct PendingModel {
    pub source: PathModel,
    pub canon: Seq<char>,
}

impl View for PendingDir {
    type V = PendingModel;

    open spec fn view(&self) -> PendingModel {
        PendingModel { source: self.source@, canon: self.canon@ }
    }
}

/// The views of a sequence's elements, in order.
pub open spec fn views_of<T: View>(s: Seq<T>) -> Seq<T::V> {
    Seq::new(s.len(), |i: int| s[i]@)
}

/// The source or destination path of a directory's child: the child's name
/// appended to the directory's path.
pub open spec fn child_path(dir: PathModel, name: Seq<char>) -> PathModel {
    PathModel { absolute: dir.absolute, comps: dir.comps.push(name) }
}

/// The actions that one enumerated directory level contributes, in child
/// order: a copy into `dest` for each regular file, a diagnostic skip for
/// each non-regular entry, nothing for subdirectories (their own level
/// contributes theirs).
pub open spec fn dir_step_actions(
    dir: PathModel,
    dest: PathModel,
    children: Seq<ChildModel>,
) -> Seq<ActionModel>
    decreases children.len(),
{
    if children.len() == 0 {
        Seq::empty()
    } else {
        let rest = dir_step_actions(dir, dest, children.drop_last());
        match children.last() {
            ChildModel::File { name } => rest.push(
                ActionModel::CopyFile {
                    source: child_path(dir, name),
                    dest: child_path(dest, name),
                },
            ),
            ChildModel::Dir { .. } => rest,
            ChildModel::Other { name } => rest.push(
                ActionModel::Skip { source: child_path(dir, name) },
            ),
        }
    }
}

/// The subdirectories that one enumerated directory level schedules for
/// later walking: every child directory except those whose canonicalized
/// path equals the parent's own, which would walk the parent again.
pub open spec fn dir_step_pushes(dir: PendingModel, children: Seq<ChildModel>) -> Seq<PendingModel>
    decreases children.len(),
{
    if children.len() == 0 {
        Seq::empty()
    } else {
        let rest = dir_step_pushes(dir, children.drop_last());
        match children.last() {
            ChildModel::Dir { name, canon } => if canon != dir.canon {
                rest.push(PendingModel { source: child_path(dir.source, name), canon })
            } else {
                rest
            },
            _ => rest,
        }
    }
}

/// Plans the copy of one non-directory entry into `dest_dir`.  A directory
/// is a contract violation; a regular file yields a copy under its own
/// name; anything else — a non-regular entry, or a path with no final
/// component — is skipped with a diagnostic.
pub fn plan_file_copy(source: &FsPath, kind: EntryKind, dest_dir: &FsPath) -> (r: Result<
    Action,
    CopyError,
>)
    ensures
        r is Err <==> kind is Directory,
        r matches Err(e) ==> e == CopyError::NotAFile,
        kind is RegularFile && source@.comps.len() > 0 ==> (r matches Ok(a) && a@
            == (ActionModel::CopyFile {
            source: source@,
            dest: child_path(dest_dir@, source@.comps.last()),
        })),
        kind is Other || (kind is RegularFile && source@.comps.len() == 0) ==> (r matches Ok(a)
            && a@ == (ActionModel::Skip { source: source@ })),
{
    match kind {
        EntryKind::Directory => Err(CopyError::NotAFile),
        EntryKind::Other => Ok(Action::Skip { source: source.duplicate() }),
        EntryKind::RegularFile => {
            if source.comps.len() == 0 {
                Ok(Action::Skip { source: source.duplicate() })
            } else {
                let name = source.comps[source.comps.len() - 1].clone();
                let mut dest = dest_dir.duplicate();
                dest.push(name);
                Ok(Action::CopyFile { source: source.duplicate(), dest })
            }
        },
    }
}

/// Model of a [`Walk`].
pub ghost struct WalkModel {
    pub root: PathModel,
    pub pending: Seq<PendingModel>,
    pub actions: Seq<ActionModel>,
}

/// The state of one bundling run: the staging root for the run, the stack
/// of directories still to enumerate, and the actions planned so far.
#[derive(Debug)]
pub struct Walk {
    pub root: FsPath,
    pub pending: Vec<PendingDir>,
    pub actions: Vec<Action>,
}

impl View for Walk {
    type V = WalkModel;

    open spec fn view(&self) -> WalkModel {
        WalkModel {
            root: self.root@,
            pending: views_of(self.pending@),
            actions: views_of(self.actions@),
        }
    }
}

impl Walk {
    /// Begins one bundling run for a single source path.  A relative source
    /// is rejected outright.  An absolute source yields the run's
    /// timestamped staging root and the initial plan: a directory is
    /// scheduled for walking; a regular file is copied to its mirrored
    /// destination under a created parent; any other entry is skipped with
    /// a diagnostic.
    pub fn begin(
        source: &FsPath,
        kind: EntryKind,
        canon: String,
        backup_base: &FsPath,
        t: &Timestamp,
    ) -> (r: Result<Walk, BundleError>)
        requires
            t.wf(),
        ensures
            r is Err <==> !source@.absolute,
            r matches Err(e) ==> e == BundleError::NotAbsolute,
            r matches Ok(w) ==> {
                let root = bundled_name_spec(backup_base@, *t);
                let dest = map_spec(source@, root);
                &&& w@.root == root
                &&& match kind {
                    EntryKind::Directory => w@.pending == seq![
                        PendingModel { source: source@, canon: canon@ },
                    ] && w@.actions == Seq::<ActionModel>::empty(),
                    EntryKind::RegularFile => w@.pending == Seq::<PendingModel>::empty() && (
                    if source@.comps.len() > 0 {
                        w@.actions == seq![
                            ActionModel::CreateDir {
                                dest: (PathModel {
                                    absolute: dest.absolute,
                                    comps: dest.comps.drop_last(),
                                }),
                            },
                            ActionModel::CopyFile { source: source@, dest },
                        ]
                    } else {
                        w@.actions == seq![ActionModel::Skip { source: source@ }]
                    }),
                    EntryKind::Other => w@.pending == Seq::<PendingModel>::empty() && w@.actions
                        == seq![ActionModel::Skip { source: source@ }],
                }
            },
    {
        if !source.absolute {
            return Err(BundleError::NotAbsolute);
        }
        let root = generate_bundled_name(backup_base, t);
        let mut w = Walk { root, pending: Vec::new(), actions: Vec::new() };
        match kind {
            EntryKind::Directory => {
                w.pending.push(PendingDir { source: source.duplicate(), canon });
                proof {
                    assert(w@.pending =~= seq![
                        PendingModel { source: source@, canon: canon@ },
                    ]);
                    assert(w@.actions =~= Seq::<ActionModel>::empty());
                }
            },
            EntryKind::RegularFile => {
                if source.comps.len() > 0 {
                    let dest = build_full_backup_path(source, &w.root);
                    proof {
                        assert(dest@.comps.len() > 0);
                    }
                    match dest.parent() {
                        Some(parent) => {
                            match plan_file_copy(source, kind, &parent) {
                                Ok(a) => {
                                    proof {
                                        assert(child_path(parent@, source@.comps.last()).comps
                                            =~= dest@.comps);
                                    }
                                    w.actions.push(Action::CreateDir { dest: parent });
                                    w.actions.push(a);
                                },
                                Err(_) => {},
                            }
                        },
                        None => {},
                    }
                    proof {
                        assert(w@.pending =~= Seq::<PendingModel>::empty());
                        assert(w@.actions =~= seq![
                            ActionModel::CreateDir {
                                dest: (PathModel {
                                    absolute: dest@.absolute,
                                    comps: dest@.comps.drop_last(),
                                }),
                            },
                            ActionModel::CopyFile { source: source@, dest: dest@ },
                        ]);
                    }
                } else {
                    w.actions.push(Action::Skip { source: source.duplicate() });
                    proof {
                        assert(w@.pending =~= Seq::<PendingModel>::empty());
                        assert(w@.actions =~= seq![ActionModel::Skip { source: source@ }]);
                    }
                }
            },
            EntryKind::Other => {
                w.actions.push(Action::Skip { source: source.duplicate() });
                proof {
                    assert(w@.pending =~= Seq::<PendingModel>::empty());
                    assert(w@.actions =~= seq![ActionModel::Skip { source: source@ }]);
                }
            },
        }
        Ok(w)
    }

    /// True when no directory remains to be enumerated.
    pub fn done(&self) -> (r: bool)
        ensures
            r == (self@.pending.len() == 0),
    {
        self.pending.len() == 0
    }

    /// The source path of the directory the caller should enumerate next.
    pub fn next_source(&self) -> (r: Option<FsPath>)
        ensures
            match r {
                Some(p) => self@.pending.len() > 0 && p@ == self@.pending.last().source,
                None => self@.pending.len() == 0,
            },
    {
        if self.pending.len() == 0 {
            None
        } else {
            Some(self.pending[self.pending.len() - 1].source.duplicate())
        }
    }

    /// Consumes one enumerated directory level: the directory on top of the
    /// stack is replaced by its non-self-referential subdirectories, and
    /// the level's actions are appended — its mirrored destination is
    /// created, each regular file is copied there under its own name, and
    /// each non-regular entry is skipped with a diagnostic.
    pub fn process_dir(&mut self, children: Vec<ChildEntry>)
        requires
            old(self)@.pending.len() > 0,
        ensures
            final(self)@.root == old(self)@.root,
            final(self)@.pending == old(self)@.pending.drop_last() + dir_step_pushes(
                old(self)@.pending.last(),
                views_of(children@),
            ),
            final(self)@.actions == old(self)@.actions + seq![
                ActionModel::CreateDir {
                    dest: map_spec(old(self)@.pending.last().source, old(self)@.root),
                },
            ] + dir_step_actions(
                old(self)@.pending.last().source,
                map_spec(old(self)@.pending.last().source, old(self)@.root),
                views_of(children@),
            ),
    {
        let ghost d = old(self)@.pending.last();
        let dir = self.pending.pop().unwrap();
        proof {
            assert(dir@ == d);
            assert(views_of(self.pending@) =~= old(self)@.pending.drop_last());
        }
        let dest = build_full_backup_path(&dir.source, &self.root);
        let ghost dest_m = dest@;
        self.actions.push(Action::CreateDir { dest: dest.duplicate() });
        proof {
            assert(views_of(self.actions@) =~= old(self)@.actions + seq![
                ActionModel::CreateDir { dest: dest_m },
            ]);
        }
        let mut i: usize = 0;
        while i < children.len()
            invariant
                i <= children.len(),
                self@.root == old(self)@.root,
                dest_m == map_spec(d.source, old(self)@.root),
                dest@ == dest_m,
                dir@ == d,
                self@.pending =~= old(self)@.pending.drop_last() + dir_step_pushes(
                    d,
                    views_of(children@).subrange(0, i as int),
                ),
                self@.actions =~= old(self)@.actions + seq![
                    ActionModel::CreateDir { dest: dest_m },
                ] + dir_step_actions(
                    d.source,
                    dest_m,
                    views_of(children@).subrange(0, i as int),
                ),
            decreases children.len() - i,
        {
            let ghost pre = views_of(children@).subrange(0, i as int);
            let ghost post = views_of(children@).subrange(0, i as int + 1);
            let ghost pend0 = self.pending@;
            let ghost act0 = self.actions@;
            proof {
                assert(post.drop_last() =~= pre);
                assert(post.last() == children@[i as int]@);
            }
            match &children[i] {
                ChildEntry::File { name } => {
                    proof {
                        assert(children@[i as int]@ == (ChildModel::File { name: name@ }));
                    }
                    let mut src = dir.source.duplicate();
                    src.push(name.clone());
                    let ghost a_m = ActionModel::CopyFile {
                        source: child_path(d.source, name@),
                        dest: child_path(dest_m, name@),
                    };
                    proof {
                        assert(src@.comps.last() == name@);
                        assert(dir_step_actions(d.source, dest_m, post) == dir_step_actions(
                            d.source,
                            dest_m,
                            pre,
                        ).push(a_m));
                    }
                    match plan_file_copy(&src, EntryKind::RegularFile, &dest) {
                        Ok(a) => {
                            proof {
                                assert(a@ == a_m);
                            }
                            self.actions.push(a);
                            proof {
                                assert(views_of(self.actions@) =~= views_of(act0).push(a_m));
                                assert(views_of(act0).push(a_m) =~= old(self)@.actions + seq![
                                    ActionModel::CreateDir { dest: dest_m },
                                ] + dir_step_actions(d.source, dest_m, post));
                            }
                        },
                        Err(_) => {},
                    }
                },
                ChildEntry::Dir { name, canon } => {
                    proof {
                        assert(children@[i as int]@ == (ChildModel::Dir {
                            name: name@,
                            canon: canon@,
                        }));
                        assert(dir_step_actions(d.source, dest_m, post) == dir_step_actions(
                            d.source,
                            dest_m,
                            pre,
                        ));
                    }
                    if !(*canon == dir.canon) {
                        let mut src = dir.source.duplicate();
                        src.push(name.clone());
                        let ghost p_m = PendingModel {
                            source: child_path(d.source, name@),
                            canon: canon@,
                        };
                        proof {
                            assert(src@ == child_path(d.source, name@));
                            assert(dir_step_pushes(d, post) == dir_step_pushes(d, pre).push(
                                p_m,
                            ));
                        }
                        self.pending.push(PendingDir { source: src, canon: canon.clone() });
                        proof {
                            assert(views_of(self.pending@) =~= views_of(pend0).push(p_m));
                            assert(views_of(pend0).push(p_m) =~= old(self)@.pending.drop_last()
                                + dir_step_pushes(d, post));
                        }
                    } else {
                        proof {
                            assert(dir_step_pushes(d, post) == dir_step_pushes(d, pre));
                        }
                    }
                },
                ChildEntry::Other { name } => {
                    proof {
                        assert(children@[i as int]@ == (ChildModel::Other { name: name@ }));
                    }
                    let mut src = dir.source.duplicate();
                    src.push(name.clone());
                    let ghost a_m = ActionModel::Skip { source: child_path(d.source, name@) };
                    proof {
                        assert(src@ == child_path(d.source, name@));
                        assert(dir_step_actions(d.source, dest_m, post) == dir_step_actions(
                            d.source,
                            dest_m,
                            pre,
                        ).push(a_m));
                    }
                    match plan_file_copy(&src, EntryKind::Other, &dest) {
                        Ok(a) => {
                            proof {
                                assert(a@ == a_m);
                            }
                            self.actions.push(a);
                            proof {
                                assert(views_of(self.actions@) =~= views_of(act0).push(a_m));
                                assert(views_of(act0).push(a_m) =~= old(self)@.actions + seq![
                                    ActionModel::CreateDir { dest: dest_m },
                                ] + dir_step_actions(d.source, dest_m, post));
                            }
                        },
                        Err(_) => {},
                    }
                },
            }
            i += 1;
        }
        proof {
            assert(views_of(children@).subrange(0, children@.len() as int) =~= views_of(
                children@,
            ));
        }
    }
}

/// No scheduled subdirectory resolves to its own parent: every entry the
/// guard lets through has a canonicalized path different from the
/// directory being walked, and a level whose subdirectory entries all
/// resolve to the parent itself schedules nothing.
pub proof fn lemma_self_reference_guard(dir: PendingModel, children: Seq<ChildModel>)
    ensures
        forall|i: int|
            0 <= i < dir_step_pushes(dir, children).len() ==> (#[trigger] dir_step_pushes(
                dir,
                children,
            )[i]).canon != dir.canon,
        (forall|j: int|
            0 <= j < children.len() ==> ((#[trigger] children[j]) matches ChildModel::Dir {
                canon,
                ..
            } ==> canon == dir.canon)) ==> dir_step_pushes(dir, children).len() == 0,
    decreases children.len(),
{
    if children.len() > 0 {
        let rest = children.drop_last();
        lemma_self_reference_guard(dir, rest);
        let prev = dir_step_pushes(dir, rest);
        let all = dir_step_pushes(dir, children);
        match children.last() {
            ChildModel::Dir { name, canon } => {
                if canon != dir.canon {
                    assert(all == prev.push(
                        PendingModel { source: child_path(dir.source, name), canon },
                    ));
                    assert forall|i: int| 0 <= i < all.len() implies (#[trigger] all[i]).canon
                        != dir.canon by {
                        if i < prev.len() {
                            assert(all[i] == prev[i]);
                        }
                    }
                } else {
                    assert(all == prev);
                }
            },
            ChildModel::File { .. } => {
                assert(all == prev);
            },
            ChildModel::Other { .. } => {
                assert(all == prev);
            },
        }
        if forall|j: int|
            0 <= j < children.len() ==> ((#[trigger] children[j]) matches ChildModel::Dir {
                canon,
                ..
            } ==> canon == dir.canon) {
            assert(forall|j: int|
                0 <= j < rest.len() ==> ((#[trigger] rest[j]) matches ChildModel::Dir {
                    canon,
                    ..
                } ==> canon == dir.canon)) by {
                assert(forall|j: int| 0 <= j < rest.len() ==> rest[j] == children[j]);
            }
            assert(children.last() == children[children.len() - 1]);
            assert(dir_step_pushes(dir, children).len() == 0);
        }
    }
}

/// Self-reference safety for a whole step: enumerating a directory whose
/// subdirectory entries all resolve to the directory itself strictly
/// shrinks the stack of pending directories, so a walk over such entries
/// terminates rather than recursing without bound.
pub proof fn lemma_self_reference_step_shrinks(
    pending_before: Seq<PendingModel>,
    pending_after: Seq<PendingModel>,
    children: Seq<ChildModel>,
)
    requires
        pending_before.len() > 0,
        pending_after == pending_before.drop_last() + dir_step_pushes(
            pending_before.last(),
            children,
        ),
        forall|j: int|
            0 <= j < children.len() ==> ((#[trigger] children[j]) matches ChildModel::Dir {
                canon,
                ..
            } ==> canon == pending_before.last().canon),
    ensures
        pending_after.len() < pending_before.len(),
{
    lemma_self_reference_guard(pending_before.last(), children);
}

/// The copy actions among `actions`, in order.
pub open spec fn planned_copies(actions: Seq<ActionModel>) -> Seq<ActionModel> {
    actions.filter(|a: ActionModel| a is CopyFile)
}

/// The diagnostic skips among `actions`, in order.
pub open spec fn planned_skips(actions: Seq<ActionModel>) -> Seq<ActionModel> {
    actions.filter(|a: ActionModel| a is Skip)
}

/// The regular-file entries among `children`, in order.
pub open spec fn file_children(children: Seq<ChildModel>) -> Seq<ChildModel> {
    children.filter(|c: ChildModel| c is File)
}

/// The non-regular entries among `children`, in order.
pub open spec fn other_children(children: Seq<ChildModel>) -> Seq<ChildModel> {
    children.filter(|c: ChildModel| c is Other)
}

/// The copy a regular-file child calls for: from its source path to its
/// name under the level's mirrored destination.
pub open spec fn copy_action_for(dir: PathModel, dest: PathModel, c: ChildModel) -> ActionModel {
    ActionModel::CopyFile {
        source: child_path(dir, c->File_name),
        dest: child_path(dest, c->File_name),
    }
}

/// The diagnostic skip a non-regular child calls for.
pub open spec fn skip_action_for(dir: PathModel, c: ChildModel) -> ActionModel {
    ActionModel::Skip { source: child_path(dir, c->Other_name) }
}

/// One copy for each regular-file child, in child order.
pub open spec fn expected_copies(
    dir: PathModel,
    dest: PathModel,
    children: Seq<ChildModel>,
) -> Seq<ActionModel> {
    file_children(children).map_values(|c: ChildModel| copy_action_for(dir, dest, c))
}

/// One diagnostic skip for each non-regular child, in child order.
pub open spec fn expected_skips(dir: PathModel, children: Seq<ChildModel>) -> Seq<ActionModel> {
    other_children(children).map_values(|c: ChildModel| skip_action_for(dir, c))
}

/// Tree fidelity for one enumerated level: the copies planned are exactly,
/// in order, one for each regular-file child, from the child's source path
/// to its name under the level's mirrored destination; the diagnostic
/// skips are exactly one for each non-regular child.  Nothing else is
/// copied: in particular a socket or device entry is absent from the
/// mirrored output, and produces no error.
pub proof fn lemma_dir_step_fidelity(dir: PathModel, dest: PathModel, children: Seq<ChildModel>)
    ensures
        planned_copies(dir_step_actions(dir, dest, children)) =~= expected_copies(
            dir,
            dest,
            children,
        ),
        planned_skips(dir_step_actions(dir, dest, children)) =~= expected_skips(dir, children),
    decreases children.len(),
{
    reveal(Seq::filter);
    if children.len() == 0 {
        assert(file_children(children) =~= Seq::<ChildModel>::empty());
        assert(other_children(children) =~= Seq::<ChildModel>::empty());
        assert(expected_copies(dir, dest, children) =~= Seq::<ActionModel>::empty());
        assert(expected_skips(dir, children) =~= Seq::<ActionModel>::empty());
    } else {
        let rest = children.drop_last();
        lemma_dir_step_fidelity(dir, dest, rest);
        let ra = dir_step_actions(dir, dest, rest);
        let aa = dir_step_actions(dir, dest, children);
        match children.last() {
            ChildModel::File { name } => {
                let a = copy_action_for(dir, dest, children.last());
                assert(aa == ra.push(a));
                assert(ra.push(a).drop_last() =~= ra);
                assert(planned_copies(aa) == planned_copies(ra).push(a));
                assert(planned_skips(aa) == planned_skips(ra));
                assert(file_children(children) == file_children(rest).push(children.last()));
                assert(other_children(children) == other_children(rest));
                assert(expected_copies(dir, dest, children) =~= expected_copies(
                    dir,
                    dest,
                    rest,
                ).push(a));
            },
            ChildModel::Dir { .. } => {
                assert(aa == ra);
                assert(file_children(children) == file_children(rest));
                assert(other_children(children) == other_children(rest));
            },
            ChildModel::Other { name } => {
                let a = skip_action_for(dir, children.last());
                assert(aa == ra.push(a));
                assert(ra.push(a).drop_last() =~= ra);
                assert(planned_skips(aa) == planned_skips(ra).push(a));
                assert(planned_copies(aa) == planned_copies(ra));
                assert(other_children(children) == other_children(rest).push(children.last()));
                assert(file_children(children) == file_children(rest));
                assert(expected_skips(dir, children) =~= expected_skips(dir, rest).push(a));
            },
        }
    }
}


/// The run's structured report: how many copies succeeded, how many
/// failed (each failure is a warning, never an abort), and how many
/// entries were skipped with a diagnostic.
#[derive(Clone, Copy, PartialEq, Eq, Structural, Debug)]
pub struct Report {
    pub copied: usize,
    pub copy_failures: usize,
    pub skipped: usize,
}

/// How many copy actions a plan holds.
pub open spec fn count_copies(actions: Seq<ActionModel>) -> nat
    decreases actions.len(),
{
    if actions.len() == 0 {
        0
    } else {
        count_copies(actions.drop_last()) + if actions.last() is CopyFile {
            1nat
        } else {
            0nat
        }
    }
}

/// How many diagnostic skips a plan holds.
pub open spec fn count_skips(actions: Seq<ActionModel>) -> nat
    decreases actions.len(),
{
    if actions.len() == 0 {
        0
    } else {
        count_skips(actions.drop_last()) + if actions.last() is Skip {
            1nat
        } else {
            0nat
        }
    }
}

/// How many copies succeeded.
pub open spec fn count_true(results: Seq<bool>) -> nat
    decreases results.len(),
{
    if results.len() == 0 {
        0
    } else {
        count_true(results.drop_last()) + if results.last() {
            1nat
        } else {
            0nat
        }
    }
}

proof fn lemma_count_copies_prefix(actions: Seq<ActionModel>, k: int)
    requires
        0 <= k <= actions.len(),
    ensures
        count_copies(actions.subrange(0, k)) <= count_copies(actions),
    decreases actions.len() - k,
{
    if k == actions.len() {
        assert(actions.subrange(0, k) =~= actions);
    } else {
        lemma_count_copies_prefix(actions, k + 1);
        assert(actions.subrange(0, k + 1).drop_last() =~= actions.subrange(0, k));
        assert(count_copies(actions.subrange(0, k + 1)) >= count_copies(actions.subrange(0, k)));
    }
}

/// Builds the run's report from the plan and the outcome of each copy, in
/// plan order.  Failed copies and skipped entries are warnings: they never
/// make the run fail, so a partial tree is an accepted outcome.
pub fn summarize(actions: &Vec<Action>, copy_ok: &Vec<bool>) -> (r: Report)
    requires
        copy_ok@.len() == count_copies(views_of(actions@)),
    ensures
        r.copied == count_true(copy_ok@),
        r.copy_failures == copy_ok@.len() - count_true(copy_ok@),
        r.skipped == count_skips(views_of(actions@)),
{
    let ghost av = views_of(actions@);
    let total: usize = copy_ok.len();
    let mut copied: usize = 0;
    let mut copy_failures: usize = 0;
    let mut skipped: usize = 0;
    let mut j: usize = 0;
    let mut i: usize = 0;
    while i < actions.len()
        invariant
            i <= actions.len(),
            j <= copy_ok@.len(),
            total == copy_ok@.len(),
            copy_ok@.len() == count_copies(av),
            skipped <= i,
            av == views_of(actions@),
            j == count_copies(av.subrange(0, i as int)),
            skipped == count_skips(av.subrange(0, i as int)),
            copied == count_true(copy_ok@.subrange(0, j as int)),
            copied + copy_failures == j,
        decreases actions.len() - i,
    {
        let ghost pre = av.subrange(0, i as int);
        let ghost post = av.subrange(0, i as int + 1);
        proof {
            assert(post.drop_last() =~= pre);
            assert(post.last() == actions@[i as int]@);
        }
        match &actions[i] {
            Action::CopyFile { .. } => {
                proof {
                    lemma_count_copies_prefix(av, i as int + 1);
                    assert(count_copies(post) == j + 1);
                    assert(j < total);
                    assert(copied <= j && copy_failures <= j);
                }
                if copy_ok[j] {
                    copied += 1;
                } else {
                    copy_failures += 1;
                }
                proof {
                    assert(copy_ok@.subrange(0, j as int + 1).drop_last() =~= copy_ok@.subrange(
                        0,
                        j as int,
                    ));
                    assert(copy_ok@.subrange(0, j as int + 1).last() == copy_ok@[j as int]);
                }
                j += 1;
            },
            Action::CreateDir { .. } => {
            },
            Action::Skip { .. } => {
                skipped += 1;
            },
        }
        i += 1;
    }
    proof {
        assert(av.subrange(0, actions@.len() as int) =~= av);
        assert(copy_ok@.subrange(0, j as int) =~= copy_ok@);
    }
    Report { copied, copy_failures, skipped }
}

} // verus!
