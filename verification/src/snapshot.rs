//! The snapshot engine: full-tree copies of the live world, keyed by a kind
//! tag from a closed set. `ensure` creates a snapshot only where none exists;
//! `apply` replaces the live tree wholesale with a stored one. The stored
//! snapshots live beside the live tree, never inside it, so a copy can never
//! include itself.

use vstd::prelude::*;
use crate::fstree::EntrySpec;
use crate::fstree::WorldTree;

verus! {

/// The closed set of snapshot kinds: the factory baseline, captured at most
/// once and never overwritten, and the resumable session checkpoint.
#[derive(Clone, Copy, Debug, PartialEq, Eq, Structural)]
pub enum SnapKind {
    Restore,
    Save,
}

/// What `ensure` reports: the snapshot was created, or was already present
/// and was left untouched.
#[derive(Clone, Copy, Debug, PartialEq, Eq, Structural)]
pub enum EnsureOutcome {
    Created,
    AlreadyPresent,
}

/// What `apply` reports: the live tree was replaced, or there was nothing
/// stored to restore and the live tree was left as it was.
#[derive(Clone, Copy, Debug, PartialEq, Eq, Structural)]
pub enum ApplyOutcome {
    Applied,
    NothingToRestore,
}

/// The ghost image of a world: the live tree and the two stored snapshots.
pub struct WorldView {
    pub live: Map<Seq<Seq<char>>, EntrySpec>,
    pub restore: Option<Map<Seq<Seq<char>>, EntrySpec>>,
    pub save: Option<Map<Seq<Seq<char>>, EntrySpec>>,
}

/// A world: the live tree commands run against, and the snapshot store.
pub struct World {
    pub live: WorldTree,
    pub restore_snap: Option<WorldTree>,
    pub save_snap: Option<WorldTree>,
}

impl View for World {
    type V = WorldView;

    open spec fn view(&self) -> WorldView {
        WorldView {
            live: self.live@,
            restore: match self.restore_snap {
                Some(t) => Some(t@),
                None => None,
            },
            save: match self.save_snap {
                Some(t) => Some(t@),
                None => None,
            },
        }
    }
}

/// The stored snapshot of the given kind, if any.
pub open spec fn snap_of(w: WorldView, kind: SnapKind) -> Option<Map<Seq<Seq<char>>, EntrySpec>> {
    match kind {
        SnapKind::Restore => w.restore,
        SnapKind::Save => w.save,
    }
}

/// The world with the snapshot of the given kind replaced.
pub open spec fn with_snap(
    w: WorldView,
    kind: SnapKind,
    m: Option<Map<Seq<Seq<char>>, EntrySpec>>,
) -> WorldView {
    match kind {
        SnapKind::Restore => WorldView { restore: m, ..w },
        SnapKind::Save => WorldView { save: m, ..w },
    }
}

/// What `ensure` does to a world: nothing where a snapshot of the kind
/// already exists, else it stores a full copy of the live tree under the
/// kind. The live tree is never touched.
pub open spec fn ensure_spec(w: WorldView, kind: SnapKind) -> WorldView {
    match snap_of(w, kind) {
        Some(_) => w,
        None => with_snap(w, kind, Some(w.live)),
    }
}

/// What `apply` does to a world: nothing where no snapshot of the kind
/// exists, else the live tree is replaced, entry for entry, by the stored
/// tree. The stored snapshots are never touched.
pub open spec fn apply_spec(w: WorldView, kind: SnapKind) -> WorldView {
    match snap_of(w, kind) {
        None => w,
        Some(m) => WorldView { live: m, ..w },
    }
}

impl World {
    pub open spec fn wf(&self) -> bool {
        &&& self.live.wf()
        &&& match self.restore_snap {
            Some(t) => t.wf(),
            None => true,
        }
        &&& match self.save_snap {
            Some(t) => t.wf(),
            None => true,
        }
    }

    /// A fresh world around a live tree, with no snapshots stored yet.
    pub fn new(live: WorldTree) -> (w: World)
        requires
            live.wf(),
        ensures
            w.wf(),
            w@.live == live@,
            w@.restore is None,
            w@.save is None,
    {
        World { live, restore_snap: None, save_snap: None }
    }

    /// Creates the snapshot of the given kind where none exists, as a full
    /// copy of the live tree; where one exists it is left byte-identical.
    pub fn ensure(&mut self, kind: SnapKind) -> (r: EnsureOutcome)
        requires
            old(self).wf(),
        ensures
            final(self).wf(),
            final(self)@ == ensure_spec(old(self)@, kind),
            r == (match snap_of(old(self)@, kind) {
                Some(_) => EnsureOutcome::AlreadyPresent,
                None => EnsureOutcome::Created,
            }),
    {
        match kind {
            SnapKind::Restore => {
                if self.restore_snap.is_some() {
                    EnsureOutcome::AlreadyPresent
                } else {
                    self.restore_snap = Some(self.live.snapshot_copy());
                    EnsureOutcome::Created
                }
            },
            SnapKind::Save => {
                if self.save_snap.is_some() {
                    EnsureOutcome::AlreadyPresent
                } else {
                    self.save_snap = Some(self.live.snapshot_copy());
                    EnsureOutcome::Created
                }
            },
        }
    }

    /// Replaces the live tree with the stored tree of the given kind: full
    /// replace, so entries present live but absent from the snapshot are
    /// removed. Where no snapshot of the kind exists, this is a no-op.
    pub fn apply(&mut self, kind: SnapKind) -> (r: ApplyOutcome)
        requires
            old(self).wf(),
        ensures
            final(self).wf(),
            final(self)@ == apply_spec(old(self)@, kind),
            r == (match snap_of(old(self)@, kind) {
                Some(_) => ApplyOutcome::Applied,
                None => ApplyOutcome::NothingToRestore,
            }),
    {
        match kind {
            SnapKind::Restore => {
                match &self.restore_snap {
                    Some(t) => {
                        self.live = t.snapshot_copy();
                        ApplyOutcome::Applied
                    },
                    None => ApplyOutcome::NothingToRestore,
                }
            },
            SnapKind::Save => {
                match &self.save_snap {
                    Some(t) => {
                        self.live = t.snapshot_copy();
                        ApplyOutcome::Applied
                    },
                    None => ApplyOutcome::NothingToRestore,
                }
            },
        }
    }
}

/// Snapshot idempotence: ensuring a kind a second time leaves the stored
/// snapshot of that kind exactly as the first call left it, even if the
/// live tree changed between the two calls.
pub proof fn lemma_ensure_idempotent(
    w: WorldView,
    live2: Map<Seq<Seq<char>>, EntrySpec>,
    kind: SnapKind,
)
    ensures
        ({
            let w1 = ensure_spec(w, kind);
            let w2 = ensure_spec(WorldView { live: live2, ..w1 }, kind);
            snap_of(w2, kind) == snap_of(w1, kind) && snap_of(w1, kind) is Some
        }),
{
}

/// Snapshot round-trip: where no stale snapshot of the kind is stored (none
/// at all, or one identical to the live tree), ensure followed immediately
/// by apply leaves the live tree unchanged.
pub proof fn lemma_snapshot_round_trip(w: WorldView, kind: SnapKind)
    requires
        snap_of(w, kind) is None || snap_of(w, kind) == Some(w.live),
    ensures
        apply_spec(ensure_spec(w, kind), kind).live == w.live,
{
}

/// Full-replace semantics: applying a stored snapshot makes the live tree
/// exactly the stored tree; in particular an entry present live but absent
/// from the snapshot is removed.
pub proof fn lemma_apply_full_replace(
    w: WorldView,
    kind: SnapKind,
    m: Map<Seq<Seq<char>>, EntrySpec>,
    extra: Seq<Seq<char>>,
)
    requires
        snap_of(w, kind) == Some(m),
        !m.contains_key(extra),
    ensures
        apply_spec(w, kind).live == m,
        !apply_spec(w, kind).live.contains_key(extra),
{
}

/// Neither operation disturbs what it must not: ensure never changes the
/// live tree or the other kind's snapshot, and apply never changes either
/// stored snapshot.
pub proof fn lemma_snapshot_frame(w: WorldView, kind: SnapKind)
    ensures
        ensure_spec(w, kind).live == w.live,
        apply_spec(w, kind).restore == w.restore,
        apply_spec(w, kind).save == w.save,
        kind is Restore ==> ensure_spec(w, kind).save == w.save,
        kind is Save ==> ensure_spec(w, kind).restore == w.restore,
{
}

} // verus!
