//! Startup orchestration: before any command runs, both snapshot kinds are
//! made to exist and the resumable checkpoint is applied to the live tree.

use vstd::prelude::*;
use crate::snapshot::SnapKind;
use crate::snapshot::World;
use crate::snapshot::WorldView;
use crate::snapshot::apply_spec;
use crate::snapshot::ensure_spec;

verus! {

/// The bootstrap in one expression: ensure the factory baseline, ensure the
/// session checkpoint, then apply the checkpoint.
pub open spec fn bootstrap_spec(w: WorldView) -> WorldView {
    apply_spec(ensure_spec(ensure_spec(w, SnapKind::Restore), SnapKind::Save), SnapKind::Save)
}

/// Runs the fixed startup order once per session. Afterward both snapshots
/// exist; the factory baseline is the pre-existing one where there was one,
/// else a copy of the live tree; and the live tree is the stored checkpoint
/// where one pre-existed, else unchanged — so applying a checkpoint that was
/// created a moment earlier is a no-op in content, and no branching on
/// "was it pre-existing" is needed.
pub fn bootstrap(world: &mut World)
    requires
        old(world).wf(),
    ensures
        final(world).wf(),
        final(world)@ == bootstrap_spec(old(world)@),
        final(world)@.restore == (match old(world)@.restore {
            Some(m) => Some(m),
            None => Some(old(world)@.live),
        }),
        final(world)@.save == (match old(world)@.save {
            Some(m) => Some(m),
            None => Some(old(world)@.live),
        }),
        final(world)@.live == (match old(world)@.save {
            Some(m) => m,
            None => old(world)@.live,
        }),
{
    let _ = world.ensure(SnapKind::Restore);
    let _ = world.ensure(SnapKind::Save);
    let _ = world.apply(SnapKind::Save);
}

} // verus!
