use deemak::commands::read::read;
use deemak::fstree::Entry;
use deemak::fstree::WorldTree;
use deemak::path_guard::resolve;
use deemak::path_guard::AbsPath;
use deemak::session::bootstrap;
use deemak::snapshot::ApplyOutcome;
use deemak::snapshot::EnsureOutcome;
use deemak::snapshot::SnapKind;
use deemak::snapshot::World;

fn abs(fragment: &str) -> AbsPath {
    resolve(fragment, &AbsPath::fs_root())
}

fn path(components: &[&str]) -> Vec<String> {
    components.iter().map(|c| c.to_string()).collect()
}

fn live_tree() -> WorldTree {
    let mut t = WorldTree::new();
    assert!(t.insert(path(&["room1"]), Entry::Dir));
    assert!(t.insert(path(&["room1", "secret.txt"]), Entry::File("original".to_string())));
    t
}

fn read_in(world: &World, fragment: &str) -> String {
    let args = vec![fragment.to_string()];
    read(&args, &abs("/world"), &abs("/world"), &world.live)
}

#[test]
fn ensure_creates_then_reports_already_present() {
    let mut w = World::new(live_tree());
    assert_eq!(w.ensure(SnapKind::Restore), EnsureOutcome::Created);
    assert_eq!(w.ensure(SnapKind::Restore), EnsureOutcome::AlreadyPresent);
    assert_eq!(w.ensure(SnapKind::Save), EnsureOutcome::Created);
}

#[test]
fn ensure_is_idempotent_even_if_live_changed() {
    let mut w = World::new(live_tree());
    assert_eq!(w.ensure(SnapKind::Restore), EnsureOutcome::Created);
    assert!(w.live.insert(path(&["room1", "extra.txt"]), Entry::File("later".to_string())));
    assert_eq!(w.ensure(SnapKind::Restore), EnsureOutcome::AlreadyPresent);
    // The stored baseline still shows the state of the first call: applying
    // it brings back the original tree, without the later file.
    assert_eq!(w.apply(SnapKind::Restore), ApplyOutcome::Applied);
    assert_eq!(read_in(&w, "room1/secret.txt"), "original");
    assert_eq!(read_in(&w, "room1/extra.txt"), "read: room1/extra.txt: No such file");
}

#[test]
fn ensure_then_apply_leaves_live_tree_unchanged() {
    let mut w = World::new(live_tree());
    assert_eq!(w.ensure(SnapKind::Save), EnsureOutcome::Created);
    assert_eq!(w.apply(SnapKind::Save), ApplyOutcome::Applied);
    assert_eq!(read_in(&w, "room1/secret.txt"), "original");
    assert_eq!(read_in(&w, "room1"), "read: room1: Is a directory");
}

#[test]
fn apply_removes_entries_absent_from_snapshot() {
    let mut w = World::new(live_tree());
    assert_eq!(w.ensure(SnapKind::Save), EnsureOutcome::Created);
    assert!(w.live.insert(path(&["room1", "extra.txt"]), Entry::File("stray".to_string())));
    assert_eq!(read_in(&w, "room1/extra.txt"), "stray");
    assert_eq!(w.apply(SnapKind::Save), ApplyOutcome::Applied);
    assert_eq!(read_in(&w, "room1/extra.txt"), "read: room1/extra.txt: No such file");
    assert_eq!(read_in(&w, "room1/secret.txt"), "original");
}

#[test]
fn apply_overwrites_changed_content() {
    let mut w = World::new(WorldTree::new());
    assert!(w.live.insert(path(&["note.txt"]), Entry::File("before".to_string())));
    assert_eq!(w.ensure(SnapKind::Restore), EnsureOutcome::Created);
    // Replace the live tree wholesale with a changed copy.
    let mut changed = WorldTree::new();
    assert!(changed.insert(path(&["note.txt"]), Entry::File("after".to_string())));
    w.live = changed;
    assert_eq!(read_in(&w, "note.txt"), "after");
    assert_eq!(w.apply(SnapKind::Restore), ApplyOutcome::Applied);
    assert_eq!(read_in(&w, "note.txt"), "before");
}

#[test]
fn apply_without_snapshot_is_a_noop() {
    let mut w = World::new(live_tree());
    assert_eq!(w.apply(SnapKind::Save), ApplyOutcome::NothingToRestore);
    assert_eq!(w.apply(SnapKind::Restore), ApplyOutcome::NothingToRestore);
    assert_eq!(read_in(&w, "room1/secret.txt"), "original");
}

#[test]
fn bootstrap_on_a_fresh_world_keeps_the_live_tree() {
    let mut w = World::new(live_tree());
    bootstrap(&mut w);
    assert!(w.restore_snap.is_some());
    assert!(w.save_snap.is_some());
    assert_eq!(read_in(&w, "room1/secret.txt"), "original");
}

#[test]
fn bootstrap_resumes_a_preexisting_checkpoint() {
    let mut w = World::new(live_tree());
    assert_eq!(w.ensure(SnapKind::Restore), EnsureOutcome::Created);
    assert_eq!(w.ensure(SnapKind::Save), EnsureOutcome::Created);
    assert!(w.live.insert(path(&["room1", "progress.txt"]), Entry::File("half done".to_string())));
    assert_eq!(w.ensure(SnapKind::Save), EnsureOutcome::AlreadyPresent);
    // A new session starts from the stored checkpoint, not from the live
    // tree as the previous session left it after the checkpoint was taken.
    bootstrap(&mut w);
    assert_eq!(read_in(&w, "room1/progress.txt"), "read: room1/progress.txt: No such file");
    assert_eq!(read_in(&w, "room1/secret.txt"), "original");
}

#[test]
fn bootstrap_never_overwrites_the_factory_baseline() {
    let mut w = World::new(live_tree());
    bootstrap(&mut w);
    assert!(w.live.insert(path(&["room1", "scribble.txt"]), Entry::File("x".to_string())));
    // A later session must not fold session changes into the baseline.
    bootstrap(&mut w);
    assert_eq!(w.apply(SnapKind::Restore), ApplyOutcome::Applied);
    assert_eq!(read_in(&w, "room1/scribble.txt"), "read: room1/scribble.txt: No such file");
    assert_eq!(read_in(&w, "room1/secret.txt"), "original");
}
