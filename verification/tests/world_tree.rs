use deemak::fstree::Entry;
use deemak::fstree::WorldTree;

fn path(components: &[&str]) -> Vec<String> {
    components.iter().map(|c| c.to_string()).collect()
}

#[test]
fn insert_refuses_an_empty_path() {
    let mut t = WorldTree::new();
    assert!(!t.insert(path(&[]), Entry::Dir));
}

#[test]
fn insert_refuses_malformed_components() {
    let mut t = WorldTree::new();
    assert!(!t.insert(path(&[""]), Entry::Dir));
    assert!(!t.insert(path(&["."]), Entry::Dir));
    assert!(!t.insert(path(&[".."]), Entry::Dir));
    assert!(!t.insert(path(&["a/b"]), Entry::Dir));
}

#[test]
fn insert_refuses_a_duplicate_path() {
    let mut t = WorldTree::new();
    assert!(t.insert(path(&["a"]), Entry::Dir));
    assert!(!t.insert(path(&["a"]), Entry::Dir));
    assert!(!t.insert(path(&["a"]), Entry::File("x".to_string())));
}

#[test]
fn insert_refuses_a_missing_or_non_directory_parent() {
    let mut t = WorldTree::new();
    assert!(!t.insert(path(&["ghost", "child"]), Entry::Dir));
    assert!(t.insert(path(&["file.txt"]), Entry::File("x".to_string())));
    assert!(!t.insert(path(&["file.txt", "child"]), Entry::Dir));
}

#[test]
fn find_entry_sees_what_insert_added() {
    let mut t = WorldTree::new();
    assert!(t.insert(path(&["a"]), Entry::Dir));
    assert!(t.insert(path(&["a", "b.txt"]), Entry::File("hello".to_string())));
    match t.find_entry(&path(&["a", "b.txt"])) {
        Some(Entry::File(content)) => assert_eq!(content, "hello"),
        _ => panic!("expected the stored file"),
    }
    match t.find_entry(&path(&["a"])) {
        Some(Entry::Dir) => {},
        _ => panic!("expected the stored directory"),
    }
    assert!(t.find_entry(&path(&["b.txt"])).is_none());
}

#[test]
fn snapshot_copy_matches_the_original() {
    let mut t = WorldTree::new();
    assert!(t.insert(path(&["a"]), Entry::Dir));
    assert!(t.insert(path(&["a", "b.txt"]), Entry::File("hello".to_string())));
    let copy = t.snapshot_copy();
    match copy.find_entry(&path(&["a", "b.txt"])) {
        Some(Entry::File(content)) => assert_eq!(content, "hello"),
        _ => panic!("expected the copied file"),
    }
    assert_eq!(copy.records.len(), t.records.len());
}
