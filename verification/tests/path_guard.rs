use deemak::path_guard::AbsPath;
use deemak::path_guard::display_relative_path;
use deemak::path_guard::render_rel;
use deemak::path_guard::resolve;
use deemak::path_guard::verify_contained;

fn abs(fragment: &str) -> AbsPath {
    resolve(fragment, &AbsPath::fs_root())
}

fn parts(p: &AbsPath) -> Vec<&str> {
    p.parts.iter().map(|s| s.as_str()).collect()
}

#[test]
fn resolve_plain_relative() {
    let cwd = abs("/world/room1");
    let r = resolve("secret.txt", &cwd);
    assert_eq!(parts(&r), vec!["world", "room1", "secret.txt"]);
}

#[test]
fn resolve_absolute_fragment_replaces_cwd() {
    let cwd = abs("/world/room1");
    let r = resolve("/etc/passwd", &cwd);
    assert_eq!(parts(&r), vec!["etc", "passwd"]);
}

#[test]
fn resolve_dot_and_dotdot() {
    let cwd = abs("/world/room1");
    assert_eq!(parts(&resolve(".", &cwd)), vec!["world", "room1"]);
    assert_eq!(parts(&resolve("..", &cwd)), vec!["world"]);
    assert_eq!(parts(&resolve("../..", &cwd)), vec![] as Vec<&str>);
    assert_eq!(parts(&resolve("./a/./b", &cwd)), vec!["world", "room1", "a", "b"]);
}

#[test]
fn resolve_dotdot_stops_at_filesystem_root() {
    let cwd = abs("/world");
    let r = resolve("../../../..", &cwd);
    assert_eq!(parts(&r), vec![] as Vec<&str>);
}

#[test]
fn resolve_trailing_and_doubled_separators() {
    let cwd = abs("/world");
    assert_eq!(parts(&resolve("a/", &cwd)), vec!["world", "a"]);
    assert_eq!(parts(&resolve("a//b", &cwd)), vec!["world", "a", "b"]);
    assert_eq!(parts(&resolve("//x///y//", &cwd)), vec!["x", "y"]);
}

#[test]
fn containment_accepts_descendants_and_root_itself() {
    let root = abs("/world");
    assert!(verify_contained(&abs("/world/room1/secret.txt"), &root));
    assert!(verify_contained(&abs("/world"), &root));
}

#[test]
fn containment_rejects_escapes() {
    let root = abs("/world");
    let cwd = abs("/world/room1");
    assert!(!verify_contained(&resolve("../../etc/passwd", &cwd), &root));
    assert!(!verify_contained(&resolve("/etc", &cwd), &root));
    assert!(!verify_contained(&resolve("..", &abs("/world")), &root));
}

#[test]
fn dotdot_chain_from_root_is_rejected() {
    let root = abs("/world");
    let r = resolve("../../etc/passwd", &root);
    assert_eq!(parts(&r), vec!["etc", "passwd"]);
    assert!(!verify_contained(&r, &root));
}

#[test]
fn containment_is_component_wise_not_string_prefix() {
    let root = abs("/world");
    assert!(!verify_contained(&abs("/world2"), &root));
    assert!(!verify_contained(&abs("/world2/inside"), &root));
}

#[test]
fn dotdot_inside_root_stays_contained() {
    let root = abs("/world");
    let cwd = abs("/world/room1");
    let r = resolve("../room2/door", &cwd);
    assert!(verify_contained(&r, &root));
    assert_eq!(parts(&r), vec!["world", "room2", "door"]);
}

#[test]
fn relative_display_joins_components() {
    let root = abs("/world");
    let p = abs("/world/room1/secret.txt");
    assert_eq!(display_relative_path(&p, &root), "room1/secret.txt");
}

#[test]
fn relative_display_of_root_is_dot() {
    let root = abs("/world");
    assert_eq!(display_relative_path(&abs("/world"), &root), ".");
}

#[test]
fn render_rel_single_component() {
    let rel = vec!["room1".to_string()];
    assert_eq!(render_rel(&rel), "room1");
}
