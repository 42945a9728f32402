use filespider::error::RenderError;
use filespider::fingerprint::{hash_document_files, is_name_before, traversal_order, Entry};

fn file(name: &str, modified: u128) -> Entry {
    Entry::File { name: name.as_bytes().to_vec(), modified }
}

fn dir(name: &str, entries: Vec<Entry>) -> Entry {
    Entry::Directory { name: name.as_bytes().to_vec(), entries }
}

fn fingerprint(root: &Entry) -> u64 {
    hash_document_files(Some(root)).unwrap()
}

#[test]
fn missing_folder_is_not_found() {
    assert_eq!(hash_document_files(None), Err(RenderError::DocumentNotFound));
}

#[test]
fn empty_folder_has_the_hash_of_nothing() {
    assert_eq!(fingerprint(&dir("doc", vec![])), 0);
}

#[test]
fn single_file_has_the_fx_hash_of_its_time() {
    assert_eq!(fingerprint(&dir("doc", vec![file("a", 1)])), 956286968014291186);
    assert_eq!(fingerprint(&file("a", 1)), 956286968014291186);
    assert_eq!(
        fingerprint(&dir("doc", vec![file("a", 1700000000000)])),
        8705438235597313062
    );
}

#[test]
fn files_are_hashed_by_ascending_name() {
    let listed = dir("doc", vec![file("a", 1), file("b", 2)]);
    assert_eq!(fingerprint(&listed), 12645433046346487667);
    let other_times = dir("doc", vec![file("a", 2), file("b", 1)]);
    assert_eq!(fingerprint(&other_times), 576744613314818857);
}

#[test]
fn listing_order_does_not_matter() {
    let one = dir("doc", vec![file("a", 1), file("b", 2)]);
    let other = dir("doc", vec![file("b", 2), file("a", 1)]);
    assert_eq!(fingerprint(&one), fingerprint(&other));
    assert_eq!(fingerprint(&other), 12645433046346487667);
}

#[test]
fn directories_are_walked_in_place() {
    let nested = dir(
        "doc",
        vec![file("z", 30), dir("m", vec![file("y", 20)]), file("a", 10)],
    );
    assert_eq!(fingerprint(&nested), 15634927955941293033);
    let moved = dir(
        "doc",
        vec![file("b", 30), dir("m", vec![file("y", 20)]), file("a", 10)],
    );
    assert_eq!(fingerprint(&moved), 2304761690032550498);
}

#[test]
fn names_do_not_enter_the_hash() {
    assert_eq!(
        fingerprint(&dir("one", vec![file("a", 5)])),
        fingerprint(&dir("two", vec![file("b", 5)]))
    );
}

#[test]
fn fingerprint_is_deterministic() {
    let build = || dir("doc", vec![file("x.md", 1234567), dir("img", vec![file("p.png", 99)])]);
    assert_eq!(fingerprint(&build()), fingerprint(&build()));
    let root = build();
    assert_eq!(fingerprint(&root), fingerprint(&root));
}

#[test]
fn touching_a_file_changes_the_fingerprint() {
    let before = dir("doc", vec![file("x.md", 1234567), dir("img", vec![file("p.png", 99)])]);
    let touched = dir("doc", vec![file("x.md", 1234567), dir("img", vec![file("p.png", 100)])]);
    assert_ne!(fingerprint(&before), fingerprint(&touched));
}

#[test]
fn names_compare_byte_by_byte() {
    let name = |s: &str| s.as_bytes().to_vec();
    assert!(is_name_before(&name("a"), &name("b")));
    assert!(!is_name_before(&name("b"), &name("a")));
    assert!(!is_name_before(&name("a"), &name("a")));
    assert!(is_name_before(&name(""), &name("a")));
    assert!(!is_name_before(&name("a"), &name("")));
    assert!(!is_name_before(&name(""), &name("")));
    assert!(is_name_before(&name("ab"), &name("abc")));
    assert!(!is_name_before(&name("abc"), &name("ab")));
    assert!(is_name_before(&name("B"), &name("a")));
    assert!(is_name_before(&vec![0x7f], &vec![0x80]));
}

#[test]
fn traversal_order_sorts_positions_by_name() {
    let entries = vec![file("c", 0), file("a", 0), file("b", 0)];
    assert_eq!(traversal_order(&entries), vec![1, 2, 0]);
    assert_eq!(traversal_order(&Vec::new()), Vec::<usize>::new());
}

#[test]
fn traversal_order_keeps_equal_names_in_place() {
    let entries = vec![file("b", 0), file("a", 1), file("b", 2), file("a", 3)];
    assert_eq!(traversal_order(&entries), vec![1, 3, 0, 2]);
}

#[test]
fn listing_order_does_not_matter_at_any_depth() {
    let one = dir(
        "doc",
        vec![file("a", 1), dir("sub", vec![file("x", 2), file("y", 3)]), file("z", 4)],
    );
    let other = dir(
        "doc",
        vec![file("z", 4), dir("sub", vec![file("y", 3), file("x", 2)]), file("a", 1)],
    );
    assert_eq!(fingerprint(&one), fingerprint(&other));
}

#[test]
fn different_times_can_share_a_fingerprint() {
    let zero = dir("doc", vec![file("a", 0)]);
    let other = dir("doc", vec![file("a", 63264058309169543056027146161945051137)]);
    assert_eq!(fingerprint(&zero), 0);
    assert_eq!(fingerprint(&other), 0);
}
