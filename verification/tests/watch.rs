use watcher::watch::{holds_path, same_path, StartupError, WatchSet};

fn path(text: &str) -> Vec<u8> {
    text.as_bytes().to_vec()
}

#[test]
fn equal_paths_are_the_same() {
    assert!(same_path(&path("/tmp/a.txt"), &path("/tmp/a.txt")));
    assert!(same_path(&path(""), &path("")));
}

#[test]
fn different_paths_are_not_the_same() {
    assert!(!same_path(&path("/tmp/a.txt"), &path("/tmp/b.txt")));
    assert!(!same_path(&path("/tmp/a.txt"), &path("/tmp/a.txt2")));
    assert!(!same_path(&path("/tmp/a"), &path("/tmp")));
    assert!(!same_path(&path(""), &path("/")));
}

#[test]
fn paths_that_are_not_text_are_compared_by_bytes() {
    assert!(same_path(&vec![0x2F, 0xFF, 0xFE], &vec![0x2F, 0xFF, 0xFE]));
    assert!(!same_path(&vec![0x2F, 0xFF, 0xFE], &vec![0x2F, 0xFF, 0xFD]));
}

#[test]
fn finds_a_path_in_a_list() {
    let paths = vec![path("/a"), path("/b"), path("/c")];
    assert!(holds_path(&paths, &path("/a")));
    assert!(holds_path(&paths, &path("/c")));
    assert!(!holds_path(&paths, &path("/d")));
    assert!(!holds_path(&Vec::new(), &path("/a")));
}

#[test]
fn set_keeps_the_given_order() {
    let set = WatchSet::new(&vec![path("/c"), path("/a"), path("/b")]);
    assert_eq!(set.len(), 3);
    assert_eq!(set.get(0), Some(&path("/c")));
    assert_eq!(set.get(1), Some(&path("/a")));
    assert_eq!(set.get(2), Some(&path("/b")));
    assert_eq!(set.get(3), None);
}

#[test]
fn path_given_twice_is_kept_once() {
    let set = WatchSet::new(&vec![path("/tmp/a.txt"), path("/tmp/a.txt")]);
    assert_eq!(set.len(), 1);
    assert_eq!(set.get(0), Some(&path("/tmp/a.txt")));
    assert!(set.contains(&path("/tmp/a.txt")));
}

#[test]
fn repeated_paths_keep_their_first_place() {
    let set = WatchSet::new(&vec![path("/a"), path("/b"), path("/a"), path("/c"), path("/b")]);
    assert_eq!(set.len(), 3);
    assert_eq!(set.get(0), Some(&path("/a")));
    assert_eq!(set.get(1), Some(&path("/b")));
    assert_eq!(set.get(2), Some(&path("/c")));
    assert_eq!(set, WatchSet::new(&vec![path("/a"), path("/b"), path("/c")]));
}

#[test]
fn empty_set_holds_nothing() {
    let set = WatchSet::new(&Vec::new());
    assert_eq!(set.len(), 0);
    assert_eq!(set.get(0), None);
    assert!(!set.contains(&path("/tmp/a.txt")));
}

#[test]
fn membership_is_exact() {
    let set = WatchSet::new(&vec![path("/tmp/dir")]);
    assert!(set.contains(&path("/tmp/dir")));
    assert!(!set.contains(&path("/tmp/dir/file.txt")));
    assert!(!set.contains(&path("/tmp/dir/")));
    assert!(!set.contains(&path("/tmp")));
}

#[test]
fn resolved_paths_make_a_set() {
    let set = WatchSet::from_resolved(&vec![Some(path("/a")), Some(path("/b")), Some(path("/a"))]);
    assert_eq!(set, Ok(WatchSet::new(&vec![path("/a"), path("/b")])));
}

#[test]
fn startup_with_a_path_that_does_not_exist_fails() {
    let set = WatchSet::from_resolved(&vec![None]);
    assert_eq!(set, Err(StartupError::Unresolved { index: 0 }));
}

#[test]
fn first_unresolved_path_is_named() {
    let set = WatchSet::from_resolved(&vec![Some(path("/a")), None, Some(path("/b")), None]);
    assert_eq!(set, Err(StartupError::Unresolved { index: 1 }));
}

#[test]
fn nothing_to_resolve_makes_an_empty_set() {
    let set = WatchSet::from_resolved(&Vec::new());
    assert_eq!(set, Ok(WatchSet::new(&Vec::new())));
}

#[test]
fn startup_error_messages() {
    assert_eq!(StartupError::Unresolved { index: 2 }.message(), "Could not resolve a path to watch");
    assert_eq!(StartupError::Refused { index: 0 }.message(), "Could not watch a path");
}
