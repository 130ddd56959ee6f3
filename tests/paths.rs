use dv_format::paths::{absolutize, is_extension, join_path, parent_dir, split_on};
use dv_format::collect::is_source_file;

#[test]
fn join_adds_one_separator() {
    assert_eq!(join_path("/a", "b"), "/a/b");
    assert_eq!(join_path("/a/", "b"), "/a/b");
    assert_eq!(join_path("", "b"), "b");
    assert_eq!(join_path("/a", "/abs"), "/abs");
}

#[test]
fn split_keeps_empty_pieces() {
    assert_eq!(split_on("a::b", ':'), vec!["a", "", "b"]);
    assert_eq!(split_on("", ':'), vec![""]);
    assert_eq!(split_on("/usr/bin", ':'), vec!["/usr/bin"]);
}

#[test]
fn parent_of_target_source() {
    assert_eq!(parent_dir("/w/core/src/lib.rs"), "/w/core/src");
    assert_eq!(parent_dir("/lib.rs"), "/");
    assert_eq!(parent_dir("lib.rs"), "");
}

#[test]
fn absolutize_cleans_up() {
    assert_eq!(absolutize("bin/fmt", "/home/u"), "/home/u/bin/fmt");
    assert_eq!(absolutize("/a/./b//c/../fmt", "/ignored"), "/a/b/fmt");
    assert_eq!(absolutize("../../../x", "/a"), "/x");
    assert_eq!(absolutize("", "/"), "/");
}

#[test]
fn source_extension() {
    assert!(is_source_file("x/y.rs"));
    assert!(is_source_file("a.rs"));
    assert!(!is_source_file(".rs"));
    assert!(!is_source_file("a.rsx"));
    assert!(!is_source_file("dir.rs/file"));
    assert!(!is_source_file("README"));
    assert!(is_extension("a.tar.gz", "gz"));
}
