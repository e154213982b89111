//! Routing: roots, target paths, and containment decisions.

use mchttp::router::{
    file_name, join_path, path_starts_with, request_target_path, resolve_target, route_root,
    strip_slashes, with_index_file,
};

#[test]
fn join_inserts_separator() {
    assert_eq!(join_path("/data", "a.test"), "/data/a.test");
}

#[test]
fn join_keeps_existing_separator() {
    assert_eq!(join_path("/data/", "a.test"), "/data/a.test");
}

#[test]
fn join_onto_empty_is_identity() {
    assert_eq!(join_path("", "a.test"), "a.test");
}

#[test]
fn join_absolute_replaces() {
    assert_eq!(join_path("/data", "/etc/passwd"), "/etc/passwd");
}

#[test]
fn strip_slashes_removes_all_leading() {
    assert_eq!(strip_slashes("/index.html"), "index.html");
    assert_eq!(strip_slashes("//x"), "x");
    assert_eq!(strip_slashes("plain"), "plain");
}

#[test]
fn root_of_data_dir_and_host() {
    let data = "/data".to_string();
    let host = "a.test".to_string();
    assert_eq!(route_root(Some(&data), Some(&host)), "/data/a.test");
    assert_eq!(route_root(Some(&data), None), "/data");
    assert_eq!(route_root(None, Some(&host)), "a.test");
    assert_eq!(route_root(None, None), "");
}

#[test]
fn target_path_anchors_under_root() {
    assert_eq!(request_target_path("/data/a.test", "/index.html"), "/data/a.test/index.html");
}

#[test]
fn index_file_only_for_directories() {
    assert_eq!(with_index_file("/data/a.test".to_string(), true), "/data/a.test/index.html");
    assert_eq!(with_index_file("/data/a.test/x.txt".to_string(), false), "/data/a.test/x.txt");
}

#[test]
fn prefix_needs_segment_boundary() {
    assert!(path_starts_with("/data/a.test/index.html", "/data/a.test"));
    assert!(path_starts_with("/data/a.test", "/data/a.test"));
    assert!(!path_starts_with("/data/a.testx/index.html", "/data/a.test"));
    assert!(!path_starts_with("/etc/passwd", "/data/a.test"));
    assert!(path_starts_with("/anything", ""));
    assert!(path_starts_with("/etc", "/"));
}

#[test]
fn served_file_under_host_root() {
    let canonical = "/data/a.test/index.html".to_string();
    let r = resolve_target("/data/a.test", Some(&canonical));
    assert_eq!(r, Some(&canonical));
}

#[test]
fn escape_is_answered_like_missing() {
    // The traversal target canonicalizes outside the root: never served.
    let outside = "/etc/passwd".to_string();
    assert_eq!(resolve_target("/data/a.test", Some(&outside)), None);
    // A path that does not canonicalize at all gets the same answer.
    assert_eq!(resolve_target("/data/a.test", None), None);
}

#[test]
fn file_name_is_last_segment() {
    assert_eq!(file_name("/a/b/c.txt"), "c.txt");
    assert_eq!(file_name("plain"), "plain");
    assert_eq!(file_name("/a/b/"), "");
}
