//! Whole-request walks through the library: parse, route, contain,
//! and render, with the filesystem's answers played by hand.

use mchttp::parser::{FeedOutcome, HeadParser};
use mchttp::response::{not_found_response, ok_header};
use mchttp::router::{request_target_path, resolve_target, route_root, with_index_file};

#[test]
fn served_index_page_announces_thirteen_bytes() {
    // GET /index.html against the virtual host a.test rooted at
    // /data/a.test, where index.html holds 13 bytes.
    let mut p = HeadParser::new();
    assert!(matches!(p.feed_line(b"GET /index.html HTTP/1.1\r\n"), FeedOutcome::NeedMore));
    assert!(matches!(p.feed_line(b"Host: a.test\r\n"), FeedOutcome::NeedMore));
    assert!(matches!(p.feed_line(b"\r\n"), FeedOutcome::HeadDone));
    let request = p.into_request("client".to_string(), Some("a.test".to_string()));

    let data_dir = "/data".to_string();
    let root = route_root(Some(&data_dir), request.server_name.as_ref());
    assert_eq!(root, "/data/a.test");
    let target = request_target_path(&root, &request.url);
    assert_eq!(target, "/data/a.test/index.html");
    let target = with_index_file(target, false);

    // The file exists, so canonicalization returns the path unchanged.
    let canonical = Some(target);
    let served = resolve_target(&root, canonical.as_ref()).expect("contained path is served");
    assert_eq!(served.as_str(), "/data/a.test/index.html");
    assert_eq!(
        ok_header("text/html", 13),
        "HTTP/1.1 200 OK\r\nContent-Type: text/html\r\nContent-Length: 13\r\n\r\n"
    );
}

#[test]
fn traversal_is_always_a_miss() {
    // GET /../../etc/passwd: however the filesystem answers, nothing
    // outside the root is served and the answer is the miss response.
    let mut p = HeadParser::new();
    p.feed_line(b"GET /../../etc/passwd HTTP/1.1\r\n");
    p.feed_line(b"\r\n");
    let request = p.into_request("client".to_string(), Some("a.test".to_string()));

    let data_dir = "/data".to_string();
    let root = route_root(Some(&data_dir), request.server_name.as_ref());
    let target = request_target_path(&root, &request.url);
    assert_eq!(target, "/data/a.test/../../etc/passwd");

    // If /etc/passwd exists, canonicalization resolves the dots away:
    let canonical = Some("/etc/passwd".to_string());
    assert_eq!(resolve_target(&root, canonical.as_ref()), None);
    // If it does not, canonicalization fails; the answer is the same:
    assert_eq!(resolve_target(&root, None), None);
    assert_eq!(not_found_response(), "HTTP/1.1 404 Not found\r\n\r\n");
}

#[test]
fn default_site_without_data_dir_or_host() {
    let mut p = HeadParser::new();
    p.feed_line(b"GET /page.txt HTTP/1.1\r\n");
    p.feed_line(b"\r\n");
    let request = p.into_request("client".to_string(), None);

    let root = route_root(None, request.server_name.as_ref());
    assert_eq!(root, "");
    let target = request_target_path(&root, &request.url);
    assert_eq!(target, "page.txt");
}
