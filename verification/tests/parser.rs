//! The request-head parser, one line at a time.

use mchttp::parser::{FeedOutcome, HeadParser, ParseError};

#[test]
fn request_line_is_parsed() {
    let mut p = HeadParser::new();
    let r = p.feed_line(b"GET /index.html HTTP/1.1\r\n");
    assert!(matches!(r, FeedOutcome::NeedMore));
    assert!(p.have_request_line);
    assert_eq!(p.method, "get");
    assert_eq!(p.url, "/index.html");
    assert_eq!(p.version, "HTTP/1.1");
}

#[test]
fn method_is_lowercased_verbatim() {
    let mut p = HeadParser::new();
    p.feed_line(b"BREW /pot HTTP/1.1\r\n");
    assert_eq!(p.method, "brew");
}

#[test]
fn two_tokens_abort_without_response() {
    let mut p = HeadParser::new();
    let r = p.feed_line(b"GET /\r\n");
    assert_eq!(r, FeedOutcome::Abort(ParseError::MalformedRequestLine));
}

#[test]
fn four_tokens_abort() {
    let mut p = HeadParser::new();
    let r = p.feed_line(b"GET / HTTP/1.1 extra\r\n");
    assert_eq!(r, FeedOutcome::Abort(ParseError::MalformedRequestLine));
}

#[test]
fn zero_bytes_abort_as_client_eof() {
    let mut p = HeadParser::new();
    let r = p.feed_line(b"");
    assert_eq!(r, FeedOutcome::Abort(ParseError::ClientClosed));
}

#[test]
fn empty_line_ends_the_head() {
    let mut p = HeadParser::new();
    p.feed_line(b"GET / HTTP/1.1\r\n");
    let r = p.feed_line(b"\r\n");
    assert_eq!(r, FeedOutcome::HeadDone);
}

#[test]
fn bare_newline_ends_the_head_too() {
    let mut p = HeadParser::new();
    p.feed_line(b"GET / HTTP/1.1\r\n");
    let r = p.feed_line(b"\n");
    assert_eq!(r, FeedOutcome::HeadDone);
}

#[test]
fn invalid_utf8_aborts() {
    let mut p = HeadParser::new();
    let r = p.feed_line(&[0x47, 0x45, 0x54, 0xff, 0xfe, 0x0a]);
    assert_eq!(r, FeedOutcome::Abort(ParseError::BadEncoding));
}

#[test]
fn header_key_is_lowercased_and_trimmed() {
    let mut p = HeadParser::new();
    p.feed_line(b"GET / HTTP/1.1\r\n");
    let r = p.feed_line(b"Host: a.test\r\n");
    assert!(matches!(r, FeedOutcome::NeedMore));
    assert_eq!(p.headers.get("host"), Some(&"a.test".to_string()));
}

#[test]
fn header_value_is_trimmed() {
    let mut p = HeadParser::new();
    p.feed_line(b"GET / HTTP/1.1\r\n");
    p.feed_line(b"X-Pad:   spaced out  \r\n");
    assert_eq!(p.headers.get("x-pad"), Some(&"spaced out".to_string()));
}

#[test]
fn header_without_colon_is_ignored() {
    let mut p = HeadParser::new();
    p.feed_line(b"GET / HTTP/1.1\r\n");
    let r = p.feed_line(b"no colon here\r\n");
    assert!(matches!(r, FeedOutcome::NeedMore));
    assert_eq!(p.headers.get("no colon here"), None);
}

#[test]
fn later_header_overwrites_earlier() {
    let mut p = HeadParser::new();
    p.feed_line(b"GET / HTTP/1.1\r\n");
    p.feed_line(b"Host: one\r\n");
    p.feed_line(b"HOST: two\r\n");
    assert_eq!(p.headers.get("host"), Some(&"two".to_string()));
}

#[test]
fn query_duplicate_key_keeps_last() {
    let mut p = HeadParser::new();
    p.feed_line(b"GET /x?a=1&a=2 HTTP/1.1\r\n");
    assert_eq!(p.url, "/x");
    assert_eq!(p.query.get("a"), Some(&"2".to_string()));
}

#[test]
fn query_keys_are_lowercased() {
    let mut p = HeadParser::new();
    p.feed_line(b"GET /x?Key=Value HTTP/1.1\r\n");
    assert_eq!(p.query.get("key"), Some(&"Value".to_string()));
    assert_eq!(p.query.get("Key"), None);
}

#[test]
fn query_piece_without_equals_is_dropped() {
    let mut p = HeadParser::new();
    p.feed_line(b"GET /x?flag&a=1 HTTP/1.1\r\n");
    assert_eq!(p.query.get("flag"), None);
    assert_eq!(p.query.get("a"), Some(&"1".to_string()));
}

#[test]
fn target_is_percent_decoded() {
    let mut p = HeadParser::new();
    p.feed_line(b"GET /p%41th%20x HTTP/1.1\r\n");
    assert_eq!(p.url, "/pAth x");
}

#[test]
fn into_request_carries_everything_over() {
    let mut p = HeadParser::new();
    p.feed_line(b"GET /a?k=v HTTP/1.1\r\n");
    p.feed_line(b"Host: a.test\r\n");
    let req = p.into_request("127.0.0.1:9999".to_string(), Some("a.test".to_string()));
    assert_eq!(req.client, "127.0.0.1:9999");
    assert_eq!(req.server_name, Some("a.test".to_string()));
    assert_eq!(req.method, "get");
    assert_eq!(req.url, "/a");
    assert_eq!(req.version, "HTTP/1.1");
    assert_eq!(req.headers.get("host"), Some(&"a.test".to_string()));
    assert_eq!(req.query.get("k"), Some(&"v".to_string()));
}

#[test]
fn query_string_without_query_or_percent() {
    let (path, q) = mchttp::parser::query_string("/plain");
    assert_eq!(path, "/plain");
    assert_eq!(q.get("anything"), None);
}

#[test]
fn query_string_with_encoded_query() {
    let (path, q) = mchttp::parser::query_string("/x?n%41me=v%20w");
    assert_eq!(path, "/x");
    assert_eq!(q.get("name"), Some(&"v w".to_string()));
}

#[test]
fn query_triple_duplicate_keeps_the_last() {
    let (_, q) = mchttp::parser::query_string("/x?a=1&a=2&b=9&a=3");
    assert_eq!(q.get("a"), Some(&"3".to_string()));
    assert_eq!(q.get("b"), Some(&"9".to_string()));
}
