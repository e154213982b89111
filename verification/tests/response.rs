//! The two response shapes, byte for byte.

use mchttp::response::{not_found_response, ok_header, ok_response};

#[test]
fn ok_header_announces_exact_length() {
    assert_eq!(
        ok_header("text/html", 13),
        "HTTP/1.1 200 OK\r\nContent-Type: text/html\r\nContent-Length: 13\r\n\r\n"
    );
}

#[test]
fn ok_header_zero_length() {
    assert_eq!(
        ok_header("text/plain", 0),
        "HTTP/1.1 200 OK\r\nContent-Type: text/plain\r\nContent-Length: 0\r\n\r\n"
    );
}

#[test]
fn ok_header_large_length() {
    assert_eq!(
        ok_header("application/octet-stream", 1048576),
        "HTTP/1.1 200 OK\r\nContent-Type: application/octet-stream\r\nContent-Length: 1048576\r\n\r\n"
    );
}

#[test]
fn ok_response_body_is_byte_identical() {
    let r = ok_response("text/plain", "hello, world!");
    assert_eq!(
        r,
        "HTTP/1.1 200 OK\r\nContent-Type: text/plain\r\nContent-Length: 13\r\n\r\nhello, world!"
    );
}

#[test]
fn not_found_has_no_body() {
    assert_eq!(not_found_response(), "HTTP/1.1 404 Not found\r\n\r\n");
}

#[test]
fn ok_header_largest_length() {
    assert_eq!(
        ok_header("text/plain", u64::MAX),
        "HTTP/1.1 200 OK\r\nContent-Type: text/plain\r\nContent-Length: 18446744073709551615\r\n\r\n"
    );
}
