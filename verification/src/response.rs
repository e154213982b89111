//! The response writer's text: the two response heads the server ever
//! sends.  A success carries a content type and an exact content
//! length; a miss carries nothing.  The connection code copies these
//! characters, and for a success the file's first `Content-Length`
//! bytes, onto the stream.

use crate::text::{decimal_chars, u64_to_string};
use vstd::prelude::*;
use vstd::string::StringExecFns;
use vstd::string::StringSliceAdditionalSpecFns;

verus! {

/// The head of a success response: status line, content type, exact
/// decimal content length, and the blank line that ends the head.
pub open spec fn ok_header_chars(content_type: Seq<char>, content_length: nat) -> Seq<char> {
    "HTTP/1.1 200 OK\r\nContent-Type: "@ + content_type + "\r\nContent-Length: "@ + decimal_chars(
        content_length,
    ) + "\r\n\r\n"@
}

/// The whole of a miss response: one status line, no headers, no body.
pub open spec fn not_found_chars() -> Seq<char> {
    "HTTP/1.1 404 Not found\r\n\r\n"@
}

/// Renders the head of a success response announcing `content_length`
/// body bytes of type `content_type`.
pub fn ok_header(content_type: &str, content_length: u64) -> (r: String)
    ensures
        r@ == ok_header_chars(content_type@, content_length as nat),
{
    let mut r = "HTTP/1.1 200 OK\r\nContent-Type: ".to_owned();
    r.append(content_type);
    r.append("\r\nContent-Length: ");
    let num = u64_to_string(content_length);
    r.append(num.as_str());
    r.append("\r\n\r\n");
    proof {
        assert(r@ =~= ok_header_chars(content_type@, content_length as nat));
    }
    r
}

/// Renders a success response with an inline body: the head announces
/// exactly the body's byte length, and the body follows it.
pub fn ok_response(content_type: &str, content: &str) -> (r: String)
    ensures
        r@ == ok_header_chars(content_type@, content.spec_bytes().len()) + content@,
{
    let len = content.as_bytes().len();
    let mut r = ok_header(content_type, len as u64);
    r.append(content);
    proof {
        assert(r@ =~= ok_header_chars(content_type@, content.spec_bytes().len()) + content@);
    }
    r
}

/// Renders the miss response.
pub fn not_found_response() -> (r: String)
    ensures
        r@ == not_found_chars(),
{
    "HTTP/1.1 404 Not found\r\n\r\n".to_owned()
}

} // verus!
