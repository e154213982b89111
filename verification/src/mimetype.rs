//! The static suffix-to-type table: a content type for the extension
//! of a path, with an opaque binary type as the default.

use crate::router::file_name_of;
use crate::text::{rfind_char, str_eq_str, str_rfind_char};
use vstd::prelude::*;

verus! {

/// The extension of a path: what follows the last `'.'` of its final
/// segment; none when that segment has no `'.'`, or only a leading one.
pub open spec fn extension_of(p: Seq<char>) -> Option<Seq<char>> {
    let f = file_name_of(p);
    match rfind_char(f, '.') {
        None => None,
        Some(i) => if i == 0 {
            None
        } else {
            Some(f.subrange(i + 1, f.len() as int))
        },
    }
}

/// Extracts the extension of `p` as `extension_of` describes.
pub fn extension(p: &str) -> (r: Option<String>)
    ensures
        match r {
            None => extension_of(p@) is None,
            Some(e) => extension_of(p@) == Some(e@),
        },
{
    let f = crate::router::file_name(p);
    let n = f.unicode_len();
    match str_rfind_char(f.as_str(), '.') {
        None => None,
        Some(i) => {
            if i == 0 {
                None
            } else {
                proof {
                    crate::text::lemma_rfind_char(f@, '.');
                }
                Some(f.as_str().substring_char(i + 1, n).to_owned())
            }
        },
    }
}

/// The content type for one extension.
pub open spec fn mime_for_extension(e: Seq<char>) -> Seq<char> {
    if e == "doc"@ {
        "application/msword"@
    } else if e == "md"@ {
        "text/markdown"@
    } else if e == "pdf"@ {
        "application/pdf"@
    } else if e == "docx"@ {
        "application/vnd.openxmlformats-officedocument.wordprocessingml.document"@
    } else if e == "gif"@ {
        "image/gif"@
    } else if e == "png"@ {
        "image/png"@
    } else if e == "jpeg"@ {
        "image/jpeg"@
    } else if e == "jpg"@ {
        "image/jpeg"@
    } else if e == "ico"@ {
        "image/x-icon"@
    } else if e == "htm"@ {
        "text/html"@
    } else if e == "html"@ {
        "text/html"@
    } else if e == "txt"@ {
        "text/plain"@
    } else if e == "jar"@ {
        "application/java-archive"@
    } else if e == "js"@ {
        "text/javascript"@
    } else if e == "json"@ {
        "application/json"@
    } else if e == "zip"@ {
        "application/zip"@
    } else if e == "gz"@ {
        "application/gzip"@
    } else if e == "xml"@ {
        "application/xml"@
    } else if e == "xls"@ {
        "application/vnd.ms-excel"@
    } else if e == "xlsx"@ {
        "application/vnd.ms-excel"@
    } else if e == "rtf"@ {
        "application/rtf"@
    } else {
        "application/octet-stream"@
    }
}

/// The content type for a path, by its extension.
pub open spec fn spec_mimetype(p: Seq<char>) -> Seq<char> {
    match extension_of(p) {
        None => "application/octet-stream"@,
        Some(e) => mime_for_extension(e),
    }
}

/// Looks up the content type that the extension of `path` selects;
/// anything unknown is served as an opaque binary type.
pub fn lookup_mimetype(path: &str) -> (r: &'static str)
    ensures
        r@ == spec_mimetype(path@),
{
    let ext = match extension(path) {
        None => {
            return "application/octet-stream";
        },
        Some(e) => e,
    };
    let e = ext.as_str();
    if str_eq_str(e, "doc") {
        "application/msword"
    } else if str_eq_str(e, "md") {
        "text/markdown"
    } else if str_eq_str(e, "pdf") {
        "application/pdf"
    } else if str_eq_str(e, "docx") {
        "application/vnd.openxmlformats-officedocument.wordprocessingml.document"
    } else if str_eq_str(e, "gif") {
        "image/gif"
    } else if str_eq_str(e, "png") {
        "image/png"
    } else if str_eq_str(e, "jpeg") {
        "image/jpeg"
    } else if str_eq_str(e, "jpg") {
        "image/jpeg"
    } else if str_eq_str(e, "ico") {
        "image/x-icon"
    } else if str_eq_str(e, "htm") {
        "text/html"
    } else if str_eq_str(e, "html") {
        "text/html"
    } else if str_eq_str(e, "txt") {
        "text/plain"
    } else if str_eq_str(e, "jar") {
        "application/java-archive"
    } else if str_eq_str(e, "js") {
        "text/javascript"
    } else if str_eq_str(e, "json") {
        "application/json"
    } else if str_eq_str(e, "zip") {
        "application/zip"
    } else if str_eq_str(e, "gz") {
        "application/gzip"
    } else if str_eq_str(e, "xml") {
        "application/xml"
    } else if str_eq_str(e, "xls") {
        "application/vnd.ms-excel"
    } else if str_eq_str(e, "xlsx") {
        "application/vnd.ms-excel"
    } else if str_eq_str(e, "rtf") {
        "application/rtf"
    } else {
        "application/octet-stream"
    }
}

} // verus!
