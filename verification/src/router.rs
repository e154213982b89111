//! The virtual-host router: builds the root directory for a request,
//! anchors the request path under it, and decides from the canonical
//! form of that path whether it may be served.  A canonical path that
//! does not keep the root as a prefix is answered exactly like a
//! missing file.

use crate::text::has_prefix;
use vstd::prelude::*;
use vstd::string::StringExecFns;

verus! {

// ---------------------------------------------------------------------------
// Joining paths
// ---------------------------------------------------------------------------
/// Appending one path segment to another, the way paths are pushed:
/// an absolute `b` replaces `a`; otherwise a separator stands between
/// them unless `a` is empty or already ends with one.
pub open spec fn path_join(a: Seq<char>, b: Seq<char>) -> Seq<char> {
    if b.len() > 0 && b[0] == '/' {
        b
    } else if a.len() == 0 {
        b
    } else if a.last() == '/' {
        a + b
    } else {
        a + seq!['/'] + b
    }
}

/// Joins `a` and `b` as `path_join` describes.
pub fn join_path(a: &str, b: &str) -> (r: String)
    ensures
        r@ == path_join(a@, b@),
{
    let bn = b.unicode_len();
    if bn > 0 && b.get_char(0) == '/' {
        return b.to_owned();
    }
    let an = a.unicode_len();
    if an == 0 {
        return b.to_owned();
    }
    let mut r = a.to_owned();
    if a.get_char(an - 1) != '/' {
        crate::text::push_char(&mut r, '/');
        proof {
            assert(r@ =~= a@ + seq!['/']);
        }
    }
    r.append(b);
    proof {
        if a@.last() != '/' {
            assert(r@ =~= a@ + seq!['/'] + b@);
        }
    }
    r
}

/// A request path with its leading slashes removed.
pub open spec fn strip_leading_slashes(s: Seq<char>) -> Seq<char>
    decreases s.len(),
{
    if s.len() > 0 && s[0] == '/' {
        strip_leading_slashes(s.drop_first())
    } else {
        s
    }
}

proof fn lemma_strip_leading(s: Seq<char>, i: int)
    requires
        0 <= i <= s.len(),
        forall|k: int| 0 <= k < i ==> s[k] == '/',
        i < s.len() ==> s[i] != '/',
    ensures
        strip_leading_slashes(s) == s.subrange(i, s.len() as int),
    decreases i,
{
    if i == 0 {
        assert(s.subrange(0, s.len() as int) =~= s);
    } else {
        assert(s[0] == '/');
        lemma_strip_leading(s.drop_first(), i - 1);
        assert(s.drop_first().subrange(i - 1, s.drop_first().len() as int) =~= s.subrange(
            i,
            s.len() as int,
        ));
    }
}

/// Removes every leading `'/'` of `s`.
pub fn strip_slashes(s: &str) -> (r: String)
    ensures
        r@ == strip_leading_slashes(s@),
{
    let n = s.unicode_len();
    let mut i: usize = 0;
    while i < n && s.get_char(i) == '/'
        invariant
            i <= n,
            n == s@.len(),
            forall|k: int| 0 <= k < i ==> s@[k] == '/',
        decreases n - i,
    {
        i = i + 1;
    }
    proof {
        lemma_strip_leading(s@, i as int);
    }
    s.substring_char(i, n).to_owned()
}

// ---------------------------------------------------------------------------
// The root of a request and the path under it
// ---------------------------------------------------------------------------
/// The root directory a request is served from: the configured data
/// directory, if any, with the negotiated server name under it, if any.
pub open spec fn spec_route_root(data_dir: Option<Seq<char>>, server_name: Option<Seq<char>>) -> Seq<
    char,
> {
    let base = match data_dir {
        None => Seq::<char>::empty(),
        Some(d) => d,
    };
    match server_name {
        None => base,
        Some(n) => path_join(base, n),
    }
}

/// Computes the virtual-host root for a request.
pub fn route_root(data_dir: Option<&String>, server_name: Option<&String>) -> (r: String)
    ensures
        r@ == spec_route_root(
            match data_dir {
                None => None,
                Some(d) => Some(d@),
            },
            match server_name {
                None => None,
                Some(n) => Some(n@),
            },
        ),
{
    let base = match data_dir {
        None => String::new(),
        Some(d) => d.clone(),
    };
    match server_name {
        None => base,
        Some(n) => join_path(base.as_str(), n.as_str()),
    }
}

/// Anchors the request path under the root, its leading slashes gone.
pub fn request_target_path(root: &str, url: &str) -> (r: String)
    ensures
        r@ == path_join(root@, strip_leading_slashes(url@)),
{
    let rest = strip_slashes(url);
    join_path(root, rest.as_str())
}

/// Appends the directory index file when the target denotes a directory.
pub fn with_index_file(path: String, is_dir: bool) -> (r: String)
    ensures
        is_dir ==> r@ == path_join(path@, "index.html"@),
        !is_dir ==> r@ == path@,
{
    if is_dir {
        join_path(path.as_str(), "index.html")
    } else {
        path
    }
}

/// The final segment of a path: everything after its last `'/'`, or
/// the whole path when it has none.
pub open spec fn file_name_of(p: Seq<char>) -> Seq<char> {
    match crate::text::rfind_char(p, '/') {
        None => p,
        Some(i) => p.subrange(i + 1, p.len() as int),
    }
}

/// Extracts the final segment of `p`.
pub fn file_name(p: &str) -> (r: String)
    ensures
        r@ == file_name_of(p@),
{
    let n = p.unicode_len();
    match crate::text::str_rfind_char(p, '/') {
        None => p.to_owned(),
        Some(i) => {
            proof {
                crate::text::lemma_rfind_char(p@, '/');
            }
            p.substring_char(i + 1, n).to_owned()
        },
    }
}

// ---------------------------------------------------------------------------
// Containment
// ---------------------------------------------------------------------------
/// Whether `root` is a prefix of `path` at a path-segment boundary.
/// An empty root contains everything.
pub open spec fn is_path_prefix(root: Seq<char>, path: Seq<char>) -> bool {
    ||| root.len() == 0
    ||| (has_prefix(path, root) && (path.len() == root.len() || path[root.len() as int] == '/'
        || root.last() == '/'))
}

/// Decides whether `root` contains `path` as `is_path_prefix` describes.
pub fn path_starts_with(path: &str, root: &str) -> (r: bool)
    ensures
        r == is_path_prefix(root@, path@),
{
    let m = root.unicode_len();
    if m == 0 {
        return true;
    }
    let n = path.unicode_len();
    if !crate::text::str_starts_with(path, root) {
        return false;
    }
    n == m || path.get_char(m) == '/' || root.get_char(m - 1) == '/'
}

/// The routing decision for one request: the canonical form of the
/// target path, as the filesystem answered it, may be served only when
/// canonicalization succeeded and the virtual-host root is still a
/// prefix of the result.  A missing path and an escaping path get the
/// same answer, so neither case is distinguishable from outside.
pub fn resolve_target<'a>(root: &str, canonical: Option<&'a String>) -> (r: Option<&'a String>)
    ensures
        r is Some <==> (canonical is Some && is_path_prefix(root@, canonical->0@)),
        r is Some ==> r->0 == canonical->0 && is_path_prefix(root@, r->0@),
{
    match canonical {
        None => None,
        Some(p) => {
            if path_starts_with(p.as_str(), root) {
                Some(p)
            } else {
                None
            }
        },
    }
}

} // verus!
