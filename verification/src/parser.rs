//! The HTTP/1.1 request-head parser.  One connection feeds it the byte
//! chunks that successive line reads return; it answers whether more
//! input is needed, the head is complete, or the connection must be
//! aborted, and accumulates the method, target, version, query mapping
//! and header mapping on the way.

use crate::kvmap::KvMap;
use crate::text::{
    lower_chars, lower_string, split_chars, split_once_chars, split_string, str_split_once,
    trim_string, trimmed, views_of,
};
use vstd::prelude::*;
use vstd::utf8::{decode_utf8, valid_utf8};

verus! {

// ---------------------------------------------------------------------------
// Trusted gateways to the outside
// ---------------------------------------------------------------------------
/// Relies on `core::str::from_utf8`: it accepts exactly the valid UTF-8
/// byte strings and decodes them.
#[verifier::external_body]
fn utf8_to_str(bytes: &[u8]) -> (r: Option<&str>)
    ensures
        r is Some <==> valid_utf8(bytes@),
        r is Some ==> r->0@ == decode_utf8(bytes@),
{
    core::str::from_utf8(bytes).ok()
}

/// What `urlencoding::decode` yields on a given string, when it yields
/// anything: the percent-decoded text is a function of the input alone.
pub uninterp spec fn url_decoded(s: Seq<char>) -> Option<Seq<char>>;

/// Whether any character of `s` is a percent sign.
pub open spec fn has_percent(s: Seq<char>) -> bool {
    exists|k: int| 0 <= k < s.len() && s[k] == '%'
}

/// Relies on `urlencoding::decode`: the result depends on the input
/// characters alone, and input without `'%'` comes back unchanged.
#[verifier::external_body]
fn url_decode(s: &str) -> (r: Option<String>)
    ensures
        r is Some <==> url_decoded(s@) is Some,
        r is Some ==> r->0@ == url_decoded(s@)->0,
        (r is Some && r->0@ == s@) || has_percent(s@),
{
    match urlencoding::decode(s) {
        Ok(cow) => Some(cow.into_owned()),
        Err(_) => None,
    }
}

// ---------------------------------------------------------------------------
// The query string
// ---------------------------------------------------------------------------
/// The mapping read off a sequence of `key=value` pieces: keys are
/// lowercased, pieces without `'='` are dropped, later keys override
/// earlier ones.
pub open spec fn query_map_of_pieces(pieces: Seq<Seq<char>>) -> Map<Seq<char>, Seq<char>>
    decreases pieces.len(),
{
    if pieces.len() == 0 {
        Map::empty()
    } else {
        let m = query_map_of_pieces(pieces.drop_last());
        match split_once_chars(pieces.last(), '=') {
            None => m,
            Some(kv) => m.insert(lower_chars(kv.0), kv.1),
        }
    }
}

/// The mapping read off a whole query string, split on `'&'`.
pub open spec fn query_map(qs: Seq<char>) -> Map<Seq<char>, Seq<char>> {
    query_map_of_pieces(split_chars(qs, '&'))
}

/// The path part of a request target: the percent-decoded text up to the
/// first `'?'`; an undecodable target is kept verbatim.
pub open spec fn parsed_path(target: Seq<char>) -> Seq<char> {
    match url_decoded(target) {
        None => target,
        Some(d) => match split_once_chars(d, '?') {
            None => d,
            Some(pq) => pq.0,
        },
    }
}

/// The query mapping of a request target: what follows the first `'?'`
/// of the percent-decoded text, as a mapping; empty when there is no
/// `'?'` or the target cannot be decoded.
pub open spec fn parsed_query(target: Seq<char>) -> Map<Seq<char>, Seq<char>> {
    match url_decoded(target) {
        None => Map::empty(),
        Some(d) => match split_once_chars(d, '?') {
            None => Map::empty(),
            Some(pq) => query_map(pq.1),
        },
    }
}

/// Splits a request target into its path and its query mapping.
///
/// The target is percent-decoded first; if that fails the target is
/// returned verbatim with an empty mapping, as if it carried no query.
/// The text after the first `'?'` is split on `'&'`; each piece is
/// split at its first `'='` (pieces without one are dropped), the key
/// is lowercased, and a repeated key keeps the last value seen.
pub fn query_string(url: &str) -> (r: (String, KvMap<String>))
    ensures
        r.0@ == parsed_path(url@),
        r.1@ == parsed_query(url@),
        r.1.wf(),
{
    match url_decode(url) {
        None => (url.to_owned(), KvMap::new()),
        Some(d) => {
            match str_split_once(d.as_str(), '?') {
                None => (d, KvMap::new()),
                Some((path, qs)) => {
                    let mut m: KvMap<String> = KvMap::new();
                    let pieces = split_string(qs.as_str(), '&');
                    let n = pieces.len();
                    let mut i: usize = 0;
                    proof {
                        assert(views_of(pieces@).subrange(0, 0) =~= Seq::<Seq<char>>::empty());
                    }
                    while i < n
                        invariant
                            i <= n,
                            n == pieces@.len(),
                            m.wf(),
                            views_of(pieces@) =~~= split_chars(qs@, '&'),
                            m@ == query_map_of_pieces(views_of(pieces@).subrange(0, i as int)),
                        decreases n - i,
                    {
                        let ghost done = views_of(pieces@).subrange(0, i as int);
                        match str_split_once(pieces[i].as_str(), '=') {
                            None => {},
                            Some((k, v)) => {
                                let key = lower_string(k.as_str());
                                m.insert(key, v);
                            },
                        }
                        i = i + 1;
                        proof {
                            let now = views_of(pieces@).subrange(0, i as int);
                            assert(now.drop_last() =~= done);
                            assert(now.last() == pieces@[i - 1]@);
                        }
                    }
                    proof {
                        assert(views_of(pieces@).subrange(0, n as int) =~= views_of(pieces@));
                    }
                    (path, m)
                },
            }
        },
    }
}

/// Law: a repeated query key keeps the last value seen left-to-right.
/// `k0` is the raw key of piece `i` of the query string's `'&'` split;
/// if no later piece binds the same lowercased key, the mapping holds
/// piece `i`'s value under it — wherever the earlier bindings stood.
pub proof fn lemma_query_last_wins(qs: Seq<char>, i: int, k0: Seq<char>, v: Seq<char>)
    requires
        0 <= i < split_chars(qs, '&').len(),
        split_once_chars(split_chars(qs, '&')[i], '=') == Some((k0, v)),
        forall|j: int|
            i < j < split_chars(qs, '&').len() ==> (match #[trigger] split_once_chars(
                split_chars(qs, '&')[j],
                '=',
            ) {
                None => true,
                Some(kv) => lower_chars(kv.0) != lower_chars(k0),
            }),
    ensures
        query_map(qs).contains_key(lower_chars(k0)),
        query_map(qs)[lower_chars(k0)] == v,
{
    lemma_pieces_last_wins(split_chars(qs, '&'), i, k0, v);
}

/// The same law over the sequence of pieces, proved by walking back
/// from the last piece.
proof fn lemma_pieces_last_wins(pieces: Seq<Seq<char>>, i: int, k0: Seq<char>, v: Seq<char>)
    requires
        0 <= i < pieces.len(),
        split_once_chars(pieces[i], '=') == Some((k0, v)),
        forall|j: int|
            i < j < pieces.len() ==> (match #[trigger] split_once_chars(pieces[j], '=') {
                None => true,
                Some(kv) => lower_chars(kv.0) != lower_chars(k0),
            }),
    ensures
        query_map_of_pieces(pieces).contains_key(lower_chars(k0)),
        query_map_of_pieces(pieces)[lower_chars(k0)] == v,
    decreases pieces.len(),
{
    if i == pieces.len() - 1 {
    } else {
        assert(forall|j: int| 0 <= j < pieces.len() - 1 ==> pieces.drop_last()[j] == pieces[j]);
        lemma_pieces_last_wins(pieces.drop_last(), i, k0, v);
        assert(match split_once_chars(pieces.last(), '=') {
            None => true,
            Some(kv) => lower_chars(kv.0) != lower_chars(k0),
        }) by {
            assert(pieces[pieces.len() - 1] == pieces.last());
        }
    }
}

// ---------------------------------------------------------------------------
// Lines of the request head
// ---------------------------------------------------------------------------
/// A line with its terminator removed: a trailing `'\n'` goes, and a
/// `'\r'` just before it goes too.
pub open spec fn strip_eol(s: Seq<char>) -> Seq<char> {
    if s.len() > 0 && s.last() == '\n' {
        let t = s.drop_last();
        if t.len() > 0 && t.last() == '\r' {
            t.drop_last()
        } else {
            t
        }
    } else {
        s
    }
}

/// Removes a trailing line feed and an optional carriage return before it.
fn strip_eol_exec(s: &str) -> (r: String)
    ensures
        r@ == strip_eol(s@),
{
    let n = s.unicode_len();
    let mut k: usize = n;
    if n > 0 && s.get_char(n - 1) == '\n' {
        k = n - 1;
        if k > 0 && s.get_char(k - 1) == '\r' {
            k = k - 1;
        }
    }
    proof {
        if n > 0 && s@.last() == '\n' {
            let t = s@.drop_last();
            if t.len() > 0 && t.last() == '\r' {
                assert(s@.subrange(0, k as int) =~= t.drop_last());
            } else {
                assert(s@.subrange(0, k as int) =~= t);
            }
        } else {
            assert(s@.subrange(0, k as int) =~= s@);
        }
    }
    s.substring_char(0, k).to_owned()
}

// ---------------------------------------------------------------------------
// The parser itself
// ---------------------------------------------------------------------------
/// Why a connection is dropped without any response bytes.
#[derive(Clone, Copy, PartialEq, Eq, Structural, Debug)]
pub enum ParseError {
    /// A read returned zero bytes: the client closed its end.
    ClientClosed,
    /// A head line was not valid UTF-8.
    BadEncoding,
    /// The request line did not hold exactly three space-separated tokens.
    MalformedRequestLine,
}

/// What the parser asks of the connection after one line.
#[derive(PartialEq, Eq, Structural, Debug)]
pub enum FeedOutcome {
    /// The head is not complete: read another line.
    NeedMore,
    /// An empty line ended the head.
    HeadDone,
    /// Drop the connection without sending anything.
    Abort(ParseError),
}

/// Accumulates one request head, line by line.
pub struct HeadParser {
    /// Whether the request line has been consumed already.
    pub have_request_line: bool,
    pub method: String,
    pub url: String,
    pub version: String,
    pub headers: KvMap<String>,
    pub query: KvMap<String>,
}

impl HeadParser {
    pub open spec fn wf(&self) -> bool {
        self.headers.wf() && self.query.wf()
    }

    /// A parser that has seen nothing: every field empty.
    pub fn new() -> (r: HeadParser)
        ensures
            r.wf(),
            !r.have_request_line,
            r.method@ == Seq::<char>::empty(),
            r.url@ == Seq::<char>::empty(),
            r.version@ == Seq::<char>::empty(),
            r.headers@ == Map::<Seq<char>, Seq<char>>::empty(),
            r.query@ == Map::<Seq<char>, Seq<char>>::empty(),
    {
        HeadParser {
            have_request_line: false,
            method: String::new(),
            url: String::new(),
            version: String::new(),
            headers: KvMap::new(),
            query: KvMap::new(),
        }
    }

    /// Consumes one chunk as a line read returned it, terminator included.
    ///
    /// Zero bytes mean the client closed the stream: abort.  One or two
    /// bytes are an empty line (allowing for `"\r\n"`): the head is done.
    /// A longer chunk must be UTF-8 or the connection aborts.  The first
    /// such line must split on single spaces into exactly method, target
    /// and version, or the connection aborts; the method is lowercased
    /// and the target is split into path and query mapping.  Every later
    /// line binds a header: lowercased, trimmed key and trimmed value,
    /// split at the first `':'`; a line without `':'` is ignored.
    pub fn feed_line(&mut self, line: &[u8]) -> (r: FeedOutcome)
        requires
            old(self).wf(),
        ensures
            final(self).wf(),
            line@.len() == 0 ==> r == FeedOutcome::Abort(ParseError::ClientClosed) && *final(self) == *old(self),
            1 <= line@.len() <= 2 ==> r == FeedOutcome::HeadDone && *final(self) == *old(self),
            line@.len() > 2 && !valid_utf8(line@) ==> r == FeedOutcome::Abort(
                ParseError::BadEncoding,
            ) && *final(self) == *old(self),
            line@.len() > 2 && valid_utf8(line@) && !old(self).have_request_line ==> ({
                let toks = split_chars(strip_eol(decode_utf8(line@)), ' ');
                if toks.len() != 3 {
                    &&& r == FeedOutcome::Abort(ParseError::MalformedRequestLine)
                    &&& *final(self) == *old(self)
                } else {
                    &&& r == FeedOutcome::NeedMore
                    &&& final(self).have_request_line
                    &&& final(self).method@ == lower_chars(toks[0])
                    &&& final(self).url@ == parsed_path(toks[1])
                    &&& final(self).query@ == parsed_query(toks[1])
                    &&& final(self).version@ == toks[2]
                    &&& final(self).headers == old(self).headers
                }
            }),
            line@.len() > 2 && valid_utf8(line@) && old(self).have_request_line ==> ({
                let parsed = split_once_chars(strip_eol(decode_utf8(line@)), ':');
                &&& r == FeedOutcome::NeedMore
                &&& final(self).have_request_line
                &&& final(self).method == old(self).method
                &&& final(self).url == old(self).url
                &&& final(self).version == old(self).version
                &&& final(self).query == old(self).query
                &&& match parsed {
                    None => final(self).headers == old(self).headers,
                    Some(kv) => final(self).headers@ == old(self).headers@.insert(
                        lower_chars(trimmed(kv.0)),
                        trimmed(kv.1),
                    ),
                }
            }),
    {
        let len = line.len();
        if len == 0 {
            return FeedOutcome::Abort(ParseError::ClientClosed);
        }
        if len <= 2 {
            return FeedOutcome::HeadDone;
        }
        let text = match utf8_to_str(line) {
            None => {
                return FeedOutcome::Abort(ParseError::BadEncoding);
            },
            Some(t) => t,
        };
        let stripped = strip_eol_exec(text);
        if !self.have_request_line {
            let toks = split_string(stripped.as_str(), ' ');
            if toks.len() != 3 {
                return FeedOutcome::Abort(ParseError::MalformedRequestLine);
            }
            proof {
                assert(views_of(toks@)[0] == toks@[0]@);
                assert(views_of(toks@)[1] == toks@[1]@);
                assert(views_of(toks@)[2] == toks@[2]@);
            }
            self.method = lower_string(toks[0].as_str());
            let (url, query) = query_string(toks[1].as_str());
            self.url = url;
            self.query = query;
            self.version = toks[2].clone();
            self.have_request_line = true;
            FeedOutcome::NeedMore
        } else {
            match str_split_once(stripped.as_str(), ':') {
                None => FeedOutcome::NeedMore,
                Some((k, v)) => {
                    let key_trimmed = trim_string(k.as_str());
                    let key = lower_string(key_trimmed.as_str());
                    let value = trim_string(v.as_str());
                    self.headers.insert(key, value);
                    FeedOutcome::NeedMore
                },
            }
        }
    }

    /// The request that a completed head denotes, for the given client
    /// and negotiated server name.
    pub fn into_request(self, client: String, server_name: Option<String>) -> (r: HttpRequest)
        requires
            self.wf(),
        ensures
            r.wf(),
            r.server_name == server_name,
            r.client == client,
            r.method == self.method,
            r.url == self.url,
            r.version == self.version,
            r.headers == self.headers,
            r.query == self.query,
    {
        HttpRequest {
            server_name,
            client,
            method: self.method,
            url: self.url,
            version: self.version,
            headers: self.headers,
            query: self.query,
        }
    }
}

/// One parsed request head, with who sent it and under which
/// negotiated server name it arrived.  The connection's stream stays
/// with the connection code; everything here is plain data.
pub struct HttpRequest {
    /// The server name the TLS handshake negotiated, if any.
    pub server_name: Option<String>,
    /// The peer address, as text.
    pub client: String,
    /// The request method, lowercased.
    pub method: String,
    /// The request path, percent-decoded, query removed.
    pub url: String,
    /// The protocol version token, kept verbatim.
    pub version: String,
    /// Header keys, lowercased and trimmed, to trimmed values.
    pub headers: KvMap<String>,
    /// Query keys, lowercased, to values; the last binding wins.
    pub query: KvMap<String>,
}

impl HttpRequest {
    pub open spec fn wf(&self) -> bool {
        self.headers.wf() && self.query.wf()
    }
}

} // verus!
