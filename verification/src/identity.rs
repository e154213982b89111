//! The identity resolver: certificate material keyed by hostname, and
//! the planning of which files hold it.  A directory source names one
//! hostname per subdirectory, each expected to hold a certificate
//! chain and a private key under fixed names; a file source names one
//! hostname by its stem, with the matching half found by swapping the
//! suffix.  Reading and parsing the files happens outside; the entries
//! come back here as plain bytes.

use crate::kvmap::KvMap;
use crate::router::{file_name_of, path_join};
use crate::text::{has_suffix, rfind_char, str_ends_with};
use vstd::prelude::*;
use vstd::string::StringExecFns;

verus! {

/// The identity material of one hostname: its certificate chain and
/// its private key, both in binary (DER) form.  The signing key the
/// TLS stack derives from them lives outside, since only that stack
/// can build it.
pub struct CertEntry {
    /// The certificates of the chain, leaf first.
    pub chain: Vec<Vec<u8>>,
    /// The private key.
    pub key_der: Vec<u8>,
}

/// The abstract content of a `CertEntry`.
pub struct CertEntryModel {
    pub chain: Seq<Seq<u8>>,
    pub key_der: Seq<u8>,
}

impl View for CertEntry {
    type V = CertEntryModel;

    open spec fn view(&self) -> CertEntryModel {
        CertEntryModel { chain: self.chain.deep_view(), key_der: self.key_der@ }
    }
}

/// One snapshot of certificate material, keyed by hostname.  At most
/// one entry stands per hostname: a later entry for the same hostname
/// overwrites the earlier one.
pub struct IdentityResolver {
    entries: KvMap<CertEntry>,
}

impl View for IdentityResolver {
    type V = Map<Seq<char>, CertEntryModel>;

    closed spec fn view(&self) -> Map<Seq<char>, CertEntryModel> {
        self.entries@
    }
}

impl IdentityResolver {
    pub closed spec fn wf(&self) -> bool {
        self.entries.wf()
    }

    /// A snapshot with no identities at all.
    pub fn new() -> (r: IdentityResolver)
        ensures
            r.wf(),
            r@ == Map::<Seq<char>, CertEntryModel>::empty(),
    {
        IdentityResolver { entries: KvMap::new() }
    }

    /// Registers `entry` for `hostname`, overwriting an earlier entry
    /// of the same hostname.
    pub fn add(&mut self, hostname: String, entry: CertEntry)
        requires
            old(self).wf(),
        ensures
            final(self).wf(),
            final(self)@ == old(self)@.insert(hostname@, entry@),
    {
        self.entries.insert(hostname, entry);
    }

    /// The entry for `hostname`: exactly the registered one, or none
    /// at all for a hostname never registered — never a substitute.
    pub fn resolve(&self, hostname: &str) -> (r: Option<&CertEntry>)
        requires
            self.wf(),
        ensures
            match r {
                Some(e) => self@.contains_key(hostname@) && e@ == self@[hostname@],
                None => !self@.contains_key(hostname@),
            },
    {
        self.entries.get(hostname)
    }
}

// ---------------------------------------------------------------------------
// Where identities are found
// ---------------------------------------------------------------------------
/// Why a file source cannot name an identity.
#[derive(PartialEq, Eq, Structural, Debug, Clone, Copy)]
pub enum IdentityError {
    /// The path has no final segment to read a hostname from.
    NoFileStem,
    /// The file name ends in neither the key nor the certificate suffix.
    UnsupportedSuffix,
}

impl IdentityError {
    /// A short account of the failure.
    pub fn describe(&self) -> (r: &'static str)
        ensures
            *self == IdentityError::NoFileStem ==> r@
                == "identity path has no file name to take a hostname from"@,
            *self == IdentityError::UnsupportedSuffix ==> r@
                == "identity file name should end in .key or .crt"@,
    {
        match self {
            IdentityError::NoFileStem => "identity path has no file name to take a hostname from",
            IdentityError::UnsupportedSuffix => "identity file name should end in .key or .crt",
        }
    }
}

/// The stem of a path's final segment: the segment without its
/// extension; the whole segment when it has no `'.'` beyond a leading one.
pub open spec fn file_stem_of(p: Seq<char>) -> Seq<char> {
    let f = file_name_of(p);
    match rfind_char(f, '.') {
        None => f,
        Some(i) => if i == 0 {
            f
        } else {
            f.subrange(0, i)
        },
    }
}

/// Extracts the stem of `p`'s final segment.
pub fn file_stem(p: &str) -> (r: String)
    ensures
        r@ == file_stem_of(p@),
{
    let f = crate::router::file_name(p);
    match crate::text::str_rfind_char(f.as_str(), '.') {
        None => f,
        Some(i) => {
            if i == 0 {
                f
            } else {
                proof {
                    crate::text::lemma_rfind_char(f@, '.');
                }
                f.as_str().substring_char(0, i).to_owned()
            }
        },
    }
}

/// The certificate and key paths inside one hostname's subdirectory.
pub fn identity_paths_for_host(dir: &str, hostname: &str) -> (r: (String, String))
    ensures
        r.0@ == path_join(path_join(dir@, hostname@), "fullchain.pem"@),
        r.1@ == path_join(path_join(dir@, hostname@), "privkey.pem"@),
{
    let base = crate::router::join_path(dir, hostname);
    let cert = crate::router::join_path(base.as_str(), "fullchain.pem");
    let key = crate::router::join_path(base.as_str(), "privkey.pem");
    (cert, key)
}

/// For a single-file source: the hostname it names and where both
/// halves of the identity live.
///
/// The hostname is the file's stem.  A path ending in the key suffix
/// is the key, with the certificate beside it under the swapped
/// suffix, and the other way around; any other suffix is refused, as
/// is a path without a final segment.
pub fn identity_pair_for_file(path: &str) -> (r: Result<(String, String, String), IdentityError>)
    ensures
        match r {
            Ok(t) => {
                &&& file_name_of(path@).len() > 0
                &&& t.0@ == file_stem_of(path@)
                &&& (has_suffix(path@, ".key"@) || has_suffix(path@, ".crt"@))
                &&& has_suffix(path@, ".key"@) ==> t.2@ == path@ && t.1@ == path@.subrange(
                    0,
                    path@.len() - 4,
                ) + ".crt"@
                &&& !has_suffix(path@, ".key"@) ==> t.1@ == path@ && t.2@ == path@.subrange(
                    0,
                    path@.len() - 4,
                ) + ".key"@
            },
            Err(IdentityError::NoFileStem) => file_name_of(path@).len() == 0,
            Err(IdentityError::UnsupportedSuffix) => file_name_of(path@).len() > 0 && !has_suffix(
                path@,
                ".key"@,
            ) && !has_suffix(path@, ".crt"@),
        },
{
    let name = crate::router::file_name(path);
    if name.as_str().unicode_len() == 0 {
        return Err(IdentityError::NoFileStem);
    }
    let stem = file_stem(path);
    let n = path.unicode_len();
    if str_ends_with(path, ".key") {
        proof {
            reveal_strlit(".key");
        }
        let mut cert = path.substring_char(0, n - 4).to_owned();
        cert.append(".crt");
        Ok((stem, cert, path.to_owned()))
    } else if str_ends_with(path, ".crt") {
        proof {
            reveal_strlit(".crt");
        }
        let mut key = path.substring_char(0, n - 4).to_owned();
        key.append(".key");
        Ok((stem, path.to_owned(), key))
    } else {
        Err(IdentityError::UnsupportedSuffix)
    }
}

} // verus!
