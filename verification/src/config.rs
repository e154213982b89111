//! The immutable configuration snapshot: verbosity, bind address, the
//! explicit path table, the data directory and the TLS source path.
//! The command line is read outside; each recognized argument maps to
//! one classification here and one update with the filesystem's answer
//! already in hand.

use crate::kvmap::KvMap;
use vstd::prelude::*;
use vstd::string::StringExecFns;

verus! {

/// Everything the server is started with, captured once.
pub struct Config {
    /// Whether per-connection progress is logged.
    pub verbose: bool,
    /// The address the listener binds.
    pub bind_addr: String,
    /// Explicit request-path to filesystem-location entries.
    pub files: KvMap<String>,
    /// The directory virtual-host roots live under, canonicalized.
    pub data_dir: Option<String>,
    /// The certificate source: a directory of hostnames or one file of
    /// a certificate/key pair.  TLS is on exactly when this is set.
    pub tls: Option<String>,
}

/// How one command-line token is understood.
#[derive(PartialEq, Eq, Structural, Debug, Clone, Copy)]
pub enum ArgKind {
    /// `-v`: raise verbosity.
    Verbose,
    /// `-l`: the next token is the bind address.
    BindAddr,
    /// `-t`: the next token is the TLS source path.
    TlsPath,
    /// `-d`: the next token is the data directory.
    DataDir,
    /// `-r`: the next token is served for the root request path.
    RootFile,
    /// `-h` or `-?`: print usage and stop.
    Help,
    /// Anything else: a file served under its own name.
    FilePath,
}

/// The classification of one command-line token.
pub open spec fn spec_classify(a: Seq<char>) -> ArgKind {
    if a == "-v"@ {
        ArgKind::Verbose
    } else if a == "-l"@ {
        ArgKind::BindAddr
    } else if a == "-t"@ {
        ArgKind::TlsPath
    } else if a == "-d"@ {
        ArgKind::DataDir
    } else if a == "-r"@ {
        ArgKind::RootFile
    } else if a == "-h"@ || a == "-?"@ {
        ArgKind::Help
    } else {
        ArgKind::FilePath
    }
}

/// Classifies one command-line token.
pub fn classify_arg(a: &str) -> (r: ArgKind)
    ensures
        r == spec_classify(a@),
{
    if crate::text::str_eq_str(a, "-v") {
        ArgKind::Verbose
    } else if crate::text::str_eq_str(a, "-l") {
        ArgKind::BindAddr
    } else if crate::text::str_eq_str(a, "-t") {
        ArgKind::TlsPath
    } else if crate::text::str_eq_str(a, "-d") {
        ArgKind::DataDir
    } else if crate::text::str_eq_str(a, "-r") {
        ArgKind::RootFile
    } else if crate::text::str_eq_str(a, "-h") || crate::text::str_eq_str(a, "-?") {
        ArgKind::Help
    } else {
        ArgKind::FilePath
    }
}

/// The request path a file argument is served under: itself when it is
/// absolute, under a leading slash otherwise.
pub open spec fn spec_file_key(a: Seq<char>) -> Seq<char> {
    if a.len() > 0 && a[0] == '/' {
        a
    } else {
        seq!['/'] + a
    }
}

impl Config {
    pub open spec fn wf(&self) -> bool {
        self.files.wf()
    }

    /// Raises verbosity.
    pub fn set_verbose(&mut self)
        requires
            old(self).wf(),
        ensures
            final(self).wf(),
            *final(self) == (Config { verbose: true, ..*old(self) }),
    {
        self.verbose = true;
    }

    /// Takes the bind address that follows `-l`.
    pub fn set_bind_addr(&mut self, addr: String)
        requires
            old(self).wf(),
        ensures
            final(self).wf(),
            *final(self) == (Config { bind_addr: addr, ..*old(self) }),
    {
        self.bind_addr = addr;
    }

    /// Takes the TLS source path that follows `-t`.
    pub fn set_tls(&mut self, path: String)
        requires
            old(self).wf(),
        ensures
            final(self).wf(),
            *final(self) == (Config { tls: Some(path), ..*old(self) }),
    {
        self.tls = Some(path);
    }

    /// Takes the canonical form of the data directory that follows `-d`.
    pub fn set_data_dir(&mut self, canonical: String)
        requires
            old(self).wf(),
        ensures
            final(self).wf(),
            *final(self) == (Config { data_dir: Some(canonical), ..*old(self) }),
    {
        self.data_dir = Some(canonical);
    }

    /// Serves the canonicalized file that follows `-r` for the root path.
    pub fn add_root_file(&mut self, canonical: String)
        requires
            old(self).wf(),
        ensures
            final(self).wf(),
            final(self).files@ == old(self).files@.insert("/"@, canonical@),
            final(self).verbose == old(self).verbose,
            final(self).bind_addr == old(self).bind_addr,
            final(self).data_dir == old(self).data_dir,
            final(self).tls == old(self).tls,
    {
        self.files.insert("/".to_owned(), canonical);
    }

    /// Serves the canonicalized file named by a bare argument under the
    /// argument's own name, anchored at the root.
    pub fn add_file(&mut self, arg: String, canonical: String)
        requires
            old(self).wf(),
        ensures
            final(self).wf(),
            final(self).files@ == old(self).files@.insert(spec_file_key(arg@), canonical@),
            final(self).verbose == old(self).verbose,
            final(self).bind_addr == old(self).bind_addr,
            final(self).data_dir == old(self).data_dir,
            final(self).tls == old(self).tls,
    {
        let n = arg.as_str().unicode_len();
        if n > 0 && arg.as_str().get_char(0) == '/' {
            self.files.insert(arg, canonical);
        } else {
            let mut key = "/".to_owned();
            key.append(arg.as_str());
            proof {
                reveal_strlit("/");
                assert(key@ =~= seq!['/'] + arg@);
            }
            self.files.insert(key, canonical);
        }
    }
}

impl Default for Config {
    /// A quiet server on every interface, port 8080, with no files, no
    /// data directory and no TLS.
    fn default() -> (r: Config)
        ensures
            r.wf(),
            !r.verbose,
            r.bind_addr@ == "0.0.0.0:8080"@,
            r.files@ == Map::<Seq<char>, Seq<char>>::empty(),
            r.data_dir is None,
            r.tls is None,
    {
        Config {
            verbose: false,
            bind_addr: "0.0.0.0:8080".to_owned(),
            files: KvMap::new(),
            data_dir: None,
            tls: None,
        }
    }
}

} // verus!
