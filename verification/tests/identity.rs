//! The identity resolver and the planning of certificate locations.

use mchttp::identity::{
    identity_pair_for_file, identity_paths_for_host, CertEntry, IdentityError, IdentityResolver,
};

fn entry(tag: u8) -> CertEntry {
    CertEntry { chain: vec![vec![tag, 1, 2], vec![tag, 3]], key_der: vec![tag, 9] }
}

#[test]
fn loaded_hostname_resolves_to_its_entry() {
    // The directory layout {root}/example.com/{fullchain.pem,privkey.pem}
    // plans these two paths for the hostname taken from the subdirectory:
    let (cert, key) = identity_paths_for_host("/etc/letsencrypt/live", "example.com");
    assert_eq!(cert, "/etc/letsencrypt/live/example.com/fullchain.pem");
    assert_eq!(key, "/etc/letsencrypt/live/example.com/privkey.pem");

    // Registering the loaded material makes that hostname resolve to it,
    // and an unknown name resolve to nothing rather than a default.
    let mut r = IdentityResolver::new();
    r.add("example.com".to_string(), entry(7));
    let found = r.resolve("example.com").expect("registered hostname should resolve");
    assert_eq!(found.chain, vec![vec![7, 1, 2], vec![7, 3]]);
    assert_eq!(found.key_der, vec![7, 9]);
    assert!(r.resolve("other.com").is_none());
}

#[test]
fn later_entry_overwrites_earlier() {
    let mut r = IdentityResolver::new();
    r.add("example.com".to_string(), entry(1));
    r.add("example.com".to_string(), entry(2));
    let found = r.resolve("example.com").unwrap();
    assert_eq!(found.key_der, vec![2, 9]);
}

#[test]
fn empty_resolver_resolves_nothing() {
    let r = IdentityResolver::new();
    assert!(r.resolve("example.com").is_none());
}

#[test]
fn key_file_names_its_certificate() {
    let (host, cert, key) = identity_pair_for_file("/pki/my.domain.name.key").unwrap();
    assert_eq!(host, "my.domain.name");
    assert_eq!(cert, "/pki/my.domain.name.crt");
    assert_eq!(key, "/pki/my.domain.name.key");
}

#[test]
fn crt_file_names_its_key() {
    let (host, cert, key) = identity_pair_for_file("localhost.crt").unwrap();
    assert_eq!(host, "localhost");
    assert_eq!(cert, "localhost.crt");
    assert_eq!(key, "localhost.key");
}

#[test]
fn other_suffix_is_refused() {
    assert_eq!(
        identity_pair_for_file("/pki/site.pem"),
        Err(IdentityError::UnsupportedSuffix)
    );
}

#[test]
fn path_without_file_name_is_refused() {
    assert_eq!(identity_pair_for_file("/pki/"), Err(IdentityError::NoFileStem));
    assert_eq!(
        identity_pair_for_file("/pki/").unwrap_err().describe(),
        "identity path has no file name to take a hostname from"
    );
}
