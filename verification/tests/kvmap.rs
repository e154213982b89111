//! The string-keyed map under the query, header and file tables.

use mchttp::kvmap::KvMap;

#[test]
fn missing_key_is_absent() {
    let m: KvMap<String> = KvMap::new();
    assert_eq!(m.get("k"), None);
    assert!(!m.contains_key("k"));
}

#[test]
fn inserted_key_is_found() {
    let mut m: KvMap<String> = KvMap::new();
    m.insert("k".to_string(), "v".to_string());
    assert_eq!(m.get("k"), Some(&"v".to_string()));
    assert!(m.contains_key("k"));
    assert_eq!(m.get("other"), None);
}

#[test]
fn second_insert_overwrites() {
    let mut m: KvMap<String> = KvMap::new();
    m.insert("k".to_string(), "one".to_string());
    m.insert("k".to_string(), "two".to_string());
    assert_eq!(m.get("k"), Some(&"two".to_string()));
}

#[test]
fn distinct_keys_are_independent() {
    let mut m: KvMap<String> = KvMap::new();
    m.insert("a".to_string(), "1".to_string());
    m.insert("b".to_string(), "2".to_string());
    assert_eq!(m.get("a"), Some(&"1".to_string()));
    assert_eq!(m.get("b"), Some(&"2".to_string()));
}
