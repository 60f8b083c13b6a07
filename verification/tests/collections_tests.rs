use md_tmpl_core::compiled::NameSet;
use md_tmpl_core::value::{Value, ValueMap};

#[test]
fn hashmap_insert_and_get() {
    let mut m = ValueMap::new();
    m.insert("key".to_string(), Value::Int(42));
    assert_eq!(m.get("key"), Some(&Value::Int(42)));
}

#[test]
fn hashmap_default_is_empty() {
    let m = ValueMap::new();
    assert!(m.is_empty());
}

#[test]
fn hashmap_overwrite_key() {
    let mut m = ValueMap::new();
    m.insert("k".to_string(), Value::Int(1));
    m.insert("k".to_string(), Value::Int(2));
    assert_eq!(m.get("k"), Some(&Value::Int(2)));
    assert_eq!(m.len(), 1);
}

#[test]
fn hashmap_contains_key() {
    let mut m = ValueMap::new();
    m.insert("present".to_string(), Value::Null);
    assert!(m.contains_key("present"));
    assert!(!m.contains_key("absent"));
}

#[test]
fn hashmap_iter() {
    let mut m = ValueMap::new();
    m.insert("a".to_string(), Value::Int(1));
    m.insert("b".to_string(), Value::Int(2));
    let mut keys: Vec<&String> = m.entries().into_iter().map(|(k, _)| k).collect();
    keys.sort();
    assert_eq!(keys, vec![&"a".to_string(), &"b".to_string()]);
}

#[test]
fn hashset_insert_and_contains() {
    let mut s = NameSet::new();
    assert!(s.insert("hello".to_string()));
    assert!(s.contains("hello"));
    assert!(!s.contains("world"));
}

#[test]
fn hashset_default_is_empty() {
    let s = NameSet::new();
    assert_eq!(s.len(), 0);
}

#[test]
fn hashset_no_duplicates() {
    let mut s = NameSet::new();
    assert!(s.insert("x".to_string()));
    assert!(!s.insert("x".to_string()));
    assert_eq!(s.len(), 1);
}

#[test]
fn hashset_remove() {
    let mut s = NameSet::new();
    s.insert("item".to_string());
    assert!(s.remove("item"));
    assert!(!s.contains("item"));
    assert!(!s.remove("item"));
}
