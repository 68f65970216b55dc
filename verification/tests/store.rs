use wren::store::KeyedStore;

#[test]
fn keyed_store_insert_get_remove() {
    let mut s: KeyedStore<u32> = KeyedStore::new();
    assert_eq!(s.insert("a".to_string(), 1), None);
    assert_eq!(s.insert("b".to_string(), 2), None);
    assert_eq!(s.insert("a".to_string(), 3), Some(1));
    assert_eq!(s.len(), 2);
    assert_eq!(s.get("a"), Some(&3));
    assert!(s.contains("b"));
    assert_eq!(s.keys(), vec!["a".to_string(), "b".to_string()]);
    assert_eq!(s.values(), vec![&3, &2]);
    assert_eq!(s.remove("a"), Some(3));
    assert_eq!(s.remove("a"), None);
    assert!(!s.contains("a"));
    s.clear();
    assert_eq!(s.len(), 0);
    assert_eq!(s.get("b"), None);
}
