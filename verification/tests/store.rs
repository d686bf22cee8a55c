use gm::store::Store;

#[test]
fn a_store_keeps_one_value_for_a_key() {
    let mut store: Store<u32> = Store::new();
    assert_eq!(store.get("a"), None);
    assert!(!store.contains("a"));
    store.upsert("a", 1);
    store.upsert("b", 2);
    store.upsert("a", 3);
    assert_eq!(store.get("a"), Some(&3));
    assert_eq!(store.get("b"), Some(&2));
    assert_eq!(store.get("A"), None);
    assert!(store.contains("b"));
    assert_eq!(store.remove("a"), Some(3));
    assert_eq!(store.remove("a"), None);
    assert_eq!(store.get("a"), None);
    assert_eq!(store.get("b"), Some(&2));
    store.upsert("", 9);
    assert_eq!(store.get(""), Some(&9));
    assert_eq!(store.remove("b"), Some(2));
    assert_eq!(store.remove(""), Some(9));
    assert!(!store.contains(""));
}
