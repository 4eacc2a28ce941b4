use tachyscope::indexable::IndexableHashMap;

#[test]
fn values_are_reachable_by_position_and_key() {
    let mut m: IndexableHashMap<u32, &str> = IndexableHashMap::new();
    assert_eq!(m.insert(10, "a"), Some(&"a"));
    assert_eq!(m.insert(20, "b"), Some(&"b"));
    assert_eq!(m.get(0), Some(&"a"));
    assert_eq!(m.get(1), Some(&"b"));
    assert_eq!(m.get(2), None);
    assert_eq!(m.lookup_hash(&20), Some(&"b"));
    assert_eq!(m.lookup_hash(&30), None);
    assert_eq!(m.values(), &vec!["a", "b"]);
}

#[test]
fn reinserting_a_key_points_it_at_the_new_value() {
    let mut m: IndexableHashMap<u32, u8> = IndexableHashMap::new();
    m.insert(1, 5);
    m.insert(1, 6);
    assert_eq!(m.lookup_hash(&1), Some(&6));
    assert_eq!(m.values(), &vec![5, 6]);
    assert_eq!(m.keys(), vec![&1]);
}

#[test]
fn keys_are_listed_once_each() {
    let mut m: IndexableHashMap<u32, u8> = IndexableHashMap::new();
    assert!(m.keys().is_empty());
    m.insert(3, 0);
    m.insert(1, 0);
    m.insert(2, 0);
    let mut k: Vec<u32> = m.keys().into_iter().copied().collect();
    k.sort();
    assert_eq!(k, vec![1, 2, 3]);
}
