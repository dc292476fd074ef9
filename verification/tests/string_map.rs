use toli::string_map::StringMap;

#[test]
fn insert_get_and_replace() {
    let mut m: StringMap<u32> = StringMap::new();
    assert!(m.is_empty());
    m.insert("b".to_string(), 1);
    m.insert("a".to_string(), 2);
    assert_eq!(m.get(&"b".to_string()), Some(&1));
    assert_eq!(m.get(&"c".to_string()), None);
    m.insert("b".to_string(), 3);
    assert_eq!(m.len(), 2);
    assert_eq!(m.get(&"b".to_string()), Some(&3));
    assert_eq!(m.key_at(0), "b");
    assert_eq!(m.key_at(1), "a");
    assert!(m.contains_key(&"a".to_string()));
    assert!(!m.contains_key(&"z".to_string()));
    let entries = m.into_entries();
    assert_eq!(entries, vec![("b".to_string(), 3), ("a".to_string(), 2)]);
}
