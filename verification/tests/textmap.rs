use workshop_hub::textmap::TextMap;

#[test]
fn insert_get_remove() {
    let mut m: TextMap<String> = TextMap::new();
    assert!(m.is_empty());
    m.insert("a".to_string(), "1".to_string());
    m.insert("b".to_string(), "2".to_string());
    m.insert("a".to_string(), "3".to_string());
    assert_eq!(m.len(), 2);
    assert_eq!(m.get("a"), Some(&"3".to_string()));
    assert_eq!(m.get("b"), Some(&"2".to_string()));
    assert_eq!(m.get("c"), None);
    assert!(m.contains_key("b"));
    m.remove("a");
    assert_eq!(m.get("a"), None);
    assert_eq!(m.len(), 1);
    assert_eq!(m.take("b"), Some("2".to_string()));
    assert_eq!(m.take("b"), None);
    assert!(m.is_empty());
}

#[test]
fn keys_and_duplicate() {
    let mut m: TextMap<String> = TextMap::new();
    m.insert("x".to_string(), "1".to_string());
    m.insert("y".to_string(), "2".to_string());
    let mut ks = m.keys();
    ks.sort();
    assert_eq!(ks, vec!["x".to_string(), "y".to_string()]);
    let d = m.duplicate();
    assert_eq!(d.get("x"), Some(&"1".to_string()));
    assert_eq!(d.get("y"), Some(&"2".to_string()));
    assert_eq!(d.len(), 2);
}
