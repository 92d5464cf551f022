use opengamecore::string_map::StringMap;

#[test]
fn insert_get_and_override() {
    let mut m = StringMap::new();
    assert!(m.get("A").is_none());
    m.insert("A".into(), "1".into());
    m.insert("B".into(), "2".into());
    m.insert("A".into(), "3".into());
    assert_eq!(m.get("A").unwrap(), "3");
    assert_eq!(m.get("B").unwrap(), "2");
    assert!(m.contains_key("B"));
    assert!(!m.contains_key("C"));
}

#[test]
fn extend_prefers_other() {
    let mut a = StringMap::from_entries(vec![("X".into(), "a".into()), ("Y".into(), "a".into())]);
    let b = StringMap::from_entries(vec![("Y".into(), "b".into()), ("Z".into(), "b".into())]);
    a.extend(&b);
    assert_eq!(a.get("X").unwrap(), "a");
    assert_eq!(a.get("Y").unwrap(), "b");
    assert_eq!(a.get("Z").unwrap(), "b");
}

#[test]
fn later_entries_win() {
    let m = StringMap::from_entries(vec![("K".into(), "first".into()), ("K".into(), "second".into())]);
    assert_eq!(m.get("K").unwrap(), "second");
    assert_eq!(m.duplicate().get("K").unwrap(), "second");
}
