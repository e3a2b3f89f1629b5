use server_status::registry::Registry;

#[test]
fn values_are_found_by_name() {
    let mut r: Registry<String> = Registry::new();
    assert!(r.get("a").is_none());
    r.insert("a".to_string(), "1".to_string());
    r.insert("b".to_string(), "2".to_string());
    assert_eq!(r.get("a").map(|s| s.as_str()), Some("1"));
    assert_eq!(r.find("b"), Some(1));
    assert_eq!(r.find("c"), None);
}

#[test]
fn later_value_takes_the_place_of_the_earlier() {
    let mut r: Registry<String> = Registry::new();
    r.insert("a".to_string(), "1".to_string());
    r.insert("b".to_string(), "2".to_string());
    r.insert("a".to_string(), "3".to_string());
    assert_eq!(r.entries.len(), 2);
    assert_eq!(r.find("a"), Some(0));
    assert_eq!(r.get("a").map(|s| s.as_str()), Some("3"));
    assert_eq!(r.get("b").map(|s| s.as_str()), Some("2"));
}
