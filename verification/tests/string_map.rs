use mqtt_link::string_map::StringMap;

#[test]
fn new_map_is_empty() {
    let map: StringMap<u8> = StringMap::new();
    assert_eq!(map.len(), 0);
    assert_eq!(map.get("a"), None);
    assert_eq!(map.entry(0), None);
    assert_eq!(map.position("a"), None);
}

#[test]
fn insert_then_get() {
    let mut map = StringMap::new();
    assert_eq!(map.insert("a".to_string(), 1), None);
    assert_eq!(map.insert("b".to_string(), 2), None);
    assert_eq!(map.get("a"), Some(&1));
    assert_eq!(map.get("b"), Some(&2));
    assert_eq!(map.get("c"), None);
    assert!(map.contains_key("a"));
    assert!(!map.contains_key("c"));
    assert_eq!(map.len(), 2);
}

#[test]
fn insert_of_a_held_key_keeps_its_place_and_returns_the_former_value() {
    let mut map = StringMap::new();
    map.insert("a".to_string(), 1);
    map.insert("b".to_string(), 2);
    map.insert("c".to_string(), 3);
    assert_eq!(map.insert("b".to_string(), 20), Some(2));
    assert_eq!(map.len(), 3);
    assert_eq!(map.position("b"), Some(1));
    assert_eq!(map.entry(0), Some((&"a".to_string(), &1)));
    assert_eq!(map.entry(1), Some((&"b".to_string(), &20)));
    assert_eq!(map.entry(2), Some((&"c".to_string(), &3)));
    assert_eq!(map.entry(3), None);
}

#[test]
fn value_is_changed_in_place() {
    let mut map = StringMap::new();
    map.insert("a".to_string(), vec![1]);
    map.insert("b".to_string(), vec![2]);
    map.get_mut("a").unwrap().push(3);
    assert_eq!(map.get("a"), Some(&vec![1, 3]));
    assert_eq!(map.get("b"), Some(&vec![2]));
    assert!(map.get_mut("c").is_none());
}

#[test]
fn keys_are_told_apart_exactly() {
    let mut map = StringMap::new();
    map.insert("key".to_string(), 1);
    map.insert("Key".to_string(), 2);
    map.insert("key ".to_string(), 3);
    map.insert("k\u{e9}y".to_string(), 4);
    map.insert(String::new(), 5);
    assert_eq!(map.len(), 5);
    assert_eq!(map.get("key"), Some(&1));
    assert_eq!(map.get("Key"), Some(&2));
    assert_eq!(map.get("key "), Some(&3));
    assert_eq!(map.get("k\u{e9}y"), Some(&4));
    assert_eq!(map.get(""), Some(&5));
}
