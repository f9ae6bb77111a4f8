use fw::name_map::NameMap;
use fw::names::NameSet;

#[test]
fn name_set_keeps_order_and_drops_duplicates() {
    let mut set = NameSet::new();
    assert!(set.is_empty());
    assert!(set.insert("pear".to_owned()));
    assert!(set.insert("apple".to_owned()));
    assert!(!set.insert("pear".to_owned()));
    assert!(set.insert("Zebra".to_owned()));
    assert_eq!(set.len(), 3);
    assert_eq!(set.to_vec(), vec!["Zebra".to_string(), "apple".to_string(), "pear".to_string()]);
    assert_eq!(set.name(0), "Zebra");
    assert_eq!(set.find("apple"), Some(1));
    assert_eq!(set.find("fig"), None);
    assert!(set.contains("pear"));
    assert!(set.remove("apple"));
    assert!(!set.remove("apple"));
    assert_eq!(set.to_vec(), vec!["Zebra".to_string(), "pear".to_string()]);
    assert_eq!(set.clone(), set);
}

#[test]
fn name_set_orders_by_code_point() {
    let set = NameSet::from_vec(vec!["b".to_owned(), "a\u{e9}".to_owned(), "ab".to_owned(), "a".to_owned(), "".to_owned(), "\u{1F600}".to_owned(), "~".to_owned()]);
    let mut expected = vec!["b".to_string(), "a\u{e9}".to_string(), "ab".to_string(), "a".to_string(), "".to_string(), "\u{1F600}".to_string(), "~".to_string()];
    expected.sort();
    assert_eq!(set.to_vec(), expected);
}

#[test]
fn name_set_union_and_intersection() {
    let a = NameSet::from_vec(vec!["x".to_owned(), "y".to_owned()]);
    let b = NameSet::from_vec(vec!["y".to_owned(), "z".to_owned()]);
    let c = NameSet::from_vec(vec!["q".to_owned()]);
    assert_eq!(a.union(&b).to_vec(), vec!["x".to_string(), "y".to_string(), "z".to_string()]);
    assert!(a.intersects(&b));
    assert!(!a.intersects(&c));
    assert!(!a.intersects(&NameSet::new()));
}

#[test]
fn name_map_replaces_and_finds() {
    let mut map: NameMap<u32> = NameMap::new();
    assert!(map.is_empty());
    assert!(!map.insert("b".to_owned(), 2));
    assert!(!map.insert("a".to_owned(), 1));
    assert!(map.insert("b".to_owned(), 20));
    assert_eq!(map.len(), 2);
    assert_eq!(map.get("a"), Some(&1));
    assert_eq!(map.get("b"), Some(&20));
    assert_eq!(map.get("c"), None);
    assert_eq!(map.key_at(0), "a");
    assert_eq!(*map.value_at(1), 20);
    assert_eq!(map.find("b"), Some(1));
    assert!(map.contains_key("a"));
    assert!(!map.contains_key(""));
}
