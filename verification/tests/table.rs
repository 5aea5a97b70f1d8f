use smarthome_model::table::Table;

#[test]
fn new_table_is_empty() {
    let t: Table<u8> = Table::new();
    assert_eq!(t.len(), 0);
    assert!(t.is_empty());
    assert_eq!(t.get("a"), None);
    assert!(!t.contains_key("a"));
    assert_eq!(t.find("a"), None);
}

#[test]
fn insert_binds_and_replaces_in_place() {
    let mut t: Table<u8> = Table::new();
    assert_eq!(t.insert("a".to_string(), 1), None);
    assert_eq!(t.insert("b".to_string(), 2), None);
    assert_eq!(t.insert("a".to_string(), 3), Some(1));
    assert_eq!(t.len(), 2);
    assert_eq!(t.key(0), "a");
    assert_eq!(*t.value(0), 3);
    assert_eq!(t.key(1), "b");
    assert_eq!(t.get("a"), Some(&3));
    assert_eq!(t.get("b"), Some(&2));
    assert_eq!(t.get("c"), None);
    assert_eq!(t.find("b"), Some(1));
    assert!(t.contains_key("b"));
}

#[test]
fn value_mut_changes_one_value() {
    let mut t: Table<Vec<u8>> = Table::new();
    t.insert("a".to_string(), vec![1]);
    t.insert("b".to_string(), vec![2]);
    t.value_mut(1).push(3);
    assert_eq!(t.get("a"), Some(&vec![1]));
    assert_eq!(t.get("b"), Some(&vec![2, 3]));
    assert_eq!(t.key(1), "b");
}

#[test]
fn with_values_keeps_the_keys() {
    let mut t: Table<u8> = Table::new();
    t.insert("a".to_string(), 1);
    t.insert("b".to_string(), 2);
    let u = t.with_values(vec!["x".to_string(), "y".to_string()]);
    assert_eq!(u.len(), 2);
    assert_eq!(u.key(0), "a");
    assert_eq!(u.value(0), "x");
    assert_eq!(u.key(1), "b");
    assert_eq!(u.value(1), "y");
}
