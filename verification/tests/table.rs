use price_feed::table::Table;

#[test]
fn a_new_table_is_empty() {
    let table: Table<u64> = Table::new();
    assert_eq!(table.len(), 0);
    assert!(table.get("a").is_none());
    assert!(!table.contains_key("a"));
    assert_eq!(table.position("a"), None);
}

#[test]
fn insert_adds_and_replaces() {
    let mut table: Table<u64> = Table::new();
    table.insert("a".to_string(), 1);
    table.insert("b".to_string(), 2);
    table.insert("a".to_string(), 3);
    assert_eq!(table.len(), 2);
    assert_eq!(table.get("a"), Some(&3));
    assert_eq!(table.get("b"), Some(&2));
    assert_eq!(table.get("c"), None);
}

#[test]
fn a_replaced_key_keeps_its_place() {
    let mut table: Table<u64> = Table::new();
    table.insert("a".to_string(), 1);
    table.insert("b".to_string(), 2);
    table.insert("a".to_string(), 3);
    assert_eq!(table.key_at(0), "a");
    assert_eq!(*table.value_at(0), 3);
    assert_eq!(table.key_at(1), "b");
    assert_eq!(*table.value_at(1), 2);
    assert_eq!(table.position("b"), Some(1));
}

#[test]
fn keys_are_told_apart_exactly() {
    let mut table: Table<u64> = Table::new();
    table.insert("ab".to_string(), 1);
    assert!(table.get("a").is_none());
    assert!(table.get("abc").is_none());
    assert!(table.get("AB").is_none());
    assert!(table.get("").is_none());
    table.insert(String::new(), 9);
    assert_eq!(table.get(""), Some(&9));
}

#[test]
fn a_copy_holds_the_same_entries() {
    let mut table: Table<u64> = Table::new();
    table.insert("x".to_string(), 10);
    table.insert("y".to_string(), 20);
    let copy = table.duplicate();
    table.insert("x".to_string(), 11);
    assert_eq!(copy.len(), 2);
    assert_eq!(copy.get("x"), Some(&10));
    assert_eq!(copy.get("y"), Some(&20));
    assert_eq!(copy.key_at(0), "x");
}
