use plughost::MemoryDb;

#[test]
fn generated_ids_are_unique_and_increasing() {
    let mut db: MemoryDb<String> = MemoryDb::new();
    let a = db.generate_id();
    let b = db.generate_id();
    let c = db.generate_id();
    assert_eq!((a, b, c), (0, 1, 2));
    assert!(a < b && b < c);
}

#[test]
fn insert_returns_previous_record() {
    let mut db: MemoryDb<String> = MemoryDb::new();
    let id = db.generate_id();
    assert_eq!(db.insert(id, "first".to_string()), None);
    assert_eq!(db.insert(id, "second".to_string()), Some("first".to_string()));
    assert_eq!(db.get(id), Some(&"second".to_string()));
}

#[test]
fn get_of_absent_key_is_none() {
    let db: MemoryDb<String> = MemoryDb::new();
    assert_eq!(db.get(7), None);
}

#[test]
fn delete_removes_and_returns_record() {
    let mut db: MemoryDb<String> = MemoryDb::new();
    db.insert(0, "zero".to_string());
    db.insert(1, "one".to_string());
    assert_eq!(db.delete(0), Some("zero".to_string()));
    assert_eq!(db.delete(0), None);
    assert_eq!(db.get(0), None);
    assert_eq!(db.get(1), Some(&"one".to_string()));
}

#[test]
fn keys_snapshot_keeps_insertion_order() {
    let mut db: MemoryDb<u64> = MemoryDb::new();
    db.insert(3, 30);
    db.insert(1, 10);
    db.insert(2, 20);
    db.insert(1, 11);
    assert_eq!(db.keys_snapshot(), vec![3, 1, 2]);
    db.delete(1);
    assert_eq!(db.keys_snapshot(), vec![3, 2]);
}

#[test]
fn ids_stay_fresh_after_deletes() {
    let mut db: MemoryDb<u64> = MemoryDb::new();
    let a = db.generate_id();
    db.insert(a, 1);
    db.delete(a);
    let b = db.generate_id();
    assert!(b > a);
}
