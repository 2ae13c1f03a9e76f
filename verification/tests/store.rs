use gddb::{Database, DatabaseError, Record};

fn record(uuid: &str, model: &str, attributes: &str) -> Record {
    Record {
        uuid: uuid.to_string(),
        model: model.to_string(),
        attributes: attributes.to_string(),
    }
}

#[test]
fn new_database_is_empty() {
    let db = Database::new("fresh".to_string(), Some("somewhere.gddb".to_string()), true);
    assert_eq!(db.label, "fresh");
    assert_eq!(db.save_path, Some("somewhere.gddb".to_string()));
    assert!(db.strict_dupes);
    assert_eq!(db.len(), 0);
    assert!(!db.contains(&record("1", "m", "")));
}

#[test]
fn created_item_is_contained() {
    for strict in [false, true] {
        let mut db = Database::new("one".to_string(), None, strict);
        let a = record("1", "Testing", "{}");
        assert_eq!(db.create(a.clone()), Ok(()));
        assert!(db.contains(&a));
        assert_eq!(db.len(), 1);
    }
}

#[test]
fn contains_compares_every_field() {
    let mut db = Database::new("fields".to_string(), None, true);
    db.create(record("1", "Testing", "x")).unwrap();
    assert!(db.contains(&record("1", "Testing", "x")));
    assert!(!db.contains(&record("2", "Testing", "x")));
    assert!(!db.contains(&record("1", "Staging", "x")));
    assert!(!db.contains(&record("1", "Testing", "y")));
}

#[test]
fn strict_duplicate_is_refused() {
    let mut db = Database::new("strict".to_string(), None, true);
    let a = record("1", "Testing", "");
    assert_eq!(db.create(a.clone()), Ok(()));
    assert_eq!(db.create(a.clone()), Err(DatabaseError::DupeFound));
    assert_eq!(db.len(), 1);
    assert!(db.contains(&a));
}

#[test]
fn lenient_duplicate_is_dropped() {
    let mut db = Database::new("lenient".to_string(), None, false);
    let a = record("1", "Testing", "");
    assert_eq!(db.create(a.clone()), Ok(()));
    assert_eq!(db.create(a.clone()), Ok(()));
    assert_eq!(db.len(), 1);
    assert!(db.contains(&a));
}

#[test]
fn distinct_items_are_counted() {
    let mut db = Database::new("count".to_string(), None, true);
    db.create(record("1", "Testing", "")).unwrap();
    db.create(record("2", "Testing", "")).unwrap();
    db.create(record("3", "Staging", "")).unwrap();
    assert_eq!(db.len(), 3);
}

#[test]
fn destroy_removes_the_item() {
    let mut db = Database::new("destroy".to_string(), None, true);
    let a = record("1", "Testing", "");
    let b = record("2", "Testing", "");
    db.create(a.clone()).unwrap();
    db.create(b.clone()).unwrap();
    assert_eq!(db.destroy(&a), Ok(()));
    assert!(!db.contains(&a));
    assert!(db.contains(&b));
    assert_eq!(db.len(), 1);
}

#[test]
fn destroy_absent_is_refused() {
    let mut db = Database::new("absent".to_string(), None, false);
    db.create(record("1", "Testing", "")).unwrap();
    assert_eq!(
        db.destroy(&record("2", "Testing", "")),
        Err(DatabaseError::ItemNotFound)
    );
    assert_eq!(db.len(), 1);
    assert!(db.contains(&record("1", "Testing", "")));

    let mut empty = Database::new("empty".to_string(), None, true);
    assert_eq!(
        empty.destroy(&record("1", "Testing", "")),
        Err(DatabaseError::ItemNotFound)
    );
    assert_eq!(empty.len(), 0);
}

#[test]
fn update_replaces_the_item() {
    for strict in [false, true] {
        let mut db = Database::new("update".to_string(), None, strict);
        let old = record("1", "Testing", "before");
        let other = record("2", "Testing", "other");
        let new = record("1", "Testing", "after");
        db.create(old.clone()).unwrap();
        db.create(other.clone()).unwrap();
        assert_eq!(db.update(&old, new.clone()), Ok(()));
        assert!(!db.contains(&old));
        assert!(db.contains(&new));
        assert!(db.contains(&other));
        assert_eq!(db.len(), 2);
    }
}

#[test]
fn update_of_absent_item_changes_nothing() {
    let mut db = Database::new("update".to_string(), None, true);
    let stored = record("1", "Testing", "");
    db.create(stored.clone()).unwrap();
    assert_eq!(
        db.update(&record("2", "Testing", ""), record("3", "Testing", "")),
        Err(DatabaseError::ItemNotFound)
    );
    assert!(db.contains(&stored));
    assert!(!db.contains(&record("3", "Testing", "")));
    assert_eq!(db.len(), 1);
}

#[test]
fn failed_strict_update_has_removed_the_old_item() {
    let mut db = Database::new("hazard".to_string(), None, true);
    let old = record("1", "Testing", "");
    let other = record("2", "Testing", "");
    db.create(old.clone()).unwrap();
    db.create(other.clone()).unwrap();
    assert_eq!(db.update(&old, other.clone()), Err(DatabaseError::DupeFound));
    assert!(!db.contains(&old));
    assert!(db.contains(&other));
    assert_eq!(db.len(), 1);
}

#[test]
fn lenient_update_onto_stored_item_merges() {
    let mut db = Database::new("merge".to_string(), None, false);
    let old = record("1", "Testing", "");
    let other = record("2", "Testing", "");
    db.create(old.clone()).unwrap();
    db.create(other.clone()).unwrap();
    assert_eq!(db.update(&old, other.clone()), Ok(()));
    assert!(!db.contains(&old));
    assert!(db.contains(&other));
    assert_eq!(db.len(), 1);
}

#[test]
fn update_to_itself_keeps_the_item() {
    let mut db = Database::new("same".to_string(), None, true);
    let a = record("1", "Testing", "");
    db.create(a.clone()).unwrap();
    assert_eq!(db.update(&a, a.clone()), Ok(()));
    assert!(db.contains(&a));
    assert_eq!(db.len(), 1);
}

#[test]
fn smart_path_prefers_save_path() {
    let db = Database::new("label".to_string(), Some("dir/file.bin".to_string()), false);
    assert_eq!(db.smart_path_get(), "dir/file.bin");
}

#[test]
fn smart_path_falls_back_to_label() {
    let db = Database::new("Hello There".to_string(), None, false);
    assert_eq!(db.smart_path_get(), "Hello There.gddb");
    let unnamed = Database::new(String::new(), None, false);
    assert_eq!(unnamed.smart_path_get(), ".gddb");
}
