use gddb::{DatabaseError, Record, GDDB};

#[test]
fn game_store_creates_and_finds() {
    let mut game = GDDB::new();
    let uuid = game.create("Player".to_string(), "{\"hp\":3}".to_string());
    assert_eq!(uuid.chars().count(), 36);
    let found = game.find(uuid.clone()).unwrap();
    assert_eq!(
        found,
        &Record {
            uuid,
            model: "Player".to_string(),
            attributes: "{\"hp\":3}".to_string(),
        }
    );
}

#[test]
fn game_store_finds_by_uuid_only() {
    let mut game = GDDB::new();
    let first = game.create("Player".to_string(), "a".to_string());
    let second = game.create("Player".to_string(), "a".to_string());
    assert_ne!(first, second);
    assert_eq!(game.find(first.clone()).unwrap().uuid, first);
    assert_eq!(game.find(second.clone()).unwrap().uuid, second);
    assert_eq!(
        game.find("no such id".to_string()),
        Err(DatabaseError::ItemNotFound)
    );
}

#[test]
fn game_store_updates_by_uuid() {
    let mut game = GDDB::new();
    let uuid = game.create("Player".to_string(), "before".to_string());
    assert_eq!(
        game.update(uuid.clone(), "Hero".to_string(), "after".to_string()),
        Ok(())
    );
    let found = game.find(uuid.clone()).unwrap();
    assert_eq!(found.model, "Hero");
    assert_eq!(found.attributes, "after");
    assert_eq!(
        game.update("no such id".to_string(), "Hero".to_string(), String::new()),
        Err(DatabaseError::ItemNotFound)
    );
    assert_eq!(game.find(uuid).unwrap().attributes, "after");
}

#[test]
fn game_store_destroys_the_exact_record() {
    let mut game = GDDB::new();
    let uuid = game.create("Player".to_string(), "x".to_string());
    assert_eq!(
        game.destroy(uuid.clone(), "Player".to_string(), "y".to_string()),
        Err(DatabaseError::ItemNotFound)
    );
    assert!(game.find(uuid.clone()).is_ok());
    assert_eq!(
        game.destroy(uuid.clone(), "Player".to_string(), "x".to_string()),
        Ok(())
    );
    assert_eq!(game.find(uuid), Err(DatabaseError::ItemNotFound));
}
