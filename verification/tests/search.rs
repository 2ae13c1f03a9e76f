use gddb::search::{find_in, query_in};
use gddb::{Database, DatabaseError, Record};

fn record(uuid: &str, model: &str, attributes: &str) -> Record {
    Record {
        uuid: uuid.to_string(),
        model: model.to_string(),
        attributes: attributes.to_string(),
    }
}

fn sample() -> Vec<Record> {
    vec![
        record("1", "Testing", "a"),
        record("2", "Staging", "b"),
        record("3", "Testing", "c"),
        record("4", "Production", "d"),
    ]
}

#[test]
fn find_in_returns_the_first_match() {
    let records = sample();
    let listing: Vec<&Record> = records.iter().collect();
    let found = find_in(&listing, |r| &r.model, "Testing".to_string()).unwrap();
    assert_eq!(found, &records[0]);
    let found = find_in(&listing, |r| &r.model, "Production".to_string()).unwrap();
    assert_eq!(found, &records[3]);
}

#[test]
fn find_in_without_match_is_not_found() {
    let records = sample();
    let listing: Vec<&Record> = records.iter().collect();
    assert_eq!(
        find_in(&listing, |r| &r.model, "Archive".to_string()),
        Err(DatabaseError::ItemNotFound)
    );
    let nothing: Vec<&Record> = Vec::new();
    assert_eq!(
        find_in(&nothing, |r| &r.model, "Testing".to_string()),
        Err(DatabaseError::ItemNotFound)
    );
}

#[test]
fn query_in_returns_every_match_in_order() {
    let records = sample();
    let listing: Vec<&Record> = records.iter().collect();
    let found = query_in(&listing, |r| &r.model, "Testing".to_string()).unwrap();
    assert_eq!(found, vec![&records[0], &records[2]]);
    let found = query_in(&listing, |r| &r.uuid, "2".to_string()).unwrap();
    assert_eq!(found, vec![&records[1]]);
}

#[test]
fn query_in_without_match_is_not_found() {
    let records = sample();
    let listing: Vec<&Record> = records.iter().collect();
    assert_eq!(
        query_in(&listing, |r| &r.attributes, "z".to_string()),
        Err(DatabaseError::ItemNotFound)
    );
}

#[test]
fn query_without_match_is_an_error_not_an_empty_list() {
    let mut db = Database::new("query".to_string(), None, false);
    assert_eq!(
        db.query(|r| &r.model, "Testing".to_string()),
        Err(DatabaseError::ItemNotFound)
    );
    db.create(record("1", "Staging", "")).unwrap();
    assert_eq!(
        db.query(|r| &r.model, "Testing".to_string()),
        Err(DatabaseError::ItemNotFound)
    );
}

#[test]
fn find_without_match_is_not_found() {
    let mut db = Database::new("find".to_string(), None, false);
    db.create(record("1", "Staging", "")).unwrap();
    assert_eq!(
        db.find(|r| &r.model, "Testing".to_string()),
        Err(DatabaseError::ItemNotFound)
    );
}

#[test]
fn query_and_find_by_model() {
    let mut db = Database::new("models".to_string(), None, false);
    db.create(Record::new("Testing".to_string())).unwrap();
    db.create(Record::new("Testing".to_string())).unwrap();
    let staging = Record::new("Staging".to_string());
    db.create(staging.clone()).unwrap();

    let testing = db.query(|r| &r.model, "Testing".to_string()).unwrap();
    assert_eq!(testing.len(), 2);
    assert!(testing.iter().all(|r| r.model == "Testing"));
    assert_ne!(testing[0].uuid, testing[1].uuid);

    assert_eq!(db.find(|r| &r.model, "Staging".to_string()), Ok(&staging));
    assert_eq!(
        db.query(|r| &r.model, "Staging".to_string()),
        Ok(vec![&staging])
    );
}

#[test]
fn find_among_several_matches_returns_one_of_them() {
    let mut db = Database::new("ties".to_string(), None, true);
    db.create(record("1", "Testing", "")).unwrap();
    db.create(record("2", "Testing", "")).unwrap();
    let found = db.find(|r| &r.model, "Testing".to_string()).unwrap();
    assert_eq!(found.model, "Testing");
    assert!(found.uuid == "1" || found.uuid == "2");
}

#[test]
fn search_by_a_field_of_another_type() {
    let mut db = Database::new("flags".to_string(), None, true);
    db.create(record("1", "Testing", "")).unwrap();
    db.create(record("2", "Testing", "x")).unwrap();
    let found = db.query(|r| &r.attributes, String::new()).unwrap();
    assert_eq!(found, vec![&record("1", "Testing", "")]);
}
