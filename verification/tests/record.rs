use gddb::Record;

#[test]
fn new_record_has_model_and_no_attributes() {
    let r = Record::new("Testing".to_string());
    assert_eq!(r.model, "Testing");
    assert_eq!(r.attributes, "");
}

#[test]
fn new_record_has_a_canonical_random_uuid() {
    let r = Record::new("Testing".to_string());
    let chars: Vec<char> = r.uuid.chars().collect();
    assert_eq!(chars.len(), 36);
    for (i, c) in chars.iter().enumerate() {
        if i == 8 || i == 13 || i == 18 || i == 23 {
            assert_eq!(*c, '-');
        } else {
            assert!(matches!(*c, '0'..='9' | 'a'..='f'));
        }
    }
    assert_eq!(chars[14], '4');
    assert!(matches!(chars[19], '8' | '9' | 'a' | 'b'));
}

#[test]
fn new_records_differ_in_uuid() {
    let a = Record::new("Testing".to_string());
    let b = Record::new("Testing".to_string());
    assert_ne!(a.uuid, b.uuid);
    assert_ne!(a, b);
}

#[test]
fn records_are_equal_by_their_fields() {
    let a = Record::new("Testing".to_string());
    let mut b = a.clone();
    assert_eq!(a, b);
    b.attributes = "changed".to_string();
    assert_ne!(a, b);
    let mut c = a.clone();
    c.model = "Staging".to_string();
    assert_ne!(a, c);
}
