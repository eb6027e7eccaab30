use birthday_bot::store::{BirthdayStore, StoreError};

#[test]
fn add_then_get_round_trip() {
    let mut s = BirthdayStore::new();
    assert_eq!(s.insert("X", 5, 7, "Ann"), Ok(()));
    let r = s.get("X").unwrap();
    assert_eq!((r.day, r.month), (5, 7));
    assert_eq!(r.owner_id, "X");
    assert_eq!(r.display_name, "Ann");
    assert_eq!(s.update("X", 20, 12, None), Ok(()));
    let r = s.get("X").unwrap();
    assert_eq!((r.day, r.month), (20, 12));
    assert_eq!(r.display_name, "Ann");
}

#[test]
fn update_can_refresh_name() {
    let mut s = BirthdayStore::new();
    s.insert("X", 5, 7, "Ann").unwrap();
    s.update("X", 6, 8, Some("Anna")).unwrap();
    let r = s.get("X").unwrap();
    assert_eq!((r.day, r.month), (6, 8));
    assert_eq!(r.display_name, "Anna");
}

#[test]
fn second_insert_conflicts() {
    let mut s = BirthdayStore::new();
    assert_eq!(s.insert("X", 5, 7, "Ann"), Ok(()));
    assert_eq!(s.insert("X", 1, 1, "Other"), Err(StoreError::Conflict));
    let r = s.get("X").unwrap();
    assert_eq!((r.day, r.month), (5, 7));
    assert_eq!(r.display_name, "Ann");
}

#[test]
fn owners_are_independent() {
    let mut s = BirthdayStore::new();
    s.insert("X", 5, 7, "Ann").unwrap();
    s.insert("Y", 9, 9, "Bob").unwrap();
    assert_eq!(s.remove("X"), Ok(()));
    assert!(!s.has_record("X"));
    assert!(s.has_record("Y"));
    assert_eq!(s.get("Y").unwrap().day, 9);
}

#[test]
fn remove_lifecycle() {
    let mut s = BirthdayStore::new();
    assert_eq!(s.remove("X"), Err(StoreError::NotFound));
    s.insert("X", 5, 7, "Ann").unwrap();
    assert_eq!(s.remove("X"), Ok(()));
    assert_eq!(s.get("X").err(), Some(StoreError::NotFound));
    assert_eq!(s.update("X", 1, 2, None), Err(StoreError::NotFound));
    assert_eq!(s.remove("X"), Err(StoreError::NotFound));
}

#[test]
fn get_twice_is_the_same() {
    let mut s = BirthdayStore::new();
    s.insert("X", 5, 7, "Ann").unwrap();
    let a = s.get("X").unwrap();
    let b = s.get("X").unwrap();
    assert_eq!((a.day, a.month, a.display_name), (b.day, b.month, b.display_name));
    assert_eq!(s.get("Z").err(), s.get("Z").err());
}
