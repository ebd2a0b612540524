use cache_broker::coordinator::{Action, Event, Outcome};
use cache_broker::repository::{CachedFileRepository, IndexError};

#[test]
fn empty_index_finds_nothing() {
    let index = CachedFileRepository::new();
    assert_eq!(index.len(), 0);
    assert!(index.find_by_object_id_object_type(7, &"fb2".to_string()).is_none());
}

#[test]
fn insert_then_find_returns_the_row() {
    let mut index = CachedFileRepository::new();
    let row = index.insert(7, "fb2".to_string(), 1001, -55).unwrap();
    assert_eq!(row.id, 1);
    assert_eq!(row.object_id, 7);
    assert_eq!(row.object_type, "fb2");
    assert_eq!(row.message_id, 1001);
    assert_eq!(row.chat_id, -55);
    let found = index.find_by_object_id_object_type(7, &"fb2".to_string()).unwrap();
    assert_eq!(found.id, 1);
    assert_eq!(found.message_id, 1001);
    assert_eq!(found.chat_id, -55);
    assert_eq!(index.len(), 1);
}

#[test]
fn rows_are_told_apart_by_number_and_type() {
    let mut index = CachedFileRepository::new();
    index.insert(7, "fb2".to_string(), 1, 10).unwrap();
    index.insert(7, "epub".to_string(), 2, 10).unwrap();
    index.insert(8, "fb2".to_string(), 3, 10).unwrap();
    assert_eq!(index.len(), 3);
    assert_eq!(index.find_by_object_id_object_type(7, &"epub".to_string()).unwrap().message_id, 2);
    assert_eq!(index.find_by_object_id_object_type(8, &"fb2".to_string()).unwrap().message_id, 3);
    assert!(index.find_by_object_id_object_type(8, &"epub".to_string()).is_none());
}

#[test]
fn second_insert_for_a_key_replaces_the_row() {
    let mut index = CachedFileRepository::new();
    let first = index.insert(7, "fb2".to_string(), 1001, -55).unwrap();
    let second = index.insert(7, "fb2".to_string(), 2002, -66).unwrap();
    assert_eq!(first.id, 1);
    assert_eq!(second.id, 2);
    assert_eq!(index.len(), 1);
    let found = index.find_by_object_id_object_type(7, &"fb2".to_string()).unwrap();
    assert_eq!(found.id, 2);
    assert_eq!(found.message_id, 2002);
    assert_eq!(found.chat_id, -66);
}

#[test]
fn delete_hands_back_the_row_and_removes_it() {
    let mut index = CachedFileRepository::new();
    index.insert(7, "fb2".to_string(), 1001, -55).unwrap();
    index.insert(8, "fb2".to_string(), 1002, -55).unwrap();
    let gone = index.delete_by_object_id_object_type(7, "fb2".to_string()).unwrap();
    assert_eq!(gone.id, 1);
    assert_eq!(gone.message_id, 1001);
    assert_eq!(index.len(), 1);
    assert!(index.find_by_object_id_object_type(7, &"fb2".to_string()).is_none());
    assert!(index.find_by_object_id_object_type(8, &"fb2".to_string()).is_some());
}

#[test]
fn delete_of_missing_row_reports_not_found() {
    let mut index = CachedFileRepository::new();
    let gone = index.delete_by_object_id_object_type(7, "fb2".to_string());
    assert_eq!(gone.unwrap_err(), IndexError::RowNotFound);
}

#[test]
fn numbers_are_not_handed_out_twice() {
    let mut index = CachedFileRepository::new();
    index.insert(7, "fb2".to_string(), 1, 1).unwrap();
    index.delete_by_object_id_object_type(7, "fb2".to_string()).unwrap();
    let again = index.insert(7, "fb2".to_string(), 2, 2).unwrap();
    assert_eq!(again.id, 2);
}

#[test]
fn index_answers_its_own_actions() {
    let mut index = CachedFileRepository::new();
    let inserted = index.answer(&Action::Insert {
        object_id: 7,
        object_type: "fb2".to_string(),
        message_id: 1001,
        chat_id: -55,
    });
    match inserted {
        Some(Event::Inserted(Some(row))) => assert_eq!((row.id, row.message_id), (1, 1001)),
        other => panic!("unexpected answer {:?}", other),
    }
    let found = index.answer(&Action::Find { object_id: 7, object_type: "fb2".to_string() });
    match found {
        Some(Event::Found(Some(row))) => assert_eq!(row.chat_id, -55),
        other => panic!("unexpected answer {:?}", other),
    }
    let deleted = index.answer(&Action::Delete { object_id: 7, object_type: "fb2".to_string() });
    assert!(matches!(deleted, Some(Event::Deleted)));
    let found = index.answer(&Action::Find { object_id: 7, object_type: "fb2".to_string() });
    assert!(matches!(found, Some(Event::Found(None))));
}

#[test]
fn index_leaves_other_actions_alone() {
    let mut index = CachedFileRepository::new();
    assert!(index.answer(&Action::GetBook { book_id: 7 }).is_none());
    assert!(index.answer(&Action::CheckContainer).is_none());
    assert!(index.answer(&Action::Finish(Outcome::Absent)).is_none());
    assert_eq!(index.len(), 0);
}

#[test]
fn delete_by_number_takes_that_row_only() {
    let mut index = CachedFileRepository::new();
    index.insert(7, "fb2".to_string(), 1001, -55).unwrap();
    index.insert(8, "fb2".to_string(), 1002, -55).unwrap();
    let gone = index.delete_by_id(1).unwrap();
    assert_eq!((gone.id, gone.object_id, gone.message_id), (1, 7, 1001));
    assert_eq!(index.len(), 1);
    assert!(index.find_by_object_id_object_type(7, &"fb2".to_string()).is_none());
    assert_eq!(index.find_by_object_id_object_type(8, &"fb2".to_string()).unwrap().id, 2);
}

#[test]
fn delete_by_unknown_number_reports_not_found() {
    let mut index = CachedFileRepository::new();
    index.insert(7, "fb2".to_string(), 1001, -55).unwrap();
    assert_eq!(index.delete_by_id(5).unwrap_err(), IndexError::RowNotFound);
    assert_eq!(index.delete_by_id(0).unwrap_err(), IndexError::RowNotFound);
    assert_eq!(index.len(), 1);
}

#[test]
fn delete_by_number_spares_a_row_that_replaced_it() {
    let mut index = CachedFileRepository::new();
    index.insert(7, "fb2".to_string(), 1001, -55).unwrap();
    index.insert(7, "fb2".to_string(), 2002, -55).unwrap();
    assert_eq!(index.delete_by_id(1).unwrap_err(), IndexError::RowNotFound);
    assert_eq!(index.find_by_object_id_object_type(7, &"fb2".to_string()).unwrap().id, 2);
}
