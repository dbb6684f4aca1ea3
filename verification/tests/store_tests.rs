//! Storage behavior: schema constraints, read-flag semantics and
//! history paging.

use nultr::models::Pagination;
use nultr::store::{Store, StoreError};

fn store_with_room() -> Store {
    let mut store = Store::new();
    let alice = store
        .insert_user("alice".to_string(), "hash-a".to_string())
        .unwrap();
    let bob = store
        .insert_user("bob".to_string(), "hash-b".to_string())
        .unwrap();
    let room = store.insert_room("pair".to_string()).unwrap();
    store
        .insert_rooms_users(vec![
            nultr::models::RoomUser {
                room_id: room.id,
                user_id: alice.id,
                generated_room_name: Some("bob".to_string()),
            },
            nultr::models::RoomUser {
                room_id: room.id,
                user_id: bob.id,
                generated_room_name: Some("alice".to_string()),
            },
        ])
        .unwrap();
    store
}

#[test]
fn surrogate_ids_count_from_one() {
    let store = store_with_room();
    assert_eq!(store.get_by_username("alice".to_string()).unwrap().id, 1);
    assert_eq!(store.get_by_username("bob".to_string()).unwrap().id, 2);
    assert!(store.exists_room_by_id(1));
}

#[test]
fn duplicate_username_is_refused() {
    let mut store = store_with_room();
    let err = store
        .insert_user("alice".to_string(), "other".to_string())
        .unwrap_err();
    assert_eq!(err, StoreError::UniqueViolation);
    assert_eq!(store.get_all_users().len(), 2);
}

#[test]
fn message_requires_membership() {
    let mut store = store_with_room();
    let carol = store
        .insert_user("carol".to_string(), "hash-c".to_string())
        .unwrap();
    let err = store
        .insert_message(7, 1, carol.id, "hi".to_string(), 100)
        .unwrap_err();
    assert_eq!(err, StoreError::SenderNotMember);
    assert!(store.get_message_by_uuid(7).is_none());
}

#[test]
fn message_requires_existing_room() {
    let mut store = store_with_room();
    let err = store
        .insert_message(7, 99, 1, "hi".to_string(), 100)
        .unwrap_err();
    assert_eq!(err, StoreError::ForeignKeyViolation);
}

#[test]
fn duplicate_uuid_is_refused() {
    let mut store = store_with_room();
    store
        .insert_message(7, 1, 1, "first".to_string(), 100)
        .unwrap();
    let err = store
        .insert_message(7, 1, 2, "second".to_string(), 200)
        .unwrap_err();
    assert_eq!(err, StoreError::UniqueViolation);
    let kept = store.get_message_by_uuid(7).unwrap();
    assert_eq!(kept.content, "first");
    assert_eq!(kept.user_id, 1);
}

#[test]
fn mark_read_is_monotonic_and_ignores_duplicates() {
    let mut once = store_with_room();
    once.insert_message(7, 1, 1, "hi".to_string(), 100).unwrap();
    assert!(!once.get_message_by_uuid(7).unwrap().read);

    let mut thrice = store_with_room();
    thrice
        .insert_message(7, 1, 1, "hi".to_string(), 100)
        .unwrap();

    once.mark_messages_read(&vec![7]);
    thrice.mark_messages_read(&vec![7, 7, 7]);
    assert!(once.get_message_by_uuid(7).unwrap().read);
    assert!(thrice.get_message_by_uuid(7).unwrap().read);

    // marking other uuids later never clears the flag
    once.mark_messages_read(&vec![99]);
    assert!(once.get_message_by_uuid(7).unwrap().read);
}

#[test]
fn unlisted_uuid_stays_unread() {
    let mut store = store_with_room();
    store
        .insert_message(7, 1, 1, "hi".to_string(), 100)
        .unwrap();
    store.mark_messages_read(&vec![8]);
    assert!(!store.get_message_by_uuid(7).unwrap().read);
}

#[test]
fn history_is_newest_first_and_paged() {
    let mut store = store_with_room();
    store
        .insert_message(1, 1, 1, "one".to_string(), 10)
        .unwrap();
    store
        .insert_message(2, 1, 2, "two".to_string(), 20)
        .unwrap();
    store
        .insert_message(3, 1, 1, "three".to_string(), 30)
        .unwrap();

    let all = store.get_messages_by_room(1, Pagination { page: 0, page_size: 10 });
    let contents: Vec<&str> = all.iter().map(|m| m.content.as_str()).collect();
    assert_eq!(contents, vec!["three", "two", "one"]);

    let second_page = store.get_messages_by_room(1, Pagination { page: 1, page_size: 2 });
    let contents: Vec<&str> = second_page.iter().map(|m| m.content.as_str()).collect();
    assert_eq!(contents, vec!["one"]);

    let past_end = store.get_messages_by_room(1, Pagination { page: 9, page_size: 10 });
    assert!(past_end.is_empty());
}

#[test]
fn history_orders_out_of_order_inserts_by_timestamp() {
    let mut store = store_with_room();
    store
        .insert_message(1, 1, 1, "late".to_string(), 300)
        .unwrap();
    store
        .insert_message(2, 1, 1, "early".to_string(), 100)
        .unwrap();
    store
        .insert_message(3, 1, 1, "middle".to_string(), 200)
        .unwrap();
    let all = store.get_messages_by_room(1, Pagination { page: 0, page_size: 10 });
    let contents: Vec<&str> = all.iter().map(|m| m.content.as_str()).collect();
    assert_eq!(contents, vec!["late", "middle", "early"]);
}

#[test]
fn extreme_page_values_are_clipped() {
    let mut store = store_with_room();
    store
        .insert_message(1, 1, 1, "one".to_string(), 10)
        .unwrap();
    let everything = store.get_messages_by_room(
        1,
        Pagination {
            page: 0,
            page_size: u64::MAX,
        },
    );
    assert_eq!(everything.len(), 1);
    let overflowing = store.get_messages_by_room(
        1,
        Pagination {
            page: u64::MAX,
            page_size: u64::MAX,
        },
    );
    assert!(overflowing.is_empty());
}

#[test]
fn empty_uuid_list_marks_nothing() {
    let mut store = store_with_room();
    store
        .insert_message(1, 1, 1, "one".to_string(), 10)
        .unwrap();
    store.mark_messages_read(&vec![]);
    assert!(!store.get_message_by_uuid(1).unwrap().read);
}

#[test]
fn delete_user_cascades() {
    let mut store = store_with_room();
    store
        .insert_message(1, 1, 1, "from alice".to_string(), 10)
        .unwrap();
    store
        .insert_message(2, 1, 2, "from bob".to_string(), 20)
        .unwrap();
    store.delete_user(1);
    assert!(store.get_by_username("alice".to_string()).is_none());
    assert!(store.get_message_by_uuid(1).is_none());
    assert!(store.get_message_by_uuid(2).is_some());
    assert_eq!(store.get_users_by_room(1).len(), 1);
}

#[test]
fn personalized_room_names() {
    let mut store = store_with_room();
    let alice_rooms = store.get_for_user(1);
    assert_eq!(alice_rooms.len(), 1);
    assert_eq!(alice_rooms[0].name, "bob");
    let bob_rooms = store.get_for_user(2);
    assert_eq!(bob_rooms[0].name, "alice");

    // a membership without a personal label falls back to the room name
    let carol = store
        .insert_user("carol".to_string(), "hash-c".to_string())
        .unwrap();
    store
        .insert_rooms_users(vec![nultr::models::RoomUser {
            room_id: 1,
            user_id: carol.id,
            generated_room_name: None,
        }])
        .unwrap();
    let carol_rooms = store.get_for_user(carol.id);
    assert_eq!(carol_rooms[0].name, "pair");
}

#[test]
fn membership_batch_is_atomic() {
    let mut store = store_with_room();
    let err = store
        .insert_rooms_users(vec![
            nultr::models::RoomUser {
                room_id: 1,
                user_id: 1,
                generated_room_name: None,
            },
        ])
        .unwrap_err();
    assert_eq!(err, StoreError::UniqueViolation);
    let err = store
        .insert_rooms_users(vec![nultr::models::RoomUser {
            room_id: 42,
            user_id: 1,
            generated_room_name: None,
        }])
        .unwrap_err();
    assert_eq!(err, StoreError::ForeignKeyViolation);
}
