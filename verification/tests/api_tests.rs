//! The request API end to end: login and user listing, private-room
//! creation with personalized names, history paging and its errors, and
//! the admin commands.

use nultr::api::{
    create_private_room, get_messages, get_rooms, get_users, login, ApiError,
};
use nultr::cli::{try_perform, CliOutcome, Command};
use nultr::models::RoomUser;
use nultr::request::{
    CreatePrivateRoomErrorResponse, CreatePrivateRoomRequest, GetMessagesErrorResponse,
    GetMessagesRequest, LoginErrorResponse, LoginRequest,
};
use nultr::state::{CliState, ServiceState};

fn now_secs() -> usize {
    std::time::SystemTime::now()
        .duration_since(std::time::UNIX_EPOCH)
        .unwrap()
        .as_secs() as usize
}

fn service_with_users() -> ServiceState {
    let mut state = ServiceState::new("SECRET-REDACTED".to_string());
    let alice_hash = state.password_hasher.hash_password("pw");
    let bob_hash = state.password_hasher.hash_password("hunter2");
    state
        .store
        .insert_user("alice".to_string(), alice_hash)
        .unwrap();
    state
        .store
        .insert_user("bob".to_string(), bob_hash)
        .unwrap();
    state
}

#[test]
fn login_then_list_users() {
    let state = service_with_users();
    let response = login(
        &state,
        LoginRequest {
            username: "alice".to_string(),
            password: "pw".to_string(),
        },
        now_secs(),
    )
    .unwrap();
    assert_eq!(response.user_id, 1);

    // the issued bearer authenticates as alice
    let claims = state.jwt_encoder.decode(response.token).unwrap();
    assert_eq!(claims.user_id, 1);

    let users = get_users(&state);
    assert_eq!(users.len(), 2);
    assert_eq!(users[0].id, 1);
    assert_eq!(users[0].username, "alice");
    assert_eq!(users[1].id, 2);
    assert_eq!(users[1].username, "bob");
}

#[test]
fn login_rejects_wrong_password_and_unknown_user() {
    let state = service_with_users();
    let wrong = login(
        &state,
        LoginRequest {
            username: "alice".to_string(),
            password: "nope".to_string(),
        },
        now_secs(),
    );
    assert!(matches!(
        wrong,
        Err(ApiError::Domain(LoginErrorResponse::AccessDenied))
    ));
    let unknown = login(
        &state,
        LoginRequest {
            username: "mallory".to_string(),
            password: "pw".to_string(),
        },
        now_secs(),
    );
    assert!(matches!(
        unknown,
        Err(ApiError::Domain(LoginErrorResponse::AccessDenied))
    ));
}

#[test]
fn create_private_room_swaps_the_labels() {
    let mut state = service_with_users();
    let created = create_private_room(
        &mut state,
        1,
        CreatePrivateRoomRequest {
            name: "ignored".to_string(),
            receiver_user_id: 2,
        },
    )
    .unwrap();
    assert_eq!(created.name, "bob");

    let alice_rooms = get_rooms(&state, 1);
    assert_eq!(alice_rooms.len(), 1);
    assert_eq!(alice_rooms[0].id, created.id);
    assert_eq!(alice_rooms[0].name, "bob");

    let bob_rooms = get_rooms(&state, 2);
    assert_eq!(bob_rooms.len(), 1);
    assert_eq!(bob_rooms[0].name, "alice");
}

#[test]
fn create_private_room_with_unknown_receiver_fails() {
    let mut state = service_with_users();
    let r = create_private_room(
        &mut state,
        1,
        CreatePrivateRoomRequest {
            name: "x".to_string(),
            receiver_user_id: 42,
        },
    );
    assert!(matches!(
        r,
        Err(ApiError::Domain(CreatePrivateRoomErrorResponse::UserNotFound))
    ));
    assert!(get_rooms(&state, 1).is_empty());
}

#[test]
fn create_private_room_with_oneself_is_an_internal_error() {
    let mut state = service_with_users();
    let r = create_private_room(
        &mut state,
        1,
        CreatePrivateRoomRequest {
            name: "self".to_string(),
            receiver_user_id: 1,
        },
    );
    assert!(matches!(r, Err(ApiError::Unexpected)));
}

#[test]
fn history_checks_room_and_membership() {
    let mut state = service_with_users();
    state.store.insert_room("pair".to_string()).unwrap();
    state
        .store
        .insert_rooms_users(vec![RoomUser {
            room_id: 1,
            user_id: 1,
            generated_room_name: None,
        }])
        .unwrap();

    let missing = get_messages(
        &state,
        1,
        GetMessagesRequest {
            room_id: 9,
            page: 0,
            page_size: 10,
        },
    );
    assert!(matches!(missing, Err(GetMessagesErrorResponse::RoomNotFound)));

    let outsider = get_messages(
        &state,
        2,
        GetMessagesRequest {
            room_id: 1,
            page: 0,
            page_size: 10,
        },
    );
    assert!(matches!(
        outsider,
        Err(GetMessagesErrorResponse::NotMemberOfRoom)
    ));
}

#[test]
fn history_pages_newest_first() {
    let mut state = service_with_users();
    state.store.insert_room("pair".to_string()).unwrap();
    state
        .store
        .insert_rooms_users(vec![RoomUser {
            room_id: 1,
            user_id: 1,
            generated_room_name: None,
        }])
        .unwrap();
    state
        .store
        .insert_message(1, 1, 1, "one".to_string(), 10)
        .unwrap();
    state
        .store
        .insert_message(2, 1, 1, "two".to_string(), 20)
        .unwrap();
    state.store.mark_messages_read(&vec![1]);

    let page = get_messages(
        &state,
        1,
        GetMessagesRequest {
            room_id: 1,
            page: 0,
            page_size: 10,
        },
    )
    .unwrap();
    assert_eq!(page.len(), 2);
    assert_eq!(page[0].content, "two");
    assert!(!page[0].read);
    assert_eq!(page[1].content, "one");
    assert!(page[1].read);
}

#[test]
fn add_user_generates_a_working_password() {
    let mut state = CliState::new();
    let outcome = try_perform(
        &mut state,
        Command::AddUser {
            username: "alice".to_string(),
        },
    )
    .unwrap();
    let password = match outcome {
        CliOutcome::UserCreated { password } => password,
        other => panic!("unexpected outcome: {other:?}"),
    };
    assert_eq!(password.len(), 7);
    assert!(password.chars().all(|c| c.is_ascii_alphanumeric()));
    let stored = state.store.get_by_username("alice".to_string()).unwrap();
    assert!(state
        .password_hasher
        .verify_password(password.as_str(), stored.password_hash.as_str()));
}

#[test]
fn add_user_twice_reports_the_collision() {
    let mut state = CliState::new();
    try_perform(
        &mut state,
        Command::AddUser {
            username: "alice".to_string(),
        },
    )
    .unwrap();
    let second = try_perform(
        &mut state,
        Command::AddUser {
            username: "alice".to_string(),
        },
    );
    assert!(second.is_err());
}

#[test]
fn delete_user_removes_or_reports() {
    let mut state = CliState::new();
    try_perform(
        &mut state,
        Command::AddUser {
            username: "alice".to_string(),
        },
    )
    .unwrap();
    let deleted = try_perform(
        &mut state,
        Command::DeleteUser {
            username: "alice".to_string(),
        },
    )
    .unwrap();
    assert!(matches!(deleted, CliOutcome::UserDeleted));
    assert!(state.store.get_by_username("alice".to_string()).is_none());

    let missing = try_perform(
        &mut state,
        Command::DeleteUser {
            username: "alice".to_string(),
        },
    )
    .unwrap();
    assert!(matches!(missing, CliOutcome::UserNotFound));
}
