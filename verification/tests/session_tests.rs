//! The session controller and the router: fan-out, authorization on the
//! socket path, read receipts, offline recipients, duplicate sends, and
//! the one-entry-per-user routing discipline.

use nultr::jwt::Claims;
use nultr::models::{Pagination, RoomUser};
use nultr::request::{
    WsErrorResponse, WsMarkMessagesReadRequest, WsMessageRequest, WsOkResponse, WsRequest,
    WsResponse,
};
use nultr::router::RoutingTable;
use nultr::session::{Controller, FrameInput, ReceivedEvent, SessionError};
use nultr::state::ThreadEvent;
use nultr::store::{Store, StoreError};
use tokio::sync::mpsc::{unbounded_channel, UnboundedReceiver};

const UUID_ONES: u128 = 0x11111111_1111_1111_1111_111111111111;

fn store_with_room() -> Store {
    let mut store = Store::new();
    store
        .insert_user("alice".to_string(), "hash-a".to_string())
        .unwrap();
    store
        .insert_user("bob".to_string(), "hash-b".to_string())
        .unwrap();
    store
        .insert_user("carol".to_string(), "hash-c".to_string())
        .unwrap();
    let room = store.insert_room("pair".to_string()).unwrap();
    store
        .insert_rooms_users(vec![
            RoomUser {
                room_id: room.id,
                user_id: 1,
                generated_room_name: Some("bob".to_string()),
            },
            RoomUser {
                room_id: room.id,
                user_id: 2,
                generated_room_name: Some("alice".to_string()),
            },
        ])
        .unwrap();
    store
}

fn register(router: &mut RoutingTable, user_id: i32) -> (u64, UnboundedReceiver<ThreadEvent>) {
    let (tx, rx) = unbounded_channel();
    let token = router.register(user_id, tx).unwrap();
    (token, rx)
}

fn controller(user_id: i32) -> Controller {
    Controller::new(Claims { user_id, exp: 0 })
}

fn message_frame(uuid: u128, room_id: i32, content: &str) -> ReceivedEvent {
    ReceivedEvent::FromWebsocket(FrameInput::Request(WsRequest::Message(WsMessageRequest {
        uuid,
        room_id,
        content: content.to_string(),
    })))
}

#[test]
fn message_fan_out_reaches_the_other_member() {
    let mut store = store_with_room();
    let mut router = RoutingTable::new();
    let (_ta, mut rx_alice) = register(&mut router, 1);
    let (_tb, mut rx_bob) = register(&mut router, 2);

    let alice = controller(1);
    let out = alice
        .process(&mut store, &router, message_frame(UUID_ONES, 1, "hi"), 500)
        .unwrap();

    // the sender is acknowledged
    assert!(matches!(
        out.reply,
        Some(WsResponse::Success(WsOkResponse::MessageReceived(u))) if u == UUID_ONES
    ));
    // delivery went to bob alone, and the output records the event sent
    assert_eq!(out.delivered, vec![2]);
    match out.event {
        Some(ThreadEvent::UserMessage(ref m)) => {
            assert_eq!(m.uuid, UUID_ONES);
            assert_eq!(m.from_user_id, 1);
            assert_eq!(m.content, "hi");
        }
        ref other => panic!("unexpected recorded event: {other:?}"),
    }
    assert!(rx_alice.try_recv().is_err());
    match rx_bob.try_recv().unwrap() {
        ThreadEvent::UserMessage(m) => {
            assert_eq!(m.uuid, UUID_ONES);
            assert_eq!(m.from_user_id, 1);
            assert_eq!(m.content, "hi");
        }
        other => panic!("unexpected event: {other:?}"),
    }
    // the message is durable in history
    let page = store.get_messages_by_room(1, Pagination { page: 0, page_size: 10 });
    assert_eq!(page.len(), 1);
    assert_eq!(page[0].uuid, UUID_ONES);
    assert_eq!(page[0].user_id, 1);
    assert!(!page[0].read);
}

#[test]
fn uuid_literal_matches_its_canonical_text() {
    let parsed = uuid::Uuid::parse_str("11111111-1111-1111-1111-111111111111").unwrap();
    assert_eq!(parsed.as_u128(), UUID_ONES);
}

#[test]
fn delivered_event_becomes_a_socket_reply() {
    let mut store = store_with_room();
    let router = RoutingTable::new();
    let bob = controller(2);
    let event = ReceivedEvent::FromOtherThread(ThreadEvent::UserMessage(
        nultr::state::UserMessage {
            uuid: UUID_ONES,
            from_user_id: 1,
            content: "hi".to_string(),
        },
    ));
    let out = bob.process(&mut store, &router, event, 777).unwrap();
    match out.reply {
        Some(WsResponse::Success(WsOkResponse::Message(m))) => {
            assert_eq!(m.uuid, UUID_ONES);
            assert_eq!(m.user_id, 1);
            assert_eq!(m.content, "hi");
            assert_eq!(m.created_at, 777);
            assert!(!m.read);
        }
        other => panic!("unexpected reply: {other:?}"),
    }
}

#[test]
fn non_member_is_rejected_without_persistence_or_fan_out() {
    let mut store = store_with_room();
    let mut router = RoutingTable::new();
    let (_ta, _rx_alice) = register(&mut router, 1);
    let (_tb, mut rx_bob) = register(&mut router, 2);
    let (_tc, _rx_carol) = register(&mut router, 3);

    let carol = controller(3);
    let out = carol
        .process(&mut store, &router, message_frame(UUID_ONES, 1, "hi"), 500)
        .unwrap();
    assert!(matches!(
        out.reply,
        Some(WsResponse::Failure(WsErrorResponse::NotMemberOfRoom))
    ));
    assert!(out.delivered.is_empty());
    assert!(store.get_message_by_uuid(UUID_ONES).is_none());
    assert!(rx_bob.try_recv().is_err());
}

#[test]
fn unknown_room_is_reported_with_the_historical_tag() {
    let mut store = store_with_room();
    let router = RoutingTable::new();
    let alice = controller(1);
    let out = alice
        .process(&mut store, &router, message_frame(UUID_ONES, 99, "hi"), 500)
        .unwrap();
    assert!(matches!(
        out.reply,
        Some(WsResponse::Failure(WsErrorResponse::UserNotFound))
    ));
}

#[test]
fn read_receipt_marks_history_and_reaches_the_sender() {
    let mut store = store_with_room();
    let mut router = RoutingTable::new();
    let (_ta, mut rx_alice) = register(&mut router, 1);
    let (_tb, _rx_bob) = register(&mut router, 2);

    let alice = controller(1);
    alice
        .process(&mut store, &router, message_frame(UUID_ONES, 1, "hi"), 500)
        .unwrap();

    let bob = controller(2);
    let receipt = ReceivedEvent::FromWebsocket(FrameInput::Request(WsRequest::MessagesRead(
        WsMarkMessagesReadRequest {
            room_id: 1,
            message_uuids: vec![UUID_ONES],
        },
    )));
    let out = bob.process(&mut store, &router, receipt, 600).unwrap();
    assert!(out.reply.is_none());
    assert_eq!(out.delivered, vec![1]);
    assert!(matches!(out.event, Some(ThreadEvent::MessagesRead(_))));
    // alice got the first fan-out consumed below; skip her own message event
    match rx_alice.try_recv().unwrap() {
        ThreadEvent::MessagesRead(r) => {
            assert_eq!(r.room_id, 1);
            assert_eq!(r.message_uuids, vec![UUID_ONES]);
        }
        other => panic!("unexpected event: {other:?}"),
    }
    assert!(store.get_message_by_uuid(UUID_ONES).unwrap().read);
}

#[test]
fn read_receipt_from_non_member_still_marks_but_is_refused() {
    let mut store = store_with_room();
    let mut router = RoutingTable::new();
    let (_ta, mut rx_alice) = register(&mut router, 1);

    let alice = controller(1);
    alice
        .process(&mut store, &router, message_frame(UUID_ONES, 1, "hi"), 500)
        .unwrap();

    let carol = controller(3);
    let receipt = ReceivedEvent::FromWebsocket(FrameInput::Request(WsRequest::MessagesRead(
        WsMarkMessagesReadRequest {
            room_id: 1,
            message_uuids: vec![UUID_ONES],
        },
    )));
    let out = carol.process(&mut store, &router, receipt, 600).unwrap();
    assert!(matches!(
        out.reply,
        Some(WsResponse::Failure(WsErrorResponse::NotMemberOfRoom))
    ));
    assert!(out.delivered.is_empty());
    assert!(rx_alice.try_recv().is_err());
    // the update itself precedes the membership check, as stored history has it
    assert!(store.get_message_by_uuid(UUID_ONES).unwrap().read);
}

#[test]
fn offline_recipient_is_skipped_silently() {
    let mut store = store_with_room();
    let mut router = RoutingTable::new();
    let (_ta, _rx_alice) = register(&mut router, 1);
    // bob has no live socket

    let alice = controller(1);
    let out = alice
        .process(&mut store, &router, message_frame(UUID_ONES, 1, "hi"), 500)
        .unwrap();
    assert!(matches!(
        out.reply,
        Some(WsResponse::Success(WsOkResponse::MessageReceived(_)))
    ));
    assert!(out.delivered.is_empty());
    // bob sees the message in history on his next page load
    let page = store.get_messages_by_room(1, Pagination { page: 0, page_size: 10 });
    assert_eq!(page.len(), 1);
}

#[test]
fn resending_a_uuid_is_a_storage_error() {
    let mut store = store_with_room();
    let router = RoutingTable::new();
    let alice = controller(1);
    alice
        .process(&mut store, &router, message_frame(UUID_ONES, 1, "hi"), 500)
        .unwrap();
    let second = alice.process(&mut store, &router, message_frame(UUID_ONES, 1, "hi"), 501);
    assert!(matches!(
        second,
        Err(SessionError::Storage(StoreError::UniqueViolation))
    ));
}

#[test]
fn malformed_and_non_text_frames_get_wrong_format() {
    let mut store = store_with_room();
    let router = RoutingTable::new();
    let alice = controller(1);
    for frame in [FrameInput::Malformed, FrameInput::NotText] {
        let out = alice
            .process(
                &mut store,
                &router,
                ReceivedEvent::FromWebsocket(frame),
                500,
            )
            .unwrap();
        assert!(matches!(
            out.reply,
            Some(WsResponse::Failure(WsErrorResponse::WrongFormat))
        ));
    }
}

#[test]
fn dead_inbox_of_a_registered_recipient_fails_the_sender_after_persisting() {
    let mut store = store_with_room();
    let mut router = RoutingTable::new();
    let (tx, rx) = unbounded_channel();
    router.register(2, tx).unwrap();
    drop(rx);

    let alice = controller(1);
    let r = alice.process(&mut store, &router, message_frame(UUID_ONES, 1, "hi"), 500);
    assert!(matches!(r, Err(SessionError::ChannelClosed)));
    // persistence preceded the failed fan-out
    assert!(store.get_message_by_uuid(UUID_ONES).is_some());
}

#[test]
fn router_replaces_and_keeps_one_entry_per_user() {
    let mut router = RoutingTable::new();
    let (first_token, mut rx_first) = register(&mut router, 1);
    let (_second_token, mut rx_second) = register(&mut router, 1);

    // the lookup now reaches the second session
    let sender = router.lookup(1).unwrap();
    sender
        .send(ThreadEvent::MessagesRead(WsMarkMessagesReadRequest {
            room_id: 1,
            message_uuids: vec![],
        }))
        .unwrap();
    assert!(rx_second.try_recv().is_ok());
    assert!(rx_first.try_recv().is_err());

    // the evicted session's late disconnect must not erase its successor
    assert!(!router.unregister(1, first_token));
    assert!(router.lookup(1).is_some());
}

#[test]
fn unregister_with_own_token_removes_the_entry() {
    let mut router = RoutingTable::new();
    let (token, _rx) = register(&mut router, 1);
    assert!(router.unregister(1, token));
    assert!(router.lookup(1).is_none());
    assert!(!router.unregister(1, token));
}
