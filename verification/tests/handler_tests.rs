//! The earlier username-keyed handler's decisions.

use nultr::websocket_handler::{
    forward_reply, handle_received, HandlerAction, HandlerInput, InputWebsocketMessage,
    MessageFromUser, OutputWebsocketMessage,
};

#[test]
fn inbox_message_is_echoed_with_its_sender() {
    let action = handle_received(
        "bob",
        HandlerInput::UserMessage(MessageFromUser {
            sender_username: "alice".to_string(),
            content: "hi".to_string(),
        }),
    );
    match action {
        HandlerAction::Reply(OutputWebsocketMessage::MessageFromUser { username, content }) => {
            assert_eq!(username, "alice");
            assert_eq!(content, "hi");
        }
        other => panic!("unexpected action: {other:?}"),
    }
}

#[test]
fn health_check_is_acknowledged() {
    let action = handle_received("alice", HandlerInput::Text(InputWebsocketMessage::Health));
    assert!(matches!(
        action,
        HandlerAction::Reply(OutputWebsocketMessage::Accepted)
    ));
}

#[test]
fn directed_message_is_forwarded_under_the_sender_name() {
    let action = handle_received(
        "alice",
        HandlerInput::Text(InputWebsocketMessage::MessageToUser {
            username: "bob".to_string(),
            content: "hi".to_string(),
        }),
    );
    match action {
        HandlerAction::Forward { username, message } => {
            assert_eq!(username, "bob");
            assert_eq!(message.sender_username, "alice");
            assert_eq!(message.content, "hi");
        }
        other => panic!("unexpected action: {other:?}"),
    }
}

#[test]
fn bad_frames_are_reported() {
    assert!(matches!(
        handle_received("alice", HandlerInput::MalformedText),
        HandlerAction::Reply(OutputWebsocketMessage::WrongJsonFormat)
    ));
    assert!(matches!(
        handle_received("alice", HandlerInput::NotText),
        HandlerAction::Reply(OutputWebsocketMessage::WrongFormat)
    ));
}

#[test]
fn forward_outcomes_map_to_replies() {
    assert!(matches!(
        forward_reply(Some(true)),
        OutputWebsocketMessage::Accepted
    ));
    assert!(matches!(
        forward_reply(Some(false)),
        OutputWebsocketMessage::ChannelError
    ));
    assert!(matches!(
        forward_reply(None),
        OutputWebsocketMessage::UserNotFound
    ));
}
