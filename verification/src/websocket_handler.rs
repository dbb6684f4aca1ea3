//! The earlier, username-keyed socket handler: direct user-to-user
//! messages without rooms or persistence. The decision logic is kept
//! here; the socket loop and the username-keyed sender map drive it
//! from outside the library.

use vstd::prelude::*;

verus! {

/// A direct message on its way to another user's socket.
#[derive(Debug)]
pub struct MessageFromUser {
    pub sender_username: String,
    pub content: String,
}

/// Ghost image of [`MessageFromUser`].
pub ghost struct MessageFromUserV {
    pub sender_username: Seq<char>,
    pub content: Seq<char>,
}

impl View for MessageFromUser {
    type V = MessageFromUserV;

    open spec fn view(&self) -> MessageFromUserV {
        MessageFromUserV { sender_username: self.sender_username@, content: self.content@ }
    }
}

impl Clone for MessageFromUser {
    fn clone(&self) -> (res: Self)
        ensures
            res@ == self@,
    {
        MessageFromUser {
            sender_username: self.sender_username.clone(),
            content: self.content.clone(),
        }
    }
}

/// What a client of this handler can send.
#[derive(Debug)]
pub enum InputWebsocketMessage {
    Health,
    MessageToUser { username: String, content: String },
}

/// Ghost image of [`InputWebsocketMessage`].
pub ghost enum InputWebsocketMessageV {
    Health,
    MessageToUser { username: Seq<char>, content: Seq<char> },
}

impl View for InputWebsocketMessage {
    type V = InputWebsocketMessageV;

    open spec fn view(&self) -> InputWebsocketMessageV {
        match self {
            InputWebsocketMessage::Health => InputWebsocketMessageV::Health,
            InputWebsocketMessage::MessageToUser { username, content } => {
                InputWebsocketMessageV::MessageToUser { username: username@, content: content@ }
            },
        }
    }
}

/// What this handler writes back.
#[derive(Debug)]
pub enum OutputWebsocketMessage {
    /// The request was carried out.
    Accepted,
    /// Another user's message, delivered to this socket.
    MessageFromUser { username: String, content: String },
    /// The frame was not text.
    WrongFormat,
    /// The text frame did not parse.
    WrongJsonFormat,
    /// The addressed user has no live socket.
    UserNotFound,
    /// The addressed user's channel no longer accepts messages.
    ChannelError,
}

/// Ghost image of [`OutputWebsocketMessage`].
pub ghost enum OutputWebsocketMessageV {
    Accepted,
    MessageFromUser { username: Seq<char>, content: Seq<char> },
    WrongFormat,
    WrongJsonFormat,
    UserNotFound,
    ChannelError,
}

impl View for OutputWebsocketMessage {
    type V = OutputWebsocketMessageV;

    open spec fn view(&self) -> OutputWebsocketMessageV {
        match self {
            OutputWebsocketMessage::Accepted => OutputWebsocketMessageV::Accepted,
            OutputWebsocketMessage::MessageFromUser { username, content } => {
                OutputWebsocketMessageV::MessageFromUser {
                    username: username@,
                    content: content@,
                }
            },
            OutputWebsocketMessage::WrongFormat => OutputWebsocketMessageV::WrongFormat,
            OutputWebsocketMessage::WrongJsonFormat => OutputWebsocketMessageV::WrongJsonFormat,
            OutputWebsocketMessage::UserNotFound => OutputWebsocketMessageV::UserNotFound,
            OutputWebsocketMessage::ChannelError => OutputWebsocketMessageV::ChannelError,
        }
    }
}

/// What the handler's select loop received, with text frames already
/// parsed.
#[derive(Debug)]
pub enum HandlerInput {
    /// Another user's message arrived through this session's inbox.
    UserMessage(MessageFromUser),
    /// A text frame that parsed.
    Text(InputWebsocketMessage),
    /// A text frame that did not parse.
    MalformedText,
    /// Any other frame.
    NotText,
}

/// Ghost image of [`HandlerInput`].
pub ghost enum HandlerInputV {
    UserMessage(MessageFromUserV),
    Text(InputWebsocketMessageV),
    MalformedText,
    NotText,
}

impl View for HandlerInput {
    type V = HandlerInputV;

    open spec fn view(&self) -> HandlerInputV {
        match self {
            HandlerInput::UserMessage(m) => HandlerInputV::UserMessage(m@),
            HandlerInput::Text(t) => HandlerInputV::Text(t@),
            HandlerInput::MalformedText => HandlerInputV::MalformedText,
            HandlerInput::NotText => HandlerInputV::NotText,
        }
    }
}

/// What the loop should do with one received item: write a reply, or
/// forward a message to the named user's inbox and then reply with the
/// forwarding outcome (see [`forward_reply`]).
#[derive(Debug)]
pub enum HandlerAction {
    Reply(OutputWebsocketMessage),
    Forward { username: String, message: MessageFromUser },
}

/// Ghost image of [`HandlerAction`].
pub ghost enum HandlerActionV {
    Reply(OutputWebsocketMessageV),
    Forward { username: Seq<char>, message: MessageFromUserV },
}

impl View for HandlerAction {
    type V = HandlerActionV;

    open spec fn view(&self) -> HandlerActionV {
        match self {
            HandlerAction::Reply(r) => HandlerActionV::Reply(r@),
            HandlerAction::Forward { username, message } => {
                HandlerActionV::Forward { username: username@, message: message@ }
            },
        }
    }
}

/// Decides one received item: an inbox message is echoed to this socket
/// with its sender's name; a health check is acknowledged; a directed
/// message is forwarded under this session's username; anything else is
/// a format error.
pub fn handle_received(self_username: &str, input: HandlerInput) -> (r: HandlerAction)
    ensures
        r@ == match input@ {
            HandlerInputV::UserMessage(m) => HandlerActionV::Reply(
                OutputWebsocketMessageV::MessageFromUser {
                    username: m.sender_username,
                    content: m.content,
                },
            ),
            HandlerInputV::Text(InputWebsocketMessageV::Health) => HandlerActionV::Reply(
                OutputWebsocketMessageV::Accepted,
            ),
            HandlerInputV::Text(
                InputWebsocketMessageV::MessageToUser { username, content },
            ) => HandlerActionV::Forward {
                username,
                message: MessageFromUserV { sender_username: self_username@, content },
            },
            HandlerInputV::MalformedText => HandlerActionV::Reply(
                OutputWebsocketMessageV::WrongJsonFormat,
            ),
            HandlerInputV::NotText => HandlerActionV::Reply(OutputWebsocketMessageV::WrongFormat),
        },
{
    match input {
        HandlerInput::UserMessage(message) => HandlerAction::Reply(
            OutputWebsocketMessage::MessageFromUser {
                username: message.sender_username,
                content: message.content,
            },
        ),
        HandlerInput::Text(InputWebsocketMessage::Health) => HandlerAction::Reply(
            OutputWebsocketMessage::Accepted,
        ),
        HandlerInput::Text(InputWebsocketMessage::MessageToUser { username, content }) => {
            HandlerAction::Forward {
                username,
                message: MessageFromUser {
                    sender_username: self_username.to_owned(),
                    content,
                },
            }
        },
        HandlerInput::MalformedText => HandlerAction::Reply(
            OutputWebsocketMessage::WrongJsonFormat,
        ),
        HandlerInput::NotText => HandlerAction::Reply(OutputWebsocketMessage::WrongFormat),
    }
}

/// The reply after a forward: delivered, recipient unknown, or the
/// recipient's channel gone.
pub fn forward_reply(delivered: Option<bool>) -> (r: OutputWebsocketMessage)
    ensures
        r@ == match delivered {
            Some(true) => OutputWebsocketMessageV::Accepted,
            Some(false) => OutputWebsocketMessageV::ChannelError,
            None => OutputWebsocketMessageV::UserNotFound,
        },
{
    match delivered {
        Some(true) => OutputWebsocketMessage::Accepted,
        Some(false) => OutputWebsocketMessage::ChannelError,
        None => OutputWebsocketMessage::UserNotFound,
    }
}

} // verus!
