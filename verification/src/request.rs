//! The wire data model shared by the socket protocol and the request API.
//!
//! Message uuids travel as 128-bit values and timestamps as signed ticks;
//! framing and JSON encoding happen outside the library.

use vstd::prelude::*;

verus! {

/// A client frame asking to post a message to a room.
#[derive(Debug)]
pub struct WsMessageRequest {
    pub uuid: u128,
    pub room_id: i32,
    pub content: String,
}

/// Ghost image of [`WsMessageRequest`].
pub ghost struct WsMessageRequestV {
    pub uuid: u128,
    pub room_id: int,
    pub content: Seq<char>,
}

impl View for WsMessageRequest {
    type V = WsMessageRequestV;

    open spec fn view(&self) -> WsMessageRequestV {
        WsMessageRequestV {
            uuid: self.uuid,
            room_id: self.room_id as int,
            content: self.content@,
        }
    }
}

/// A client frame reporting messages of a room as read.
#[derive(Debug)]
pub struct WsMarkMessagesReadRequest {
    pub room_id: i32,
    pub message_uuids: Vec<u128>,
}

/// Ghost image of [`WsMarkMessagesReadRequest`].
pub ghost struct WsMarkMessagesReadRequestV {
    pub room_id: int,
    pub message_uuids: Seq<u128>,
}

impl View for WsMarkMessagesReadRequest {
    type V = WsMarkMessagesReadRequestV;

    open spec fn view(&self) -> WsMarkMessagesReadRequestV {
        WsMarkMessagesReadRequestV {
            room_id: self.room_id as int,
            message_uuids: self.message_uuids@,
        }
    }
}

impl Clone for WsMarkMessagesReadRequest {
    fn clone(&self) -> (res: Self)
        ensures
            res@ == self@,
    {
        let res = WsMarkMessagesReadRequest {
            room_id: self.room_id,
            message_uuids: self.message_uuids.clone(),
        };
        proof {
            assert(res.message_uuids@ =~= self.message_uuids@);
        }
        res
    }
}

/// Everything a client can send over the socket.
#[derive(Debug)]
pub enum WsRequest {
    Message(WsMessageRequest),
    MessagesRead(WsMarkMessagesReadRequest),
}

/// Ghost image of [`WsRequest`].
pub ghost enum WsRequestV {
    Message(WsMessageRequestV),
    MessagesRead(WsMarkMessagesReadRequestV),
}

impl View for WsRequest {
    type V = WsRequestV;

    open spec fn view(&self) -> WsRequestV {
        match self {
            WsRequest::Message(r) => WsRequestV::Message(r@),
            WsRequest::MessagesRead(r) => WsRequestV::MessagesRead(r@),
        }
    }
}

/// Delivery of another user's message, as written to the socket. A
/// freshly delivered message is always unread; the flag travels on the
/// frame so clients see it without reloading history.
#[derive(Debug)]
pub struct WsMessageResponse {
    pub uuid: u128,
    pub user_id: i32,
    pub content: String,
    pub created_at: i64,
    pub read: bool,
}

/// Ghost image of [`WsMessageResponse`].
pub ghost struct WsMessageResponseV {
    pub uuid: u128,
    pub user_id: int,
    pub content: Seq<char>,
    pub created_at: i64,
    pub read: bool,
}

impl View for WsMessageResponse {
    type V = WsMessageResponseV;

    open spec fn view(&self) -> WsMessageResponseV {
        WsMessageResponseV {
            uuid: self.uuid,
            user_id: self.user_id as int,
            content: self.content@,
            created_at: self.created_at,
            read: self.read,
        }
    }
}

/// The success half of a socket reply.
#[derive(Debug)]
pub enum WsOkResponse {
    /// Another user's message, delivered to this socket.
    Message(WsMessageResponse),
    /// Acknowledgement to the sender: the message with this uuid was
    /// persisted and its fan-out dispatched.
    MessageReceived(u128),
    /// A propagated read receipt.
    MessagesRead(WsMarkMessagesReadRequest),
}

/// Ghost image of [`WsOkResponse`].
pub ghost enum WsOkResponseV {
    Message(WsMessageResponseV),
    MessageReceived(u128),
    MessagesRead(WsMarkMessagesReadRequestV),
}

impl View for WsOkResponse {
    type V = WsOkResponseV;

    open spec fn view(&self) -> WsOkResponseV {
        match self {
            WsOkResponse::Message(r) => WsOkResponseV::Message(r@),
            WsOkResponse::MessageReceived(u) => WsOkResponseV::MessageReceived(*u),
            WsOkResponse::MessagesRead(r) => WsOkResponseV::MessagesRead(r@),
        }
    }
}

/// The failure half of a socket reply.
#[derive(Debug, Clone, Copy, PartialEq, Eq, Structural)]
pub enum WsErrorResponse {
    /// The frame was not text or did not parse.
    WrongFormat,
    /// The addressed room (historically tagged this way) does not exist.
    UserNotFound,
    /// The caller does not belong to the addressed room.
    NotMemberOfRoom,
    /// The reply itself could not be produced.
    Fatal,
}

/// A socket reply: success with a payload, or a protocol error.
#[derive(Debug)]
pub enum WsResponse {
    Success(WsOkResponse),
    Failure(WsErrorResponse),
}

/// Ghost image of [`WsResponse`].
pub ghost enum WsResponseV {
    Success(WsOkResponseV),
    Failure(WsErrorResponse),
}

impl View for WsResponse {
    type V = WsResponseV;

    open spec fn view(&self) -> WsResponseV {
        match self {
            WsResponse::Success(r) => WsResponseV::Success(r@),
            WsResponse::Failure(e) => WsResponseV::Failure(*e),
        }
    }
}

/// A login attempt.
#[derive(Debug)]
pub struct LoginRequest {
    pub username: String,
    pub password: String,
}

/// A successful login: the account id and a bearer token for it.
#[derive(Debug)]
pub struct LoginResponse {
    pub user_id: i32,
    pub token: String,
}

/// One account, as listed to clients.
#[derive(Debug)]
pub struct UserResponse {
    pub id: i32,
    pub username: String,
}

/// Ghost image of [`UserResponse`].
pub ghost struct UserResponseV {
    pub id: int,
    pub username: Seq<char>,
}

impl View for UserResponse {
    type V = UserResponseV;

    open spec fn view(&self) -> UserResponseV {
        UserResponseV { id: self.id as int, username: self.username@ }
    }
}

impl DeepView for UserResponse {
    type V = UserResponseV;

    open spec fn deep_view(&self) -> UserResponseV {
        self.view()
    }
}

/// One room, under the name shown to the asking user.
#[derive(Debug)]
pub struct RoomResponse {
    pub id: i32,
    pub name: String,
}

/// Ghost image of [`RoomResponse`].
pub ghost struct RoomResponseV {
    pub id: int,
    pub name: Seq<char>,
}

impl View for RoomResponse {
    type V = RoomResponseV;

    open spec fn view(&self) -> RoomResponseV {
        RoomResponseV { id: self.id as int, name: self.name@ }
    }
}

impl DeepView for RoomResponse {
    type V = RoomResponseV;

    open spec fn deep_view(&self) -> RoomResponseV {
        self.view()
    }
}

/// One message of a history page.
#[derive(Debug)]
pub struct MessageResponse {
    pub uuid: u128,
    pub user_id: i32,
    pub content: String,
    pub created_at: i64,
    pub read: bool,
}

/// Ghost image of [`MessageResponse`].
pub ghost struct MessageResponseV {
    pub uuid: u128,
    pub user_id: int,
    pub content: Seq<char>,
    pub created_at: i64,
    pub read: bool,
}

impl View for MessageResponse {
    type V = MessageResponseV;

    open spec fn view(&self) -> MessageResponseV {
        MessageResponseV {
            uuid: self.uuid,
            user_id: self.user_id as int,
            content: self.content@,
            created_at: self.created_at,
            read: self.read,
        }
    }
}

impl DeepView for MessageResponse {
    type V = MessageResponseV;

    open spec fn deep_view(&self) -> MessageResponseV {
        self.view()
    }
}

/// A request to open a private room with another user.
#[derive(Debug)]
pub struct CreatePrivateRoomRequest {
    pub name: String,
    pub receiver_user_id: i32,
}

/// The created room, named after the other participant.
#[derive(Debug)]
pub struct CreatePrivateRoomResponse {
    pub id: i32,
    pub name: String,
}

/// A history page request.
#[derive(Debug, Clone, Copy)]
pub struct GetMessagesRequest {
    pub room_id: i32,
    pub page: u64,
    pub page_size: u64,
}

/// Login failure: the account is unknown or the password wrong.
#[derive(Debug, Clone, Copy, PartialEq, Eq, Structural)]
pub enum LoginErrorResponse {
    AccessDenied,
}

/// Private-room creation failure: a participant does not exist.
#[derive(Debug, Clone, Copy, PartialEq, Eq, Structural)]
pub enum CreatePrivateRoomErrorResponse {
    UserNotFound,
}

/// History failure: unknown room, or the caller is not in it.
#[derive(Debug, Clone, Copy, PartialEq, Eq, Structural)]
pub enum GetMessagesErrorResponse {
    RoomNotFound,
    NotMemberOfRoom,
}

/// Upgrade authorization failure.
#[derive(Debug, Clone, Copy, PartialEq, Eq, Structural)]
pub enum AuthError {
    InvalidToken,
}

} // verus!
