//! An earlier socket wire format, kept for clients that still speak it:
//! one direct-message request shape and a reply union. Uuids travel as
//! 128-bit values and timestamps as ticks, as everywhere in the library.

use vstd::prelude::*;

verus! {

/// A delivered message under the earlier format.
#[derive(Debug)]
pub struct MessageResponse {
    pub id: u128,
    pub user_id: i32,
    pub content: String,
    pub created_at: i64,
}

/// Ghost image of [`MessageResponse`].
pub ghost struct MessageResponseV {
    pub id: u128,
    pub user_id: int,
    pub content: Seq<char>,
    pub created_at: i64,
}

impl View for MessageResponse {
    type V = MessageResponseV;

    open spec fn view(&self) -> MessageResponseV {
        MessageResponseV {
            id: self.id,
            user_id: self.user_id as int,
            content: self.content@,
            created_at: self.created_at,
        }
    }
}

/// What the earlier format answers with.
#[derive(Debug)]
pub enum Response {
    MessageSent,
    Message(MessageResponse),
    WrongFormat,
    WrongJsonFormat,
    UserNotFound,
    ChannelError,
}

/// A message request under the earlier format.
#[derive(Debug)]
pub struct MessageRequest {
    pub id: u128,
    pub user_id: i32,
    pub content: String,
}

/// Ghost image of [`MessageRequest`].
pub ghost struct MessageRequestV {
    pub id: u128,
    pub user_id: int,
    pub content: Seq<char>,
}

impl View for MessageRequest {
    type V = MessageRequestV;

    open spec fn view(&self) -> MessageRequestV {
        MessageRequestV { id: self.id, user_id: self.user_id as int, content: self.content@ }
    }
}

/// What a client of the earlier format can send.
#[derive(Debug)]
pub enum Request {
    Message(MessageRequest),
}

} // verus!
