//! Cross-session events: what one session drops into another session's
//! inbox.

use vstd::prelude::*;

use crate::jwt::Encoder;
use crate::password::PasswordHasher;
use crate::request::{WsMarkMessagesReadRequest, WsMarkMessagesReadRequestV};
use crate::store::Store;

verus! {

/// Everything the request handlers and sessions share: the store and the
/// two credential services.
pub struct ServiceState {
    pub store: Store,
    pub password_hasher: PasswordHasher,
    pub jwt_encoder: Encoder,
}

impl ServiceState {
    /// A fresh service over an empty store, signing tokens with this
    /// secret.
    pub fn new(jwt_secret: String) -> (r: ServiceState)
        ensures
            r.store.wf(),
            r.store@.users.len() == 0,
            r.store@.rooms.len() == 0,
            r.store@.rooms_users.len() == 0,
            r.store@.messages.len() == 0,
            r.jwt_encoder.secret@ == jwt_secret@,
    {
        ServiceState {
            store: Store::new(),
            password_hasher: PasswordHasher {  },
            jwt_encoder: Encoder::new(jwt_secret),
        }
    }
}

/// What the admin commands need: the store and the password service.
pub struct CliState {
    pub password_hasher: PasswordHasher,
    pub store: Store,
}

impl CliState {
    /// A fresh admin state over an empty store.
    pub fn new() -> (r: CliState)
        ensures
            r.store.wf(),
            r.store@.users.len() == 0,
    {
        CliState { password_hasher: PasswordHasher {  }, store: Store::new() }
    }
}

/// A chat message on its way to another session's socket.
#[derive(Debug)]
pub struct UserMessage {
    pub uuid: u128,
    pub from_user_id: i32,
    pub content: String,
}

/// Ghost image of [`UserMessage`].
pub ghost struct UserMessageV {
    pub uuid: u128,
    pub from_user_id: int,
    pub content: Seq<char>,
}

impl View for UserMessage {
    type V = UserMessageV;

    open spec fn view(&self) -> UserMessageV {
        UserMessageV {
            uuid: self.uuid,
            from_user_id: self.from_user_id as int,
            content: self.content@,
        }
    }
}

impl Clone for UserMessage {
    fn clone(&self) -> (res: Self)
        ensures
            res@ == self@,
    {
        UserMessage {
            uuid: self.uuid,
            from_user_id: self.from_user_id,
            content: self.content.clone(),
        }
    }
}

/// What sessions send each other through their inboxes.
#[derive(Debug)]
pub enum ThreadEvent {
    UserMessage(UserMessage),
    MessagesRead(WsMarkMessagesReadRequest),
}

/// Ghost image of [`ThreadEvent`].
pub ghost enum ThreadEventV {
    UserMessage(UserMessageV),
    MessagesRead(WsMarkMessagesReadRequestV),
}

impl View for ThreadEvent {
    type V = ThreadEventV;

    open spec fn view(&self) -> ThreadEventV {
        match self {
            ThreadEvent::UserMessage(m) => ThreadEventV::UserMessage(m@),
            ThreadEvent::MessagesRead(r) => ThreadEventV::MessagesRead(r@),
        }
    }
}

impl Clone for ThreadEvent {
    fn clone(&self) -> (res: Self)
        ensures
            res@ == self@,
    {
        match self {
            ThreadEvent::UserMessage(m) => ThreadEvent::UserMessage(m.clone()),
            ThreadEvent::MessagesRead(r) => ThreadEvent::MessagesRead(r.clone()),
        }
    }
}

} // verus!
