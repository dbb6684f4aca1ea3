//! The persistent data model: users, rooms, memberships and messages.
//!
//! Each executable record type has a ghost counterpart (its view) over
//! mathematical integers and character sequences; the storage and session
//! contracts are stated over those views.

use vstd::prelude::*;

verus! {

/// Ghost image of a [`User`] record.
pub ghost struct UserV {
    pub id: int,
    pub username: Seq<char>,
    pub password_hash: Seq<char>,
}

/// An account. `id` is the surrogate key; `username` is unique.
#[derive(Debug)]
pub struct User {
    pub id: i32,
    pub username: String,
    pub password_hash: String,
}

impl View for User {
    type V = UserV;

    open spec fn view(&self) -> UserV {
        UserV {
            id: self.id as int,
            username: self.username@,
            password_hash: self.password_hash@,
        }
    }
}

impl DeepView for User {
    type V = UserV;

    open spec fn deep_view(&self) -> UserV {
        self.view()
    }
}

impl Clone for User {
    fn clone(&self) -> (res: Self)
        ensures
            res@ == self@,
    {
        User {
            id: self.id,
            username: self.username.clone(),
            password_hash: self.password_hash.clone(),
        }
    }
}

/// Ghost image of a [`Room`] record.
pub ghost struct RoomV {
    pub id: int,
    pub name: Seq<char>,
}

/// A chat room. `id` is the surrogate key.
#[derive(Debug)]
pub struct Room {
    pub id: i32,
    pub name: String,
}

impl View for Room {
    type V = RoomV;

    open spec fn view(&self) -> RoomV {
        RoomV { id: self.id as int, name: self.name@ }
    }
}

impl DeepView for Room {
    type V = RoomV;

    open spec fn deep_view(&self) -> RoomV {
        self.view()
    }
}

impl Clone for Room {
    fn clone(&self) -> (res: Self)
        ensures
            res@ == self@,
    {
        Room { id: self.id, name: self.name.clone() }
    }
}

/// Ghost image of a [`RoomUser`] record.
pub ghost struct RoomUserV {
    pub room_id: int,
    pub user_id: int,
    pub generated_room_name: Option<Seq<char>>,
}

/// A membership row: `(room_id, user_id)` is the composite key.
/// `generated_room_name`, when present, is shown to that user in place of
/// the room's own name.
#[derive(Debug)]
pub struct RoomUser {
    pub room_id: i32,
    pub user_id: i32,
    pub generated_room_name: Option<String>,
}

impl View for RoomUser {
    type V = RoomUserV;

    open spec fn view(&self) -> RoomUserV {
        RoomUserV {
            room_id: self.room_id as int,
            user_id: self.user_id as int,
            generated_room_name: match self.generated_room_name {
                Some(ref n) => Some(n@),
                None => None,
            },
        }
    }
}

impl DeepView for RoomUser {
    type V = RoomUserV;

    open spec fn deep_view(&self) -> RoomUserV {
        self.view()
    }
}

impl Clone for RoomUser {
    fn clone(&self) -> (res: Self)
        ensures
            res@ == self@,
    {
        RoomUser {
            room_id: self.room_id,
            user_id: self.user_id,
            generated_room_name: match &self.generated_room_name {
                Some(n) => Some(n.clone()),
                None => None,
            },
        }
    }
}

/// Ghost image of a [`Message`] record.
pub ghost struct MessageV {
    pub id: int,
    pub uuid: u128,
    pub room_id: int,
    pub user_id: int,
    pub content: Seq<char>,
    pub created_at: i64,
    pub read: bool,
}

/// A persisted chat message. `id` is the surrogate key; `uuid` is the
/// client-supplied identifier and is unique across all messages;
/// `created_at` is the server clock at insertion; `read` starts false and
/// only ever moves to true.
#[derive(Debug)]
pub struct Message {
    pub id: i32,
    pub uuid: u128,
    pub room_id: i32,
    pub user_id: i32,
    pub content: String,
    pub created_at: i64,
    pub read: bool,
}

impl View for Message {
    type V = MessageV;

    open spec fn view(&self) -> MessageV {
        MessageV {
            id: self.id as int,
            uuid: self.uuid,
            room_id: self.room_id as int,
            user_id: self.user_id as int,
            content: self.content@,
            created_at: self.created_at,
            read: self.read,
        }
    }
}

impl DeepView for Message {
    type V = MessageV;

    open spec fn deep_view(&self) -> MessageV {
        self.view()
    }
}

impl Clone for Message {
    fn clone(&self) -> (res: Self)
        ensures
            res@ == self@,
    {
        Message {
            id: self.id,
            uuid: self.uuid,
            room_id: self.room_id,
            user_id: self.user_id,
            content: self.content.clone(),
            created_at: self.created_at,
            read: self.read,
        }
    }
}

/// A page request for message history: `page` counts from zero and
/// `page_size` is the number of rows per page.
#[derive(Debug, Clone, Copy)]
pub struct Pagination {
    pub page: u64,
    pub page_size: u64,
}

/// Indexing the deep view of a vector gives the element's deep view.
pub broadcast proof fn lemma_vec_deep_view_index<T: DeepView>(v: Vec<T>, i: int)
    requires
        0 <= i < v.deep_view().len(),
    ensures
        #[trigger] v.deep_view()[i] == v@[i].deep_view(),
{
}

/// The deep view of a vector has the vector's length.
pub broadcast proof fn lemma_vec_deep_view_len<T: DeepView>(v: Vec<T>)
    ensures
        (#[trigger] v.deep_view()).len() == v@.len(),
{
}

} // verus!
