//! In-memory storage with the relational schema's guarantees.
//!
//! [`Store`] holds the users, rooms, memberships and messages behind the
//! repository surface the rest of the library works against. Its
//! well-formedness predicate [`store_wf`] carries the schema constraints
//! (unique surrogate ids, unique usernames, unique message uuids, foreign
//! keys, a sender's membership in the room it posted to) and every
//! operation is proved to keep them.

use vstd::prelude::*;
use vstd::seq_lib::group_filter_ensures;

use crate::models::{Message, MessageV, Pagination, Room, RoomUser, RoomUserV, RoomV, User, UserV};

verus! {

broadcast use
    group_filter_ensures,
    crate::models::lemma_vec_deep_view_index,
    crate::models::lemma_vec_deep_view_len,
;

/// Ghost image of the whole store.
#[verifier::ext_equal]
pub ghost struct StoreV {
    pub users: Seq<UserV>,
    pub rooms: Seq<RoomV>,
    pub rooms_users: Seq<RoomUserV>,
    pub messages: Seq<MessageV>,
    pub next_user_id: int,
    pub next_room_id: int,
    pub next_message_id: int,
}

/// Why a write was refused. Mirrors the constraint set of the schema,
/// plus the data-model rule that a message's sender belongs to its room.
#[derive(Debug, Clone, Copy, PartialEq, Eq, Structural)]
pub enum StoreError {
    /// A unique key (user id, username, room id, membership key, message
    /// uuid) is already taken.
    UniqueViolation,
    /// A referenced user or room does not exist.
    ForeignKeyViolation,
    /// The message's sender is not a member of the target room.
    SenderNotMember,
    /// The surrogate id space is exhausted.
    IdOverflow,
}

pub open spec fn has_user(s: StoreV, id: int) -> bool {
    exists|i: int| 0 <= i < s.users.len() && s.users[i].id == id
}

pub open spec fn user_index(s: StoreV, id: int) -> int {
    choose|i: int| 0 <= i < s.users.len() && s.users[i].id == id
}

pub open spec fn user_with(s: StoreV, id: int) -> UserV {
    s.users[user_index(s, id)]
}

pub open spec fn has_username(s: StoreV, name: Seq<char>) -> bool {
    exists|i: int| 0 <= i < s.users.len() && s.users[i].username == name
}

pub open spec fn username_index(s: StoreV, name: Seq<char>) -> int {
    choose|i: int| 0 <= i < s.users.len() && s.users[i].username == name
}

pub open spec fn user_named(s: StoreV, name: Seq<char>) -> UserV {
    s.users[username_index(s, name)]
}

pub open spec fn has_room(s: StoreV, id: int) -> bool {
    exists|i: int| 0 <= i < s.rooms.len() && s.rooms[i].id == id
}

pub open spec fn room_index(s: StoreV, id: int) -> int {
    choose|i: int| 0 <= i < s.rooms.len() && s.rooms[i].id == id
}

pub open spec fn room_with(s: StoreV, id: int) -> RoomV {
    s.rooms[room_index(s, id)]
}

/// The membership relation: user `user_id` belongs to room `room_id`.
pub open spec fn member_of(ru: Seq<RoomUserV>, room_id: int, user_id: int) -> bool {
    exists|i: int| 0 <= i < ru.len() && ru[i].room_id == room_id && ru[i].user_id == user_id
}

pub open spec fn has_message_uuid(s: StoreV, uuid: u128) -> bool {
    exists|i: int| 0 <= i < s.messages.len() && s.messages[i].uuid == uuid
}

pub open spec fn message_index(s: StoreV, uuid: u128) -> int {
    choose|i: int| 0 <= i < s.messages.len() && s.messages[i].uuid == uuid
}

pub open spec fn message_with(s: StoreV, uuid: u128) -> MessageV {
    s.messages[message_index(s, uuid)]
}

pub open spec fn user_ids_unique(users: Seq<UserV>) -> bool {
    forall|i: int, j: int|
        0 <= i < j < users.len() ==> users[i].id != users[j].id
}

pub open spec fn usernames_unique(users: Seq<UserV>) -> bool {
    forall|i: int, j: int|
        0 <= i < j < users.len() ==> users[i].username != users[j].username
}

pub open spec fn room_ids_unique(rooms: Seq<RoomV>) -> bool {
    forall|i: int, j: int|
        0 <= i < j < rooms.len() ==> rooms[i].id != rooms[j].id
}

pub open spec fn membership_keys_unique(ru: Seq<RoomUserV>) -> bool {
    forall|i: int, j: int|
        0 <= i < j < ru.len()
            ==> !(ru[i].room_id == ru[j].room_id && ru[i].user_id == ru[j].user_id)
}

pub open spec fn message_ids_unique(ms: Seq<MessageV>) -> bool {
    forall|i: int, j: int|
        0 <= i < j < ms.len() ==> ms[i].id != ms[j].id
}

/// No two messages share a uuid.
pub open spec fn message_uuids_unique(ms: Seq<MessageV>) -> bool {
    forall|i: int, j: int|
        0 <= i < j < ms.len() ==> ms[i].uuid != ms[j].uuid
}

/// Messages are kept ordered by insertion time, with the surrogate id
/// breaking ties in insertion order.
pub open spec fn messages_time_sorted(ms: Seq<MessageV>) -> bool {
    forall|i: int, j: int|
        0 <= i < j < ms.len()
            ==> ms[i].created_at <= ms[j].created_at && (ms[i].created_at == ms[j].created_at
                ==> ms[i].id < ms[j].id)
}

/// The schema constraints and data-model invariants, over the ghost store.
pub open spec fn store_wf(s: StoreV) -> bool {
    &&& 1 <= s.next_user_id <= i32::MAX
    &&& 1 <= s.next_room_id <= i32::MAX
    &&& 1 <= s.next_message_id <= i32::MAX
    &&& forall|i: int| 0 <= i < s.users.len() ==> 1 <= (#[trigger] s.users[i]).id < s.next_user_id
    &&& user_ids_unique(s.users)
    &&& usernames_unique(s.users)
    &&& forall|i: int| 0 <= i < s.rooms.len() ==> 1 <= (#[trigger] s.rooms[i]).id < s.next_room_id
    &&& room_ids_unique(s.rooms)
    &&& membership_keys_unique(s.rooms_users)
    &&& forall|i: int|
        0 <= i < s.rooms_users.len()
            ==> has_room(s, (#[trigger] s.rooms_users[i]).room_id) && has_user(
                s,
                s.rooms_users[i].user_id,
            )
    &&& forall|i: int|
        0 <= i < s.messages.len() ==> 1 <= (#[trigger] s.messages[i]).id < s.next_message_id
    &&& message_ids_unique(s.messages)
    &&& message_uuids_unique(s.messages)
    &&& forall|i: int|
        0 <= i < s.messages.len()
            ==> has_room(s, (#[trigger] s.messages[i]).room_id) && has_user(
                s,
                s.messages[i].user_id,
            ) && member_of(s.rooms_users, s.messages[i].room_id, s.messages[i].user_id)
    &&& messages_time_sorted(s.messages)
}

/// The in-memory store behind the repository surface.
pub struct Store {
    pub users: Vec<User>,
    pub rooms: Vec<Room>,
    pub rooms_users: Vec<RoomUser>,
    pub messages: Vec<Message>,
    pub next_user_id: i32,
    pub next_room_id: i32,
    pub next_message_id: i32,
}

impl View for Store {
    type V = StoreV;

    open spec fn view(&self) -> StoreV {
        StoreV {
            users: self.users.deep_view(),
            rooms: self.rooms.deep_view(),
            rooms_users: self.rooms_users.deep_view(),
            messages: self.messages.deep_view(),
            next_user_id: self.next_user_id as int,
            next_room_id: self.next_room_id as int,
            next_message_id: self.next_message_id as int,
        }
    }
}

impl Store {
    pub open spec fn wf(&self) -> bool {
        store_wf(self@)
    }

    /// An empty store; surrogate ids start at 1 as in the schema.
    pub fn new() -> (s: Store)
        ensures
            s.wf(),
            s@.users == Seq::<UserV>::empty(),
            s@.rooms == Seq::<RoomV>::empty(),
            s@.rooms_users == Seq::<RoomUserV>::empty(),
            s@.messages == Seq::<MessageV>::empty(),
    {
        let s = Store {
            users: Vec::new(),
            rooms: Vec::new(),
            rooms_users: Vec::new(),
            messages: Vec::new(),
            next_user_id: 1,
            next_room_id: 1,
            next_message_id: 1,
        };
        proof {
            assert(s@.users =~= Seq::<UserV>::empty());
            assert(s@.rooms =~= Seq::<RoomV>::empty());
            assert(s@.rooms_users =~= Seq::<RoomUserV>::empty());
            assert(s@.messages =~= Seq::<MessageV>::empty());
        }
        s
    }

    /// Whether a user with this id exists.
    pub fn exists_user_by_id(&self, id: i32) -> (r: bool)
        ensures
            r == has_user(self@, id as int),
    {
        let n = self.users.len();
        for i in 0..n
            invariant
                n == self.users.len(),
                forall|k: int| 0 <= k < i ==> (#[trigger] self@.users[k]).id != id as int,
        {
            if self.users[i].id == id {
                proof {
                    assert(self@.users[i as int].id == id as int);
                }
                return true;
            }
            proof {
                assert(self@.users[i as int].id != id as int);
            }
        }
        false
    }

    /// The user with this id, if any.
    pub fn get_user_by_id(&self, id: i32) -> (r: Option<User>)
        requires
            self.wf(),
        ensures
            match r {
                Some(u) => has_user(self@, id as int) && u@ == user_with(self@, id as int),
                None => !has_user(self@, id as int),
            },
    {
        let n = self.users.len();
        for i in 0..n
            invariant
                self.wf(),
                n == self.users.len(),
                forall|k: int| 0 <= k < i ==> (#[trigger] self@.users[k]).id != id as int,
        {
            if self.users[i].id == id {
                proof {
                    assert(self@.users[i as int].id == id as int);
                    let j = user_index(self@, id as int);
                    assert(0 <= j < self@.users.len() && self@.users[j].id == id as int);
                    assert(j == i as int);
                }
                return Some(self.users[i].clone());
            }
            proof {
                assert(self@.users[i as int].id != id as int);
            }
        }
        None
    }

    /// The user with this username, if any.
    pub fn get_by_username(&self, username: String) -> (r: Option<User>)
        requires
            self.wf(),
        ensures
            match r {
                Some(u) => has_username(self@, username@) && u@ == user_named(self@, username@),
                None => !has_username(self@, username@),
            },
    {
        let n = self.users.len();
        for i in 0..n
            invariant
                self.wf(),
                n == self.users.len(),
                forall|k: int| 0 <= k < i ==> (#[trigger] self@.users[k]).username != username@,
        {
            if self.users[i].username == username {
                proof {
                    assert(self@.users[i as int].username == username@);
                    let j = username_index(self@, username@);
                    assert(0 <= j < self@.users.len() && self@.users[j].username == username@);
                    assert(j == i as int);
                }
                return Some(self.users[i].clone());
            }
            proof {
                assert(self@.users[i as int].username != username@);
            }
        }
        None
    }

    /// All users, in insertion order.
    pub fn get_all_users(&self) -> (r: Vec<User>)
        ensures
            r.deep_view() == self@.users,
    {
        let n = self.users.len();
        let mut out: Vec<User> = Vec::new();
        for i in 0..n
            invariant
                n == self.users.len(),
                out.deep_view() =~= self@.users.subrange(0, i as int),
        {
            out.push(self.users[i].clone());
            proof {
                assert(out.deep_view() =~= self@.users.subrange(0, i + 1));
            }
        }
        proof {
            assert(self@.users.subrange(0, n as int) =~= self@.users);
        }
        out
    }

    /// Inserts a new account and returns the stored row. Fails exactly
    /// when the username is taken or the id space is exhausted; on
    /// failure the store is unchanged.
    #[verifier::loop_isolation(false)]
    pub fn insert_user(&mut self, username: String, password_hash: String) -> (r: Result<
        User,
        StoreError,
    >)
        requires
            old(self).wf(),
        ensures
            final(self).wf(),
            match r {
                Ok(u) => {
                    &&& !has_username(old(self)@, username@)
                    &&& old(self)@.next_user_id < i32::MAX
                    &&& u@.id == old(self)@.next_user_id
                    &&& u@.username == username@
                    &&& u@.password_hash == password_hash@
                    &&& final(self)@.users == old(self)@.users.push(u@)
                    &&& final(self)@.rooms == old(self)@.rooms
                    &&& final(self)@.rooms_users == old(self)@.rooms_users
                    &&& final(self)@.messages == old(self)@.messages
                },
                Err(StoreError::UniqueViolation) => has_username(old(self)@, username@)
                    && final(self)@ == old(self)@,
                Err(StoreError::IdOverflow) => old(self)@.next_user_id == i32::MAX && final(self)@
                    == old(self)@,
                Err(_) => false,
            },
    {
        let ghost pre = self@;
        let n = self.users.len();
        for i in 0..n
            invariant
                n == self.users.len(),
                self@ == pre,
                forall|k: int| 0 <= k < i ==> (#[trigger] self@.users[k]).username != username@,
        {
            if self.users[i].username == username {
                proof {
                    assert(self@.users[i as int].username == username@);
                }
                return Err(StoreError::UniqueViolation);
            }
            proof {
                assert(self@.users[i as int].username != username@);
            }
        }
        if self.next_user_id == i32::MAX {
            return Err(StoreError::IdOverflow);
        }
        let user = User { id: self.next_user_id, username, password_hash };
        let stored = user.clone();
        self.users.push(user);
        self.next_user_id = self.next_user_id + 1;
        proof {
            assert(self@.users =~= pre.users.push(stored@));
            assert(self@.rooms =~= pre.rooms);
            assert(self@.rooms_users =~= pre.rooms_users);
            assert(self@.messages =~= pre.messages);
            lemma_push_user_keeps_wf(pre, self@, stored@);
        }
        Ok(stored)
    }

    /// Removes the user with this id, cascading to their memberships and
    /// their messages, as the schema's foreign keys do.
    #[verifier::loop_isolation(false)]
    #[verifier::rlimit(60)]
    pub fn delete_user(&mut self, id: i32)
        requires
            old(self).wf(),
        ensures
            final(self).wf(),
            final(self)@.users == old(self)@.users.filter(|u: UserV| u.id != id as int),
            final(self)@.rooms == old(self)@.rooms,
            final(self)@.rooms_users == old(self)@.rooms_users.filter(
                |m: RoomUserV| m.user_id != id as int,
            ),
            final(self)@.messages == old(self)@.messages.filter(
                |m: MessageV| m.user_id != id as int,
            ),
    {
        let ghost pre = self@;
        let ghost upred = |u: UserV| u.id != id as int;
        let ghost mpred = |m: RoomUserV| m.user_id != id as int;
        let ghost gpred = |m: MessageV| m.user_id != id as int;

        let n_users = self.users.len();
        let mut users: Vec<User> = Vec::new();
        for i in 0..n_users
            invariant
                n_users == self.users.len(),
                self@ == pre,
                users.deep_view() =~= pre.users.subrange(0, i as int).filter(upred),
        {
            proof {
                reveal(Seq::filter);
                assert(pre.users.subrange(0, i + 1).drop_last() =~= pre.users.subrange(0, i as int));
                assert(pre.users.subrange(0, i + 1).last() == pre.users[i as int]);
            }
            if self.users[i].id != id {
                proof {
                    assert(self@.users[i as int] == self.users@[i as int]@);
                    assert(self@.users[i as int].id != id as int);
                    assert(pre.users[i as int].id != id as int);
                    assert(upred(pre.users[i as int]));
                }
                users.push(self.users[i].clone());
            } else {
                proof {
                    assert(self@.users[i as int] == self.users@[i as int]@);
                    assert(!upred(pre.users[i as int]));
                }
            }
        }
        proof {
            assert(pre.users.subrange(0, n_users as int) =~= pre.users);
        }

        let n_links = self.rooms_users.len();
        let mut links: Vec<RoomUser> = Vec::new();
        for i in 0..n_links
            invariant
                n_links == self.rooms_users.len(),
                self@ == pre,
                links.deep_view() =~= pre.rooms_users.subrange(0, i as int).filter(mpred),
        {
            proof {
                reveal(Seq::filter);
                assert(pre.rooms_users.subrange(0, i + 1).drop_last() =~= pre.rooms_users.subrange(
                    0,
                    i as int,
                ));
                assert(pre.rooms_users.subrange(0, i + 1).last() == pre.rooms_users[i as int]);
            }
            if self.rooms_users[i].user_id != id {
                proof {
                    assert(mpred(pre.rooms_users[i as int]));
                }
                links.push(self.rooms_users[i].clone());
            } else {
                proof {
                    assert(!mpred(pre.rooms_users[i as int]));
                }
            }
        }
        proof {
            assert(pre.rooms_users.subrange(0, n_links as int) =~= pre.rooms_users);
        }

        let n_msgs = self.messages.len();
        let mut msgs: Vec<Message> = Vec::new();
        for i in 0..n_msgs
            invariant
                n_msgs == self.messages.len(),
                self@ == pre,
                msgs.deep_view() =~= pre.messages.subrange(0, i as int).filter(gpred),
        {
            proof {
                reveal(Seq::filter);
                assert(pre.messages.subrange(0, i + 1).drop_last() =~= pre.messages.subrange(
                    0,
                    i as int,
                ));
                assert(pre.messages.subrange(0, i + 1).last() == pre.messages[i as int]);
            }
            if self.messages[i].user_id != id {
                proof {
                    assert(gpred(pre.messages[i as int]));
                }
                msgs.push(self.messages[i].clone());
            } else {
                proof {
                    assert(!gpred(pre.messages[i as int]));
                }
            }
        }
        proof {
            assert(pre.messages.subrange(0, n_msgs as int) =~= pre.messages);
        }

        self.users = users;
        self.rooms_users = links;
        self.messages = msgs;

        proof {
            lemma_filter_keeps_wf(pre, self@, id as int);
        }
    }
}

/// A room row joined with one member's personal label for it: what the
/// room list shows to that member.
#[derive(Debug)]
pub struct PersonalizedRoomData {
    pub id: i32,
    pub name: String,
}

/// Ghost image of [`PersonalizedRoomData`].
pub ghost struct PersonalizedRoomDataV {
    pub id: int,
    pub name: Seq<char>,
}

impl View for PersonalizedRoomData {
    type V = PersonalizedRoomDataV;

    open spec fn view(&self) -> PersonalizedRoomDataV {
        PersonalizedRoomDataV { id: self.id as int, name: self.name@ }
    }
}

impl DeepView for PersonalizedRoomData {
    type V = PersonalizedRoomDataV;

    open spec fn deep_view(&self) -> PersonalizedRoomDataV {
        self.view()
    }
}

/// The name a membership row shows to its user: the personal label when
/// present, else the room's own name.
pub open spec fn display_name(s: StoreV, m: RoomUserV) -> Seq<char> {
    match m.generated_room_name {
        Some(n) => n,
        None => room_with(s, m.room_id).name,
    }
}

/// The room list of one user: their membership rows, each as the room id
/// with the name shown to them.
pub open spec fn rooms_for_user(s: StoreV, uid: int) -> Seq<PersonalizedRoomDataV> {
    s.rooms_users.filter(|m: RoomUserV| m.user_id == uid).map_values(
        |m: RoomUserV| PersonalizedRoomDataV { id: m.room_id, name: display_name(s, m) },
    )
}

/// The members of a room, in account order.
pub open spec fn users_in_room(s: StoreV, rid: int) -> Seq<UserV> {
    s.users.filter(|u: UserV| member_of(s.rooms_users, rid, u.id))
}

/// Every membership in a batch references an existing room and user, and
/// its key collides neither with a stored row nor with an earlier row of
/// the batch.
pub open spec fn links_insertable(s: StoreV, links: Seq<RoomUserV>) -> bool {
    &&& forall|i: int|
        0 <= i < links.len()
            ==> has_room(s, (#[trigger] links[i]).room_id) && has_user(s, links[i].user_id)
    &&& forall|i: int|
        0 <= i < links.len()
            ==> !member_of(s.rooms_users, (#[trigger] links[i]).room_id, links[i].user_id)
    &&& membership_keys_unique(links)
}

impl Store {
    /// Whether a room with this id exists.
    pub fn exists_room_by_id(&self, id: i32) -> (r: bool)
        ensures
            r == has_room(self@, id as int),
    {
        let n = self.rooms.len();
        for i in 0..n
            invariant
                n == self.rooms.len(),
                forall|k: int| 0 <= k < i ==> (#[trigger] self@.rooms[k]).id != id as int,
        {
            if self.rooms[i].id == id {
                proof {
                    assert(self@.rooms[i as int].id == id as int);
                }
                return true;
            }
            proof {
                assert(self@.rooms[i as int].id != id as int);
            }
        }
        false
    }

    /// The room with this id, if any.
    pub fn get_room_by_id(&self, id: i32) -> (r: Option<Room>)
        requires
            self.wf(),
        ensures
            match r {
                Some(room) => has_room(self@, id as int) && room@ == room_with(self@, id as int),
                None => !has_room(self@, id as int),
            },
    {
        let n = self.rooms.len();
        for i in 0..n
            invariant
                self.wf(),
                n == self.rooms.len(),
                forall|k: int| 0 <= k < i ==> (#[trigger] self@.rooms[k]).id != id as int,
        {
            if self.rooms[i].id == id {
                proof {
                    assert(self@.rooms[i as int].id == id as int);
                    let j = room_index(self@, id as int);
                    assert(0 <= j < self@.rooms.len() && self@.rooms[j].id == id as int);
                    assert(j == i as int);
                }
                return Some(self.rooms[i].clone());
            }
            proof {
                assert(self@.rooms[i as int].id != id as int);
            }
        }
        None
    }

    /// Creates a room with this name and returns the stored row. Fails
    /// only when the id space is exhausted.
    pub fn insert_room(&mut self, name: String) -> (r: Result<Room, StoreError>)
        requires
            old(self).wf(),
        ensures
            final(self).wf(),
            match r {
                Ok(room) => {
                    &&& old(self)@.next_room_id < i32::MAX
                    &&& room@.id == old(self)@.next_room_id
                    &&& room@.name == name@
                    &&& final(self)@.rooms == old(self)@.rooms.push(room@)
                    &&& final(self)@.users == old(self)@.users
                    &&& final(self)@.rooms_users == old(self)@.rooms_users
                    &&& final(self)@.messages == old(self)@.messages
                },
                Err(StoreError::IdOverflow) => old(self)@.next_room_id == i32::MAX && final(self)@
                    == old(self)@,
                Err(_) => false,
            },
    {
        let ghost pre = self@;
        if self.next_room_id == i32::MAX {
            return Err(StoreError::IdOverflow);
        }
        let room = Room { id: self.next_room_id, name };
        let stored = room.clone();
        self.rooms.push(room);
        self.next_room_id = self.next_room_id + 1;
        proof {
            assert(self@.rooms =~= pre.rooms.push(stored@));
            assert(self@.users =~= pre.users);
            assert(self@.rooms_users =~= pre.rooms_users);
            assert(self@.messages =~= pre.messages);
            lemma_push_room_keeps_wf(pre, self@, stored@);
        }
        Ok(stored)
    }

    /// Exec mirror of [`member_of`].
    pub fn contains_membership(&self, room_id: i32, user_id: i32) -> (r: bool)
        ensures
            r == member_of(self@.rooms_users, room_id as int, user_id as int),
    {
        let n = self.rooms_users.len();
        for i in 0..n
            invariant
                n == self.rooms_users.len(),
                forall|k: int|
                    0 <= k < i
                        ==> !((#[trigger] self@.rooms_users[k]).room_id == room_id as int
                            && self@.rooms_users[k].user_id == user_id as int),
        {
            if self.rooms_users[i].room_id == room_id && self.rooms_users[i].user_id == user_id {
                proof {
                    assert(self@.rooms_users[i as int].room_id == room_id as int
                        && self@.rooms_users[i as int].user_id == user_id as int);
                }
                return true;
            }
            proof {
                assert(!(self@.rooms_users[i as int].room_id == room_id as int
                    && self@.rooms_users[i as int].user_id == user_id as int));
            }
        }
        false
    }

    /// Inserts a batch of membership rows atomically: all of them when
    /// every row is insertable, none otherwise.
    #[verifier::loop_isolation(false)]
    pub fn insert_rooms_users(&mut self, links: Vec<RoomUser>) -> (r: Result<(), StoreError>)
        requires
            old(self).wf(),
        ensures
            final(self).wf(),
            r is Ok <==> links_insertable(old(self)@, links.deep_view()),
            match r {
                Ok(()) => {
                    &&& final(self)@.rooms_users == old(self)@.rooms_users + links.deep_view()
                    &&& final(self)@.users == old(self)@.users
                    &&& final(self)@.rooms == old(self)@.rooms
                    &&& final(self)@.messages == old(self)@.messages
                },
                Err(e) => {
                    &&& final(self)@ == old(self)@
                    &&& (e == StoreError::ForeignKeyViolation ==> exists|i: int|
                        0 <= i < links.deep_view().len() && (!has_room(
                            old(self)@,
                            (#[trigger] links.deep_view()[i]).room_id,
                        ) || !has_user(old(self)@, links.deep_view()[i].user_id)))
                    &&& (e == StoreError::UniqueViolation ==> (exists|i: int|
                        0 <= i < links.deep_view().len() && member_of(
                            old(self)@.rooms_users,
                            (#[trigger] links.deep_view()[i]).room_id,
                            links.deep_view()[i].user_id,
                        )) || !membership_keys_unique(links.deep_view()))
                    &&& (e == StoreError::UniqueViolation || e == StoreError::ForeignKeyViolation)
                },
            },
    {
        let ghost pre = self@;
        let ghost lv = links.deep_view();
        let n = links.len();
        for i in 0..n
            invariant
                self@ == pre,
                forall|k: int|
                    0 <= k < i
                        ==> has_room(pre, (#[trigger] lv[k]).room_id) && has_user(
                            pre,
                            lv[k].user_id,
                        ) && !member_of(pre.rooms_users, lv[k].room_id, lv[k].user_id),
                forall|k: int, l: int|
                    0 <= k < l < i
                        ==> !((#[trigger] lv[k]).room_id == (#[trigger] lv[l]).room_id
                            && lv[k].user_id == lv[l].user_id),
        {
            proof {
                assert(lv[i as int] == links@[i as int]@);
            }
            if !self.exists_room_by_id(links[i].room_id) {
                return Err(StoreError::ForeignKeyViolation);
            }
            if !self.exists_user_by_id(links[i].user_id) {
                return Err(StoreError::ForeignKeyViolation);
            }
            if self.contains_membership(links[i].room_id, links[i].user_id) {
                return Err(StoreError::UniqueViolation);
            }
            for j in 0..i
                invariant
                    i < n,
                    forall|l: int|
                        0 <= l < j
                            ==> !((#[trigger] lv[l]).room_id == lv[i as int].room_id && lv[l].user_id
                                == lv[i as int].user_id),
            {
                proof {
                    assert(lv[j as int] == links@[j as int]@);
                }
                if links[j].room_id == links[i].room_id && links[j].user_id == links[i].user_id {
                    return Err(StoreError::UniqueViolation);
                }
            }
        }
        let mut batch = links;
        self.rooms_users.append(&mut batch);
        proof {
            assert(self@.rooms_users =~= pre.rooms_users + lv);
            assert(self@.users =~= pre.users);
            assert(self@.rooms =~= pre.rooms);
            assert(self@.messages =~= pre.messages);
            lemma_append_links_keeps_wf(pre, self@, lv);
        }
        Ok(())
    }
}

impl Store {
    /// The members of a room, in account order.
    #[verifier::loop_isolation(false)]
    pub fn get_users_by_room(&self, room_id: i32) -> (r: Vec<User>)
        requires
            self.wf(),
        ensures
            r.deep_view() == users_in_room(self@, room_id as int),
    {
        let ghost pre = self@;
        let ghost pred = |u: UserV| member_of(pre.rooms_users, room_id as int, u.id);
        let n = self.users.len();
        let mut out: Vec<User> = Vec::new();
        for i in 0..n
            invariant
                out.deep_view() =~= pre.users.subrange(0, i as int).filter(pred),
        {
            proof {
                reveal(Seq::filter);
                assert(pre.users.subrange(0, i + 1).drop_last() =~= pre.users.subrange(0, i as int));
                assert(pre.users.subrange(0, i + 1).last() == pre.users[i as int]);
                assert(pre.users[i as int] == self.users@[i as int]@);
            }
            if self.contains_membership(room_id, self.users[i].id) {
                proof {
                    assert(pred(pre.users[i as int]));
                }
                out.push(self.users[i].clone());
            } else {
                proof {
                    assert(!pred(pre.users[i as int]));
                }
            }
        }
        proof {
            assert(pre.users.subrange(0, n as int) =~= pre.users);
        }
        out
    }

    /// One user's room list, with the name shown to them: their personal
    /// label for the room when present, else the room's own name.
    #[verifier::loop_isolation(false)]
    pub fn get_for_user(&self, user_id: i32) -> (r: Vec<PersonalizedRoomData>)
        requires
            self.wf(),
        ensures
            r.deep_view() == rooms_for_user(self@, user_id as int),
    {
        let ghost pre = self@;
        let ghost pred = |m: RoomUserV| m.user_id == user_id as int;
        let ghost mfun = |m: RoomUserV|
            PersonalizedRoomDataV { id: m.room_id, name: display_name(pre, m) };
        let n = self.rooms_users.len();
        let mut out: Vec<PersonalizedRoomData> = Vec::new();
        for i in 0..n
            invariant
                out.deep_view() =~= pre.rooms_users.subrange(0, i as int).filter(pred).map_values(
                    mfun,
                ),
        {
            proof {
                reveal(Seq::filter);
                assert(pre.rooms_users.subrange(0, i + 1).drop_last() =~= pre.rooms_users.subrange(
                    0,
                    i as int,
                ));
                assert(pre.rooms_users.subrange(0, i + 1).last() == pre.rooms_users[i as int]);
                assert(pre.rooms_users[i as int] == self.rooms_users@[i as int]@);
            }
            if self.rooms_users[i].user_id == user_id {
                proof {
                    assert(pred(pre.rooms_users[i as int]));
                }
                let link = &self.rooms_users[i];
                let name: String = match &link.generated_room_name {
                    Some(n) => n.clone(),
                    None => {
                        let room = self.get_room_by_id(link.room_id);
                        match room {
                            Some(room) => room.name,
                            None => {
                                proof {
                                    assert(has_room(pre, pre.rooms_users[i as int].room_id));
                                }
                                // unreachable: every membership references a room
                                String::new()
                            },
                        }
                    },
                };
                let item = PersonalizedRoomData { id: link.room_id, name };
                proof {
                    assert(item@ == mfun(pre.rooms_users[i as int]));
                }
                out.push(item);
                proof {
                    let f0 = pre.rooms_users.subrange(0, i as int).filter(pred);
                    let f1 = pre.rooms_users.subrange(0, i + 1).filter(pred);
                    assert(f1 == f0.push(pre.rooms_users[i as int]));
                    assert forall|k: int| 0 <= k < f1.len() implies f1.map_values(mfun)[k]
                        == out.deep_view()[k] by {
                        if k < f0.len() {
                            assert(f1[k] == f0[k]);
                            assert(f0.map_values(mfun)[k] == mfun(f0[k]));
                        } else {
                            assert(f1[k] == pre.rooms_users[i as int]);
                        }
                    }
                    assert(out.deep_view() =~= f1.map_values(mfun));
                }
            } else {
                proof {
                    assert(!pred(pre.rooms_users[i as int]));
                }
            }
        }
        proof {
            assert(pre.rooms_users.subrange(0, n as int) =~= pre.rooms_users);
        }
        out
    }
}

/// Appending a fresh room keeps every store invariant.
proof fn lemma_push_room_keeps_wf(pre: StoreV, post: StoreV, room: RoomV)
    requires
        store_wf(pre),
        post.rooms == pre.rooms.push(room),
        post.users == pre.users,
        post.rooms_users == pre.rooms_users,
        post.messages == pre.messages,
        post.next_room_id == pre.next_room_id + 1,
        post.next_user_id == pre.next_user_id,
        post.next_message_id == pre.next_message_id,
        room.id == pre.next_room_id,
        pre.next_room_id < i32::MAX,
    ensures
        store_wf(post),
{
    assert forall|i: int| 0 <= i < post.rooms.len() implies 1 <= (#[trigger] post.rooms[i]).id
        < post.next_room_id by {
        if i < pre.rooms.len() {
            assert(post.rooms[i] == pre.rooms[i]);
        } else {
            assert(post.rooms[i] == room);
        }
    }
    assert forall|i: int, j: int| 0 <= i < j < post.rooms.len() implies post.rooms[i].id
        != post.rooms[j].id by {
        if j < pre.rooms.len() {
            assert(post.rooms[i] == pre.rooms[i] && post.rooms[j] == pre.rooms[j]);
        } else {
            assert(post.rooms[i] == pre.rooms[i] && post.rooms[j] == room);
        }
    }
    assert forall|i: int| 0 <= i < post.rooms_users.len() implies has_room(
        post,
        (#[trigger] post.rooms_users[i]).room_id,
    ) && has_user(post, post.rooms_users[i].user_id) by {
        let m = post.rooms_users[i];
        let kr = room_index(pre, m.room_id);
        assert(post.rooms[kr] == pre.rooms[kr]);
    }
    assert forall|i: int| 0 <= i < post.messages.len() implies has_room(
        post,
        (#[trigger] post.messages[i]).room_id,
    ) && has_user(post, post.messages[i].user_id) && member_of(
        post.rooms_users,
        post.messages[i].room_id,
        post.messages[i].user_id,
    ) by {
        let m = post.messages[i];
        let kr = room_index(pre, m.room_id);
        assert(post.rooms[kr] == pre.rooms[kr]);
    }
}

/// Appending an insertable batch of membership rows keeps every store
/// invariant.
proof fn lemma_append_links_keeps_wf(pre: StoreV, post: StoreV, links: Seq<RoomUserV>)
    requires
        store_wf(pre),
        links_insertable(pre, links),
        post.rooms_users == pre.rooms_users + links,
        post.users == pre.users,
        post.rooms == pre.rooms,
        post.messages == pre.messages,
        post.next_user_id == pre.next_user_id,
        post.next_room_id == pre.next_room_id,
        post.next_message_id == pre.next_message_id,
    ensures
        store_wf(post),
{
    let base = pre.rooms_users.len() as int;
    assert forall|i: int, j: int| 0 <= i < j < post.rooms_users.len() implies !(
    post.rooms_users[i].room_id == post.rooms_users[j].room_id && post.rooms_users[i].user_id
        == post.rooms_users[j].user_id) by {
        if j < base {
            assert(post.rooms_users[i] == pre.rooms_users[i]);
            assert(post.rooms_users[j] == pre.rooms_users[j]);
        } else if i < base {
            assert(post.rooms_users[i] == pre.rooms_users[i]);
            assert(post.rooms_users[j] == links[j - base]);
            assert(!member_of(pre.rooms_users, links[j - base].room_id, links[j - base].user_id));
        } else {
            assert(post.rooms_users[i] == links[i - base]);
            assert(post.rooms_users[j] == links[j - base]);
        }
    }
    assert forall|i: int| 0 <= i < post.rooms_users.len() implies has_room(
        post,
        (#[trigger] post.rooms_users[i]).room_id,
    ) && has_user(post, post.rooms_users[i].user_id) by {
        let m = post.rooms_users[i];
        if i < base {
            assert(m == pre.rooms_users[i]);
        } else {
            assert(m == links[i - base]);
        }
        assert(has_room(pre, m.room_id) && has_user(pre, m.user_id));
        let kr = room_index(pre, m.room_id);
        assert(post.rooms[kr].id == m.room_id);
        let ku = user_index(pre, m.user_id);
        assert(post.users[ku].id == m.user_id);
    }
    assert forall|i: int| 0 <= i < post.messages.len() implies has_room(
        post,
        (#[trigger] post.messages[i]).room_id,
    ) && has_user(post, post.messages[i].user_id) && member_of(
        post.rooms_users,
        post.messages[i].room_id,
        post.messages[i].user_id,
    ) by {
        let m = post.messages[i];
        let k = choose|k: int|
            0 <= k < pre.rooms_users.len() && pre.rooms_users[k].room_id == m.room_id
                && pre.rooms_users[k].user_id == m.user_id;
        assert(post.rooms_users[k] == pre.rooms_users[k]);
    }
}

/// A room's messages, newest first: the stored time order reversed.
pub open spec fn room_messages_desc(s: StoreV, rid: int) -> Seq<MessageV> {
    s.messages.filter(|m: MessageV| m.room_id == rid).reverse()
}

/// The `page`-th window of `size` rows, clipped to the sequence.
pub open spec fn page_slice<A>(s: Seq<A>, page: int, size: int) -> Seq<A> {
    let start = if page * size <= s.len() {
        page * size
    } else {
        s.len() as int
    };
    let end = if page * size + size <= s.len() {
        page * size + size
    } else {
        s.len() as int
    };
    s.subrange(start, end)
}

/// One message after a bulk read-marking: `read` becomes true when the
/// message's uuid is listed, and is never cleared.
pub open spec fn mark_one_read(m: MessageV, uuids: Seq<u128>) -> MessageV {
    MessageV {
        id: m.id,
        uuid: m.uuid,
        room_id: m.room_id,
        user_id: m.user_id,
        content: m.content,
        created_at: m.created_at,
        read: m.read || uuids.contains(m.uuid),
    }
}

/// The whole store after a bulk read-marking.
pub open spec fn mark_read_v(s: StoreV, uuids: Seq<u128>) -> StoreV {
    StoreV {
        users: s.users,
        rooms: s.rooms,
        rooms_users: s.rooms_users,
        messages: s.messages.map_values(|m: MessageV| mark_one_read(m, uuids)),
        next_user_id: s.next_user_id,
        next_room_id: s.next_room_id,
        next_message_id: s.next_message_id,
    }
}

/// The view of a message insert's result.
pub open spec fn message_result_view(r: Result<Message, StoreError>) -> Result<
    MessageV,
    StoreError,
> {
    match r {
        Ok(m) => Ok(m@),
        Err(e) => Err(e),
    }
}

/// The contract of a message insert: success exactly on insertable
/// input, the row placed at its time-ordered position with the next
/// surrogate id, and on failure an unchanged store with the error
/// naming the violated constraint.
pub open spec fn insert_message_result(
    pre: StoreV,
    post: StoreV,
    uuid: u128,
    room_id: int,
    user_id: int,
    content: Seq<char>,
    created_at: i64,
    r: Result<MessageV, StoreError>,
) -> bool {
    &&& (r is Ok <==> message_insertable(pre, uuid, room_id, user_id))
    &&& match r {
        Ok(m) => {
            &&& m == (MessageV {
                id: pre.next_message_id,
                uuid,
                room_id,
                user_id,
                content,
                created_at,
                read: false,
            })
            &&& exists|p: int|
                0 <= p <= pre.messages.len() && post.messages == pre.messages.insert(p, m)
            &&& has_message_uuid(post, uuid)
            &&& message_with(post, uuid) == m
            &&& post.users == pre.users
            &&& post.rooms == pre.rooms
            &&& post.rooms_users == pre.rooms_users
            &&& post.next_message_id == pre.next_message_id + 1
        },
        Err(e) => {
            &&& post == pre
            &&& (e == StoreError::UniqueViolation <==> has_message_uuid(pre, uuid))
            &&& (e == StoreError::ForeignKeyViolation ==> !has_room(pre, room_id) || !has_user(
                pre,
                user_id,
            ))
            &&& (e == StoreError::SenderNotMember ==> !member_of(
                pre.rooms_users,
                room_id,
                user_id,
            ))
            &&& (e == StoreError::IdOverflow ==> pre.next_message_id == i32::MAX)
        },
    }
}

/// When a message insert succeeds: fresh uuid, existing room and sender,
/// the sender belongs to the room, and the id space is not exhausted.
pub open spec fn message_insertable(s: StoreV, uuid: u128, room_id: int, user_id: int) -> bool {
    &&& !has_message_uuid(s, uuid)
    &&& has_room(s, room_id)
    &&& has_user(s, user_id)
    &&& member_of(s.rooms_users, room_id, user_id)
    &&& s.next_message_id < i32::MAX
}

/// Exec mirror of `Seq::contains` for a uuid list.
fn contains_uuid(uuids: &Vec<u128>, x: u128) -> (r: bool)
    ensures
        r == uuids@.contains(x),
{
    let n = uuids.len();
    for i in 0..n
        invariant
            n == uuids.len(),
            forall|k: int| 0 <= k < i ==> uuids@[k] != x,
    {
        if uuids[i] == x {
            return true;
        }
    }
    false
}

impl Store {
    /// Persists a message. Succeeds exactly when the uuid is fresh, the
    /// room and sender exist, the sender belongs to the room and the id
    /// space is not exhausted; on failure the store is unchanged.
    #[verifier::loop_isolation(false)]
    #[verifier::rlimit(100)]
    pub fn insert_message(
        &mut self,
        uuid: u128,
        room_id: i32,
        user_id: i32,
        content: String,
        created_at: i64,
    ) -> (r: Result<Message, StoreError>)
        requires
            old(self).wf(),
        ensures
            final(self).wf(),
            insert_message_result(
                old(self)@,
                final(self)@,
                uuid,
                room_id as int,
                user_id as int,
                content@,
                created_at,
                message_result_view(r),
            ),
    {
        let ghost pre = self@;
        let n = self.messages.len();
        for i in 0..n
            invariant
                self@ == pre,
                forall|k: int| 0 <= k < i ==> (#[trigger] pre.messages[k]).uuid != uuid,
        {
            if self.messages[i].uuid == uuid {
                proof {
                    assert(pre.messages[i as int].uuid == uuid);
                }
                return Err(StoreError::UniqueViolation);
            }
            proof {
                assert(pre.messages[i as int].uuid != uuid);
            }
        }
        if !self.exists_room_by_id(room_id) {
            return Err(StoreError::ForeignKeyViolation);
        }
        if !self.exists_user_by_id(user_id) {
            return Err(StoreError::ForeignKeyViolation);
        }
        if !self.contains_membership(room_id, user_id) {
            return Err(StoreError::SenderNotMember);
        }
        if self.next_message_id == i32::MAX {
            return Err(StoreError::IdOverflow);
        }
        Ok(self.insert_message_sorted(uuid, room_id, user_id, content, created_at))
    }

    /// Places an insertable message at its time-ordered position and
    /// returns the stored row.
    #[verifier::loop_isolation(false)]
    #[verifier::rlimit(100)]
    fn insert_message_sorted(
        &mut self,
        uuid: u128,
        room_id: i32,
        user_id: i32,
        content: String,
        created_at: i64,
    ) -> (m: Message)
        requires
            old(self).wf(),
            message_insertable(old(self)@, uuid, room_id as int, user_id as int),
        ensures
            final(self).wf(),
            m@ == (MessageV {
                id: old(self)@.next_message_id,
                uuid,
                room_id: room_id as int,
                user_id: user_id as int,
                content: content@,
                created_at,
                read: false,
            }),
            exists|p: int|
                0 <= p <= old(self)@.messages.len() && final(self)@.messages == old(
                    self,
                )@.messages.insert(p, m@),
            has_message_uuid(final(self)@, uuid),
            message_with(final(self)@, uuid) == m@,
            final(self)@.users == old(self)@.users,
            final(self)@.rooms == old(self)@.rooms,
            final(self)@.rooms_users == old(self)@.rooms_users,
            final(self)@.next_message_id == old(self)@.next_message_id + 1,
    {
        let ghost pre = self@;
        let mut pos: usize = 0;
        while pos < self.messages.len() && self.messages[pos].created_at <= created_at
            invariant
                pos <= pre.messages.len(),
                forall|k: int| 0 <= k < pos ==> (#[trigger] pre.messages[k]).created_at <= created_at,
            decreases pre.messages.len() - pos,
        {
            proof {
                assert(pre.messages[pos as int].created_at <= created_at);
            }
            pos = pos + 1;
        }
        proof {
            if pos < self.messages.len() {
                assert(pre.messages[pos as int].created_at > created_at);
            }
        }

        let message = Message {
            id: self.next_message_id,
            uuid,
            room_id,
            user_id,
            content,
            created_at,
            read: false,
        };
        let stored = message.clone();
        self.messages.insert(pos, message);
        self.next_message_id = self.next_message_id + 1;
        proof {
            pre.messages.insert_ensures(pos as int, stored@);
            assert(self@.messages =~= pre.messages.insert(pos as int, stored@)) by {
                assert forall|k: int| 0 <= k < self@.messages.len() implies self@.messages[k]
                    == pre.messages.insert(pos as int, stored@)[k] by {
                    if k < pos as int {
                    } else if k == pos as int {
                    } else {
                        assert(self.messages@[k] == old(self).messages@[k - 1]);
                    }
                }
            }
            assert(self@.users =~= pre.users);
            assert(self@.rooms =~= pre.rooms);
            assert(self@.rooms_users =~= pre.rooms_users);
            lemma_insert_message_keeps_wf(pre, self@, stored@, pos as int);
            assert(self@.messages[pos as int].uuid == uuid);
            let j = message_index(self@, uuid);
            assert(0 <= j < self@.messages.len() && self@.messages[j].uuid == uuid);
            assert(j == pos as int);
            assert(exists|p: int|
                0 <= p <= pre.messages.len() && self@.messages == pre.messages.insert(p, stored@));
            assert(has_message_uuid(self@, uuid));
            assert(message_with(self@, uuid) == stored@);
        }
        stored
    }

    /// The message with this uuid, if any.
    pub fn get_message_by_uuid(&self, uuid: u128) -> (r: Option<Message>)
        requires
            self.wf(),
        ensures
            match r {
                Some(m) => has_message_uuid(self@, uuid) && m@ == message_with(self@, uuid),
                None => !has_message_uuid(self@, uuid),
            },
    {
        let n = self.messages.len();
        for i in 0..n
            invariant
                self.wf(),
                n == self.messages.len(),
                forall|k: int| 0 <= k < i ==> (#[trigger] self@.messages[k]).uuid != uuid,
        {
            if self.messages[i].uuid == uuid {
                proof {
                    assert(self@.messages[i as int].uuid == uuid);
                    let j = message_index(self@, uuid);
                    assert(0 <= j < self@.messages.len() && self@.messages[j].uuid == uuid);
                    assert(j == i as int);
                }
                return Some(self.messages[i].clone());
            }
            proof {
                assert(self@.messages[i as int].uuid != uuid);
            }
        }
        None
    }

    /// One page of a room's history, newest first.
    #[verifier::loop_isolation(false)]
    pub fn get_messages_by_room(&self, room_id: i32, pagination: Pagination) -> (r: Vec<Message>)
        requires
            self.wf(),
        ensures
            r.deep_view() == page_slice(
                room_messages_desc(self@, room_id as int),
                pagination.page as int,
                pagination.page_size as int,
            ),
    {
        let ghost pre = self@;
        let ghost pred = |m: MessageV| m.room_id == room_id as int;
        let n = self.messages.len();
        let mut asc: Vec<Message> = Vec::new();
        for i in 0..n
            invariant
                asc.deep_view() =~= pre.messages.subrange(0, i as int).filter(pred),
        {
            proof {
                reveal(Seq::filter);
                assert(pre.messages.subrange(0, i + 1).drop_last() =~= pre.messages.subrange(
                    0,
                    i as int,
                ));
                assert(pre.messages.subrange(0, i + 1).last() == pre.messages[i as int]);
                assert(pre.messages[i as int] == self.messages@[i as int]@);
            }
            if self.messages[i].room_id == room_id {
                proof {
                    assert(pred(pre.messages[i as int]));
                }
                asc.push(self.messages[i].clone());
            } else {
                proof {
                    assert(!pred(pre.messages[i as int]));
                }
            }
        }
        proof {
            assert(pre.messages.subrange(0, n as int) =~= pre.messages);
        }
        let ghost f = pre.messages.filter(pred);
        let ghost desc = room_messages_desc(pre, room_id as int);

        let len = asc.len();
        let start: usize = match pagination.page.checked_mul(pagination.page_size) {
            Some(s) => {
                if s >= len as u64 {
                    len
                } else {
                    s as usize
                }
            },
            None => len,
        };
        let remaining = len - start;
        let end: usize = if pagination.page_size >= remaining as u64 {
            len
        } else {
            start + pagination.page_size as usize
        };

        let ghost gstart = start as int;
        let ghost gend = end as int;
        proof {
            assert(desc.len() == f.len());
            assert(gstart == if pagination.page as int * pagination.page_size as int <= desc.len() {
                pagination.page as int * pagination.page_size as int
            } else {
                desc.len() as int
            });
            assert(gend == if pagination.page as int * pagination.page_size as int
                + pagination.page_size as int <= desc.len() {
                pagination.page as int * pagination.page_size as int + pagination.page_size as int
            } else {
                desc.len() as int
            });
        }

        let mut out: Vec<Message> = Vec::new();
        let mut j = start;
        while j < end
            invariant
                start <= j <= end <= len,
                out.deep_view() =~= desc.subrange(gstart, j as int),
            decreases end - j,
        {
            let idx = len - 1 - j;
            out.push(asc[idx].clone());
            proof {
                assert(asc.deep_view()[idx as int] == asc@[idx as int]@);
                assert(desc[j as int] == f[f.len() - 1 - j as int]);
                assert(out.deep_view() =~= desc.subrange(gstart, j + 1));
            }
            j = j + 1;
        }
        out
    }

    /// Sets `read` on every message whose uuid is listed; one bulk
    /// update, idempotent over repeated uuids.
    #[verifier::loop_isolation(false)]
    pub fn mark_messages_read(&mut self, message_uuids: &Vec<u128>)
        requires
            old(self).wf(),
        ensures
            final(self).wf(),
            final(self)@ == mark_read_v(old(self)@, message_uuids@),
    {
        let ghost pre = self@;
        let ghost f = |m: MessageV| mark_one_read(m, message_uuids@);
        let n = self.messages.len();
        let mut updated: Vec<Message> = Vec::new();
        for i in 0..n
            invariant
                self@ == pre,
                updated.deep_view() =~= pre.messages.subrange(0, i as int).map_values(f),
        {
            proof {
                assert(pre.messages[i as int] == self.messages@[i as int]@);
            }
            let m = &self.messages[i];
            let read = m.read || contains_uuid(message_uuids, m.uuid);
            let row = Message {
                id: m.id,
                uuid: m.uuid,
                room_id: m.room_id,
                user_id: m.user_id,
                content: m.content.clone(),
                created_at: m.created_at,
                read,
            };
            proof {
                assert(row@ == f(pre.messages[i as int]));
            }
            updated.push(row);
            proof {
                let s0 = pre.messages.subrange(0, i as int);
                let s1 = pre.messages.subrange(0, i + 1);
                assert(s1.drop_last() =~= s0);
                assert forall|k: int| 0 <= k < s1.len() implies s1.map_values(f)[k]
                    == updated.deep_view()[k] by {
                    if k < s0.len() {
                        assert(s1[k] == s0[k]);
                        assert(s0.map_values(f)[k] == f(s0[k]));
                    } else {
                        assert(s1[k] == pre.messages[i as int]);
                    }
                }
                assert(updated.deep_view() =~= s1.map_values(f));
            }
        }
        proof {
            assert(pre.messages.subrange(0, n as int) =~= pre.messages);
        }
        self.messages = updated;
        proof {
            assert(self@ =~= mark_read_v(pre, message_uuids@));
            lemma_mark_read_keeps_wf(pre, message_uuids@);
        }
    }
}

/// Inserting a fresh message at its time-ordered position keeps every
/// store invariant.
proof fn lemma_insert_message_keeps_wf(pre: StoreV, post: StoreV, m: MessageV, p: int)
    requires
        store_wf(pre),
        0 <= p <= pre.messages.len(),
        forall|k: int| 0 <= k < p ==> (#[trigger] pre.messages[k]).created_at <= m.created_at,
        forall|k: int|
            p <= k < pre.messages.len() ==> (#[trigger] pre.messages[k]).created_at > m.created_at,
        m.id == pre.next_message_id,
        pre.next_message_id < i32::MAX,
        !has_message_uuid(pre, m.uuid),
        has_room(pre, m.room_id),
        has_user(pre, m.user_id),
        member_of(pre.rooms_users, m.room_id, m.user_id),
        post.messages == pre.messages.insert(p, m),
        post.users == pre.users,
        post.rooms == pre.rooms,
        post.rooms_users == pre.rooms_users,
        post.next_message_id == pre.next_message_id + 1,
        post.next_user_id == pre.next_user_id,
        post.next_room_id == pre.next_room_id,
    ensures
        store_wf(post),
{
    pre.messages.insert_ensures(p, m);
    let shift = |k: int|
        if k < p {
            k
        } else {
            k - 1
        };
    assert forall|k: int| 0 <= k < post.messages.len() implies (#[trigger] post.messages[k]) == (
    if k < p {
        pre.messages[k]
    } else if k == p {
        m
    } else {
        pre.messages[k - 1]
    }) by {
        if k > p {
            assert(post.messages[(k - 1) + 1] == pre.messages[k - 1]);
        }
    }
    assert forall|i: int| 0 <= i < post.messages.len() implies 1 <= (#[trigger] post.messages[i]).id
        < post.next_message_id by {}
    assert forall|i: int, j: int| 0 <= i < j < post.messages.len() implies post.messages[i].id
        != post.messages[j].id by {}
    assert forall|i: int, j: int| 0 <= i < j < post.messages.len() implies post.messages[i].uuid
        != post.messages[j].uuid by {}
    assert forall|i: int| 0 <= i < post.messages.len() implies has_room(
        post,
        (#[trigger] post.messages[i]).room_id,
    ) && has_user(post, post.messages[i].user_id) && member_of(
        post.rooms_users,
        post.messages[i].room_id,
        post.messages[i].user_id,
    ) by {
        let x = post.messages[i];
        assert(has_room(pre, x.room_id) && has_user(pre, x.user_id) && member_of(
            pre.rooms_users,
            x.room_id,
            x.user_id,
        ));
        let kr = room_index(pre, x.room_id);
        assert(post.rooms[kr].id == x.room_id);
        let ku = user_index(pre, x.user_id);
        assert(post.users[ku].id == x.user_id);
    }
    assert forall|i: int, j: int| 0 <= i < j < post.messages.len() implies post.messages[i].created_at
        <= post.messages[j].created_at && (post.messages[i].created_at
        == post.messages[j].created_at ==> post.messages[i].id < post.messages[j].id) by {}
    assert forall|i: int| 0 <= i < post.rooms_users.len() implies has_room(
        post,
        (#[trigger] post.rooms_users[i]).room_id,
    ) && has_user(post, post.rooms_users[i].user_id) by {
        let x = post.rooms_users[i];
        let kr = room_index(pre, x.room_id);
        assert(post.rooms[kr].id == x.room_id);
        let ku = user_index(pre, x.user_id);
        assert(post.users[ku].id == x.user_id);
    }
}

/// A bulk read-marking keeps every store invariant: only `read` changes.
proof fn lemma_mark_read_keeps_wf(pre: StoreV, uuids: Seq<u128>)
    requires
        store_wf(pre),
    ensures
        store_wf(mark_read_v(pre, uuids)),
{
    let post = mark_read_v(pre, uuids);
    assert forall|i: int| 0 <= i < post.messages.len() implies (#[trigger] post.messages[i])
        == mark_one_read(pre.messages[i], uuids) by {}
    assert forall|i: int| 0 <= i < post.messages.len() implies 1 <= (#[trigger] post.messages[i]).id
        < post.next_message_id by {}
    assert forall|i: int| 0 <= i < post.messages.len() implies has_room(
        post,
        (#[trigger] post.messages[i]).room_id,
    ) && has_user(post, post.messages[i].user_id) && member_of(
        post.rooms_users,
        post.messages[i].room_id,
        post.messages[i].user_id,
    ) by {
        let x = post.messages[i];
        assert(x.room_id == pre.messages[i].room_id && x.user_id == pre.messages[i].user_id);
        let kr = room_index(pre, x.room_id);
        assert(post.rooms[kr].id == x.room_id);
        let ku = user_index(pre, x.user_id);
        assert(post.users[ku].id == x.user_id);
    }
    assert forall|i: int| 0 <= i < post.rooms_users.len() implies has_room(
        post,
        (#[trigger] post.rooms_users[i]).room_id,
    ) && has_user(post, post.rooms_users[i].user_id) by {
        let x = post.rooms_users[i];
        let kr = room_index(pre, x.room_id);
        assert(post.rooms[kr].id == x.room_id);
        let ku = user_index(pre, x.user_id);
        assert(post.users[ku].id == x.user_id);
    }
}

/// Appending a fresh account (new id, unseen username) keeps every store
/// invariant.
proof fn lemma_push_user_keeps_wf(pre: StoreV, post: StoreV, u: UserV)
    requires
        store_wf(pre),
        post.users == pre.users.push(u),
        post.rooms == pre.rooms,
        post.rooms_users == pre.rooms_users,
        post.messages == pre.messages,
        post.next_user_id == pre.next_user_id + 1,
        post.next_room_id == pre.next_room_id,
        post.next_message_id == pre.next_message_id,
        u.id == pre.next_user_id,
        pre.next_user_id < i32::MAX,
        !has_username(pre, u.username),
    ensures
        store_wf(post),
{
    assert forall|i: int| 0 <= i < post.users.len() implies 1 <= (#[trigger] post.users[i]).id
        < post.next_user_id by {
        if i < pre.users.len() {
            assert(post.users[i] == pre.users[i]);
        } else {
            assert(post.users[i] == u);
        }
    }
    assert forall|i: int, j: int| 0 <= i < j < post.users.len() implies post.users[i].id
        != post.users[j].id by {
        if j < pre.users.len() {
            assert(post.users[i] == pre.users[i] && post.users[j] == pre.users[j]);
        } else {
            assert(post.users[i] == pre.users[i] && post.users[j] == u);
        }
    }
    assert forall|i: int, j: int| 0 <= i < j < post.users.len() implies post.users[i].username
        != post.users[j].username by {
        if j < pre.users.len() {
            assert(post.users[i] == pre.users[i] && post.users[j] == pre.users[j]);
        } else {
            assert(post.users[i] == pre.users[i] && post.users[j] == u);
        }
    }
    assert forall|i: int| 0 <= i < post.rooms_users.len() implies has_room(
        post,
        (#[trigger] post.rooms_users[i]).room_id,
    ) && has_user(post, post.rooms_users[i].user_id) by {
        let m = post.rooms_users[i];
        let kr = room_index(pre, m.room_id);
        assert(post.rooms[kr].id == m.room_id);
        let ku = user_index(pre, m.user_id);
        assert(post.users[ku] == pre.users[ku]);
    }
    assert forall|i: int| 0 <= i < post.messages.len() implies has_room(
        post,
        (#[trigger] post.messages[i]).room_id,
    ) && has_user(post, post.messages[i].user_id) && member_of(
        post.rooms_users,
        post.messages[i].room_id,
        post.messages[i].user_id,
    ) by {
        let m = post.messages[i];
        let kr = room_index(pre, m.room_id);
        assert(post.rooms[kr].id == m.room_id);
        let ku = user_index(pre, m.user_id);
        assert(post.users[ku] == pre.users[ku]);
    }
}

/// Removing a user together with their memberships and messages keeps
/// every store invariant: surviving rows never referenced the removed
/// user, and every filtered sequence embeds into the original.
proof fn lemma_filter_keeps_wf(pre: StoreV, post: StoreV, id: int)
    requires
        store_wf(pre),
        post.users == pre.users.filter(|u: UserV| u.id != id),
        post.rooms == pre.rooms,
        post.rooms_users == pre.rooms_users.filter(|m: RoomUserV| m.user_id != id),
        post.messages == pre.messages.filter(|m: MessageV| m.user_id != id),
        post.next_user_id == pre.next_user_id,
        post.next_room_id == pre.next_room_id,
        post.next_message_id == pre.next_message_id,
    ensures
        store_wf(post),
{
    let upred = |u: UserV| u.id != id;
    let mpred = |m: RoomUserV| m.user_id != id;
    let gpred = |m: MessageV| m.user_id != id;
    lemma_filter_is_subset(pre.users, upred);
    lemma_filter_is_subset(pre.rooms_users, mpred);
    lemma_filter_is_subset(pre.messages, gpred);
    assert forall|i: int| 0 <= i < post.users.len() implies 1 <= (#[trigger] post.users[i]).id
        < post.next_user_id by {
        assert(pre.users.contains(post.users[i]));
    }
    assert forall|i: int, j: int| 0 <= i < j < post.users.len() implies post.users[i].id
        != post.users[j].id by {
        lemma_filter_two_indexes(pre.users, upred, i, j);
    }
    assert forall|i: int, j: int| 0 <= i < j < post.users.len() implies post.users[i].username
        != post.users[j].username by {
        lemma_filter_two_indexes(pre.users, upred, i, j);
    }
    assert forall|i: int, j: int| 0 <= i < j < post.rooms_users.len() implies !(
    post.rooms_users[i].room_id == post.rooms_users[j].room_id && post.rooms_users[i].user_id
        == post.rooms_users[j].user_id) by {
        lemma_filter_two_indexes(pre.rooms_users, mpred, i, j);
    }
    assert forall|i: int| 0 <= i < post.rooms_users.len() implies has_room(
        post,
        (#[trigger] post.rooms_users[i]).room_id,
    ) && has_user(post, post.rooms_users[i].user_id) by {
        assert(pre.rooms_users.contains(post.rooms_users[i]));
        let m = post.rooms_users[i];
        let k = choose|k: int| 0 <= k < pre.rooms.len() && pre.rooms[k].id == m.room_id;
        assert(post.rooms[k].id == m.room_id);
        let ku = choose|k: int| 0 <= k < pre.users.len() && pre.users[k].id == m.user_id;
        assert(upred(pre.users[ku]));
        lemma_filter_keeps_element(pre.users, upred, ku);
    }
    assert forall|i: int, j: int| 0 <= i < j < post.messages.len() implies post.messages[i].id
        != post.messages[j].id by {
        lemma_filter_two_indexes(pre.messages, gpred, i, j);
    }
    assert forall|i: int, j: int| 0 <= i < j < post.messages.len() implies post.messages[i].uuid
        != post.messages[j].uuid by {
        lemma_filter_two_indexes(pre.messages, gpred, i, j);
    }
    assert forall|i: int| 0 <= i < post.messages.len() implies 1 <= (
    #[trigger] post.messages[i]).id < post.next_message_id by {
        assert(pre.messages.contains(post.messages[i]));
    }
    assert forall|i: int| 0 <= i < post.messages.len() implies has_room(
        post,
        (#[trigger] post.messages[i]).room_id,
    ) && has_user(post, post.messages[i].user_id) && member_of(
        post.rooms_users,
        post.messages[i].room_id,
        post.messages[i].user_id,
    ) by {
        assert(pre.messages.contains(post.messages[i]));
        let m = post.messages[i];
        let k = choose|k: int| 0 <= k < pre.rooms.len() && pre.rooms[k].id == m.room_id;
        assert(post.rooms[k].id == m.room_id);
        let ku = choose|k: int| 0 <= k < pre.users.len() && pre.users[k].id == m.user_id;
        assert(upred(pre.users[ku]));
        lemma_filter_keeps_element(pre.users, upred, ku);
        let km = choose|k: int|
            0 <= k < pre.rooms_users.len() && pre.rooms_users[k].room_id == m.room_id
                && pre.rooms_users[k].user_id == m.user_id;
        assert(mpred(pre.rooms_users[km]));
        lemma_filter_keeps_element(pre.rooms_users, mpred, km);
    }
    assert forall|i: int, j: int| 0 <= i < j < post.messages.len() implies post.messages[i].created_at
        <= post.messages[j].created_at && (post.messages[i].created_at
        == post.messages[j].created_at ==> post.messages[i].id < post.messages[j].id) by {
        lemma_filter_two_indexes(pre.messages, gpred, i, j);
    }
}

/// Law: every persisted message's sender is a member of the message's
/// room.
pub proof fn lemma_message_sender_is_member(s: StoreV, i: int)
    requires
        store_wf(s),
        0 <= i < s.messages.len(),
    ensures
        member_of(s.rooms_users, s.messages[i].room_id, s.messages[i].user_id),
{
}

/// Law: no two persisted messages share a uuid.
pub proof fn lemma_message_uuids_distinct(s: StoreV, i: int, j: int)
    requires
        store_wf(s),
        0 <= i < s.messages.len(),
        0 <= j < s.messages.len(),
        i != j,
    ensures
        s.messages[i].uuid != s.messages[j].uuid,
{
}

/// Law: the read flag is monotonic under bulk read-marking — once true,
/// it stays true, and no other field moves.
pub proof fn lemma_mark_read_monotonic(s: StoreV, uuids: Seq<u128>, i: int)
    requires
        0 <= i < s.messages.len(),
    ensures
        mark_read_v(s, uuids).messages[i].read == (s.messages[i].read || uuids.contains(
            s.messages[i].uuid,
        )),
        s.messages[i].read ==> mark_read_v(s, uuids).messages[i].read,
        mark_read_v(s, uuids).messages[i].uuid == s.messages[i].uuid,
{
}

/// Law: a bulk read-marking depends only on the set of listed uuids, so
/// repeating a uuid changes nothing.
pub proof fn lemma_mark_read_set_semantics(s: StoreV, u1: Seq<u128>, u2: Seq<u128>)
    requires
        u1.to_set() == u2.to_set(),
    ensures
        mark_read_v(s, u1) == mark_read_v(s, u2),
{
    assert forall|i: int| 0 <= i < s.messages.len() implies mark_read_v(s, u1).messages[i]
        == mark_read_v(s, u2).messages[i] by {
        let x = s.messages[i].uuid;
        assert(u1.to_set().contains(x) == u1.contains(x));
        assert(u2.to_set().contains(x) == u2.contains(x));
    }
    assert(mark_read_v(s, u1).messages =~= mark_read_v(s, u2).messages);
    assert(mark_read_v(s, u1) =~= mark_read_v(s, u2));
}

/// Law: a room's history is ordered newest first — at any two
/// positions of it, the earlier position carries the later timestamp.
pub proof fn lemma_history_newest_first(s: StoreV, rid: int, i: int, j: int)
    requires
        store_wf(s),
        0 <= i < j < room_messages_desc(s, rid).len(),
    ensures
        room_messages_desc(s, rid)[i].created_at >= room_messages_desc(s, rid)[j].created_at,
{
    let pred = |m: MessageV| m.room_id == rid;
    let f = s.messages.filter(pred);
    let n = f.len();
    assert(room_messages_desc(s, rid)[i] == f[n - 1 - i]);
    assert(room_messages_desc(s, rid)[j] == f[n - 1 - j]);
    lemma_filter_two_indexes(s.messages, pred, n - 1 - j, n - 1 - i);
    let (a, b) = choose|a: int, b: int|
        0 <= a < b < s.messages.len() && s.messages[a] == f[n - 1 - j] && s.messages[b] == f[n - 1
            - i];
    assert(s.messages[a].created_at <= s.messages[b].created_at);
}

/// Law: every member of a room appears in the room's member list, so a
/// fan-out over that list reaches every member with an account.
pub proof fn lemma_room_member_listed(s: StoreV, rid: int, uid: int)
    requires
        store_wf(s),
        member_of(s.rooms_users, rid, uid),
    ensures
        exists|j: int|
            0 <= j < users_in_room(s, rid).len() && (#[trigger] users_in_room(s, rid)[j]).id
                == uid,
{
    let k = choose|k: int|
        0 <= k < s.rooms_users.len() && s.rooms_users[k].room_id == rid && s.rooms_users[k].user_id
            == uid;
    assert(has_user(s, uid));
    let ui = user_index(s, uid);
    let pred = |u: UserV| member_of(s.rooms_users, rid, u.id);
    assert(pred(s.users[ui]));
    lemma_filter_keeps_element(s.users, pred, ui);
    let f = s.users.filter(pred);
    assert(users_in_room(s, rid) == f);
    let j = choose|j: int| 0 <= j < f.len() && f[j] == s.users[ui];
    assert(users_in_room(s, rid)[j].id == uid);
}

/// Law: sending a uuid that is already persisted is refused — a resend
/// is not idempotent, it fails with a storage error.
pub proof fn lemma_resend_rejected(s: StoreV, uuid: u128, room_id: int, user_id: int)
    requires
        has_message_uuid(s, uuid),
    ensures
        !message_insertable(s, uuid, room_id, user_id),
{
}

/// Every element of a filtered sequence occurs in the original.
proof fn lemma_filter_is_subset<A>(s: Seq<A>, pred: spec_fn(A) -> bool)
    ensures
        forall|i: int|
            0 <= i < s.filter(pred).len() ==> s.contains(#[trigger] s.filter(pred)[i]),
    decreases s.len(),
{
    reveal(Seq::filter);
    if s.len() > 0 {
        lemma_filter_is_subset(s.drop_last(), pred);
        assert forall|i: int| 0 <= i < s.filter(pred).len() implies s.contains(
            #[trigger] s.filter(pred)[i],
        ) by {
            if i < s.drop_last().filter(pred).len() {
                assert(s.drop_last().contains(s.drop_last().filter(pred)[i]));
                let k = choose|k: int|
                    0 <= k < s.drop_last().len() && s.drop_last()[k] == s.drop_last().filter(
                        pred,
                    )[i];
                assert(s[k] == s.filter(pred)[i]);
            } else {
                assert(s.filter(pred)[i] == s.last());
                assert(s[s.len() - 1] == s.last());
            }
        }
    }
}

/// Filtering keeps an element that satisfies the predicate.
pub(crate) proof fn lemma_filter_keeps_element<A>(s: Seq<A>, pred: spec_fn(A) -> bool, k: int)
    requires
        0 <= k < s.len(),
        pred(s[k]),
    ensures
        s.filter(pred).contains(s[k]),
    decreases s.len(),
{
    reveal(Seq::filter);
    if s.len() > 0 {
        if k == s.len() - 1 {
            assert(s.filter(pred).last() == s.last());
        } else {
            lemma_filter_keeps_element(s.drop_last(), pred, k);
            let j = choose|j: int|
                0 <= j < s.drop_last().filter(pred).len() && s.drop_last().filter(pred)[j] == s[k];
            assert(s.filter(pred)[j] == s[k]);
        }
    }
}

/// Two positions of a filtered sequence come from two positions of the
/// original, in the same order.
proof fn lemma_filter_two_indexes<A>(s: Seq<A>, pred: spec_fn(A) -> bool, i: int, j: int)
    requires
        0 <= i < j < s.filter(pred).len(),
    ensures
        exists|a: int, b: int|
            0 <= a < b < s.len() && s[a] == s.filter(pred)[i] && s[b] == s.filter(pred)[j],
    decreases s.len(),
{
    reveal(Seq::filter);
    if s.len() > 0 {
        let f = s.filter(pred);
        let fd = s.drop_last().filter(pred);
        if j < fd.len() {
            lemma_filter_two_indexes(s.drop_last(), pred, i, j);
            let (a, b) = choose|a: int, b: int|
                0 <= a < b < s.drop_last().len() && s.drop_last()[a] == fd[i] && s.drop_last()[b]
                    == fd[j];
            assert(s[a] == f[i] && s[b] == f[j]);
        } else {
            assert(pred(s.last()) && f[j] == s.last());
            assert(i < fd.len());
            lemma_filter_is_subset_index(s.drop_last(), pred, i);
            let a = choose|a: int|
                0 <= a < s.drop_last().len() && s.drop_last()[a] == fd[i];
            assert(s[a] == f[i] && s[s.len() - 1] == f[j]);
        }
    }
}

/// A position of a filtered sequence has a source position in the original.
pub(crate) proof fn lemma_filter_is_subset_index<A>(s: Seq<A>, pred: spec_fn(A) -> bool, i: int)
    requires
        0 <= i < s.filter(pred).len(),
    ensures
        exists|a: int| 0 <= a < s.len() && s[a] == s.filter(pred)[i],
    decreases s.len(),
{
    reveal(Seq::filter);
    if s.len() > 0 {
        let fd = s.drop_last().filter(pred);
        if i < fd.len() {
            lemma_filter_is_subset_index(s.drop_last(), pred, i);
            let a = choose|a: int| 0 <= a < s.drop_last().len() && s.drop_last()[a] == fd[i];
            assert(s[a] == s.filter(pred)[i]);
        } else {
            assert(s[s.len() - 1] == s.filter(pred)[i]);
        }
    }
}


} // verus!
