//! The request API: login, user and room listings, private-room
//! creation and paginated history. The handlers here carry the whole
//! behavior; routing, headers and JSON live outside the library.

use vstd::prelude::*;
use vstd::seq_lib::group_filter_ensures;

use crate::jwt::{claims_of, TOKEN_LIFETIME_SECS};
use crate::models::{MessageV, Pagination, RoomUser, RoomUserV, RoomV, UserV};
use crate::password::verifies;
use crate::request::{
    CreatePrivateRoomErrorResponse, CreatePrivateRoomRequest, CreatePrivateRoomResponse,
    GetMessagesErrorResponse, GetMessagesRequest, LoginErrorResponse, LoginRequest, LoginResponse,
    MessageResponse, MessageResponseV, RoomResponse, RoomResponseV, UserResponse, UserResponseV,
};
use crate::state::ServiceState;
use crate::store::{
    has_room, has_user, has_username, member_of, page_slice, room_messages_desc, rooms_for_user,
    user_named, user_with, PersonalizedRoomDataV, StoreV,
};

verus! {

broadcast use
    group_filter_ensures,
    crate::models::lemma_vec_deep_view_index,
    crate::models::lemma_vec_deep_view_len,
;

/// How an authenticated endpoint fails: a domain error it reports to
/// the client, or an unexpected internal failure.
#[derive(Debug)]
pub enum ApiError<E> {
    Domain(E),
    Unexpected,
}

/// The error envelope of the HTTP surface.
#[derive(Debug, Clone, Copy, PartialEq, Eq, Structural)]
pub enum ErrorResponse {
    InternalServerError,
    UserNotFound,
    AccessDenied,
}

impl ErrorResponse {
    /// The HTTP status each error answers with.
    pub fn status_code(&self) -> (r: u16)
        ensures
            r == match *self {
                ErrorResponse::InternalServerError => 500u16,
                ErrorResponse::UserNotFound => 404u16,
                ErrorResponse::AccessDenied => 403u16,
            },
    {
        match self {
            ErrorResponse::InternalServerError => 500,
            ErrorResponse::UserNotFound => 404,
            ErrorResponse::AccessDenied => 403,
        }
    }
}

/// One account as the user list shows it.
pub open spec fn user_response_of(u: UserV) -> UserResponseV {
    UserResponseV { id: u.id, username: u.username }
}

/// One room as the room list shows it.
pub open spec fn room_response_of(p: PersonalizedRoomDataV) -> RoomResponseV {
    RoomResponseV { id: p.id, name: p.name }
}

/// One message as a history page shows it.
pub open spec fn message_response_of(m: MessageV) -> MessageResponseV {
    MessageResponseV {
        uuid: m.uuid,
        user_id: m.user_id,
        content: m.content,
        created_at: m.created_at,
        read: m.read,
    }
}

/// The contract of `login`: access is denied exactly when the account
/// is unknown or the password does not verify against its stored hash;
/// good credentials always get a reply naming the account and carrying
/// a token whose claims are that account with a one-hour expiry.
pub open spec fn login_outcome(
    pre: StoreV,
    secret: Seq<char>,
    username: Seq<char>,
    password: Seq<char>,
    now: usize,
    r: Result<LoginResponse, ApiError<LoginErrorResponse>>,
) -> bool {
    let denied = !has_username(pre, username) || !verifies(
        password,
        user_named(pre, username).password_hash,
    );
    &&& ((r matches Err(ApiError::Domain(e)) && e == LoginErrorResponse::AccessDenied) <==> denied)
    &&& (!denied ==> r is Ok)
    &&& (r matches Ok(resp) ==> {
        &&& !denied
        &&& resp.user_id as int == user_named(pre, username).id
        &&& claims_of(secret, resp.token@) == Some(
            (resp.user_id, (now + TOKEN_LIFETIME_SECS) as usize),
        )
    })
}

/// The contract of `create_private_room`: a missing participant is
/// reported and nothing changes; otherwise a room named by the request
/// is created and the two memberships are inserted with swapped
/// personal labels — each participant sees the other's username. A
/// room with oneself fails the composite membership key and surfaces as
/// an internal error, with the bare room already created (there is no
/// surrounding transaction).
pub open spec fn create_room_outcome(
    pre: StoreV,
    post: StoreV,
    self_id: int,
    req_name: Seq<char>,
    receiver_id: int,
    r: Result<CreatePrivateRoomResponse, ApiError<CreatePrivateRoomErrorResponse>>,
) -> bool {
    let missing = !has_user(pre, receiver_id) || !has_user(pre, self_id);
    let new_room = RoomV { id: pre.next_room_id, name: req_name };
    &&& ((r matches Err(ApiError::Domain(e)) && e == CreatePrivateRoomErrorResponse::UserNotFound)
        <==> missing)
    &&& (r matches Err(ApiError::Domain(_)) ==> post == pre)
    &&& ((r is Ok) <==> (!missing && pre.next_room_id < i32::MAX && receiver_id != self_id))
    &&& (r matches Ok(resp) ==> {
        &&& resp.id as int == pre.next_room_id
        &&& resp.name@ == user_with(pre, receiver_id).username
        &&& post.rooms == pre.rooms.push(new_room)
        &&& post.rooms_users == pre.rooms_users + seq![
            RoomUserV {
                room_id: pre.next_room_id,
                user_id: self_id,
                generated_room_name: Some(user_with(pre, receiver_id).username),
            },
            RoomUserV {
                room_id: pre.next_room_id,
                user_id: receiver_id,
                generated_room_name: Some(user_with(pre, self_id).username),
            },
        ]
        &&& post.users == pre.users
        &&& post.messages == pre.messages
    })
    &&& (r matches Err(ApiError::Unexpected) ==> {
        &&& !missing
        &&& (pre.next_room_id == i32::MAX || receiver_id == self_id)
        &&& post.users == pre.users
        &&& post.messages == pre.messages
        &&& post.rooms_users == pre.rooms_users
        &&& (post.rooms == pre.rooms || post.rooms == pre.rooms.push(new_room))
    })
}

/// The contract of `get_messages`: an unknown room and a non-member are
/// refused, in that order; otherwise the requested page of the room's
/// history, newest first.
pub open spec fn get_messages_outcome(
    pre: StoreV,
    self_id: int,
    req: GetMessagesRequest,
    r: Result<Vec<MessageResponse>, GetMessagesErrorResponse>,
) -> bool {
    &&& (r == Err::<Vec<MessageResponse>, GetMessagesErrorResponse>(
        GetMessagesErrorResponse::RoomNotFound,
    ) <==> !has_room(pre, req.room_id as int))
    &&& (r == Err::<Vec<MessageResponse>, GetMessagesErrorResponse>(
        GetMessagesErrorResponse::NotMemberOfRoom,
    ) <==> (has_room(pre, req.room_id as int) && !member_of(
        pre.rooms_users,
        req.room_id as int,
        self_id,
    )))
    &&& (r matches Ok(page) ==> {
        &&& has_room(pre, req.room_id as int)
        &&& member_of(pre.rooms_users, req.room_id as int, self_id)
        &&& page.deep_view() == page_slice(
            room_messages_desc(pre, req.room_id as int),
            req.page as int,
            req.page_size as int,
        ).map_values(|m: MessageV| message_response_of(m))
    })
}

/// Lists every account, in storage order.
#[verifier::loop_isolation(false)]
pub fn get_users(state: &ServiceState) -> (r: Vec<UserResponse>)
    ensures
        r.deep_view() == state.store@.users.map_values(|u: UserV| user_response_of(u)),
{
    let ghost uv = state.store@.users;
    let ghost f = |u: UserV| user_response_of(u);
    let n = state.store.users.len();
    let mut out: Vec<UserResponse> = Vec::new();
    for i in 0..n
        invariant
            out.deep_view() =~= uv.subrange(0, i as int).map_values(f),
    {
        proof {
            assert(uv[i as int] == state.store.users@[i as int]@);
        }
        let u = &state.store.users[i];
        let item = UserResponse { id: u.id, username: u.username.clone() };
        proof {
            assert(item@ == f(uv[i as int]));
        }
        out.push(item);
        proof {
            let s0 = uv.subrange(0, i as int);
            let s1 = uv.subrange(0, i + 1);
            assert(s1.drop_last() =~= s0);
            assert forall|k: int| 0 <= k < s1.len() implies s1.map_values(f)[k]
                == out.deep_view()[k] by {
                if k < s0.len() {
                    assert(s1[k] == s0[k]);
                    assert(s0.map_values(f)[k] == f(s0[k]));
                } else {
                    assert(s1[k] == uv[i as int]);
                }
            }
            assert(out.deep_view() =~= s1.map_values(f));
        }
    }
    proof {
        assert(uv.subrange(0, n as int) =~= uv);
    }
    out
}

/// Lists the caller's rooms, each under the name shown to them.
#[verifier::loop_isolation(false)]
pub fn get_rooms(state: &ServiceState, user_id: i32) -> (r: Vec<RoomResponse>)
    requires
        state.store.wf(),
    ensures
        r.deep_view() == rooms_for_user(state.store@, user_id as int).map_values(
            |p: PersonalizedRoomDataV| room_response_of(p),
        ),
{
    let ghost f = |p: PersonalizedRoomDataV| room_response_of(p);
    let rooms = state.store.get_for_user(user_id);
    let ghost pv = rooms.deep_view();
    let n = rooms.len();
    let mut out: Vec<RoomResponse> = Vec::new();
    for i in 0..n
        invariant
            out.deep_view() =~= pv.subrange(0, i as int).map_values(f),
    {
        proof {
            assert(pv[i as int] == rooms@[i as int]@);
        }
        let p = &rooms[i];
        let item = RoomResponse { id: p.id, name: p.name.clone() };
        proof {
            assert(item@ == f(pv[i as int]));
        }
        out.push(item);
        proof {
            let s0 = pv.subrange(0, i as int);
            let s1 = pv.subrange(0, i + 1);
            assert(s1.drop_last() =~= s0);
            assert forall|k: int| 0 <= k < s1.len() implies s1.map_values(f)[k]
                == out.deep_view()[k] by {
                if k < s0.len() {
                    assert(s1[k] == s0[k]);
                    assert(s0.map_values(f)[k] == f(s0[k]));
                } else {
                    assert(s1[k] == pv[i as int]);
                }
            }
            assert(out.deep_view() =~= s1.map_values(f));
        }
    }
    proof {
        assert(pv.subrange(0, n as int) =~= pv);
        assert(pv =~= rooms_for_user(state.store@, user_id as int));
    }
    out
}

/// Creates a private room between the caller and the receiver, with
/// each membership labelled by the other participant's username, and
/// answers with the receiver's username as the room's name for the
/// caller.
pub fn create_private_room(
    state: &mut ServiceState,
    user_id: i32,
    request: CreatePrivateRoomRequest,
) -> (r: Result<CreatePrivateRoomResponse, ApiError<CreatePrivateRoomErrorResponse>>)
    requires
        old(state).store.wf(),
    ensures
        final(state).store.wf(),
        final(state).jwt_encoder.secret@ == old(state).jwt_encoder.secret@,
        create_room_outcome(
            old(state).store@,
            final(state).store@,
            user_id as int,
            request.name@,
            request.receiver_user_id as int,
            r,
        ),
{
    let ghost pre = state.store@;
    let recipient = match state.store.get_user_by_id(request.receiver_user_id) {
        Some(u) => u,
        None => {
            return Err(ApiError::Domain(CreatePrivateRoomErrorResponse::UserNotFound));
        },
    };
    let current_user = match state.store.get_user_by_id(user_id) {
        Some(u) => u,
        None => {
            return Err(ApiError::Domain(CreatePrivateRoomErrorResponse::UserNotFound));
        },
    };
    let room = match state.store.insert_room(request.name) {
        Ok(room) => room,
        Err(_) => {
            return Err(ApiError::Unexpected);
        },
    };
    let ghost mid = state.store@;
    let room_name_for_current = recipient.username;
    let current_link = RoomUser {
        room_id: room.id,
        user_id,
        generated_room_name: Some(room_name_for_current.clone()),
    };
    let recipient_link = RoomUser {
        room_id: room.id,
        user_id: recipient.id,
        generated_room_name: Some(current_user.username),
    };
    let mut links: Vec<RoomUser> = Vec::new();
    links.push(current_link);
    links.push(recipient_link);
    proof {
        assert(links.deep_view() =~= seq![
            RoomUserV {
                room_id: pre.next_room_id,
                user_id: user_id as int,
                generated_room_name: Some(user_with(pre, request.receiver_user_id as int).username),
            },
            RoomUserV {
                room_id: pre.next_room_id,
                user_id: request.receiver_user_id as int,
                generated_room_name: Some(user_with(pre, user_id as int).username),
            },
        ]);
        if request.receiver_user_id != user_id {
            lemma_fresh_room_links_insertable(
                pre,
                mid,
                links.deep_view(),
                user_id as int,
                request.receiver_user_id as int,
            );
        }
    }
    match state.store.insert_rooms_users(links) {
        Ok(()) => {},
        Err(_) => {
            return Err(ApiError::Unexpected);
        },
    }
    Ok(CreatePrivateRoomResponse { id: room.id, name: room_name_for_current })
}

/// A batch of two memberships in a room that was just created — its id
/// fresh, both users present, the participants distinct — is
/// insertable.
proof fn lemma_fresh_room_links_insertable(
    pre: StoreV,
    mid: StoreV,
    links: Seq<RoomUserV>,
    self_id: int,
    receiver_id: int,
)
    requires
        crate::store::store_wf(pre),
        pre.next_room_id < i32::MAX,
        mid.rooms.len() == pre.rooms.len() + 1,
        forall|k: int| 0 <= k < pre.rooms.len() ==> mid.rooms[k] == pre.rooms[k],
        mid.rooms[mid.rooms.len() - 1].id == pre.next_room_id,
        mid.rooms_users == pre.rooms_users,
        mid.users == pre.users,
        has_user(pre, self_id),
        has_user(pre, receiver_id),
        self_id != receiver_id,
        links.len() == 2,
        links[0].room_id == pre.next_room_id && links[0].user_id == self_id,
        links[1].room_id == pre.next_room_id && links[1].user_id == receiver_id,
    ensures
        crate::store::links_insertable(mid, links),
{
    let new_id = pre.next_room_id;
    assert(mid.rooms[mid.rooms.len() - 1].id == new_id);
    assert(has_room(mid, new_id));
    assert forall|i: int| 0 <= i < links.len() implies has_room(
        mid,
        (#[trigger] links[i]).room_id,
    ) && has_user(mid, links[i].user_id) by {
        if i == 0 {
            let k = crate::store::user_index(pre, self_id);
            assert(mid.users[k].id == self_id);
        } else {
            let k = crate::store::user_index(pre, receiver_id);
            assert(mid.users[k].id == receiver_id);
        }
    }
    assert forall|i: int| 0 <= i < links.len() implies !member_of(
        mid.rooms_users,
        (#[trigger] links[i]).room_id,
        links[i].user_id,
    ) by {
        if member_of(pre.rooms_users, links[i].room_id, links[i].user_id) {
            let k = choose|k: int|
                0 <= k < pre.rooms_users.len() && pre.rooms_users[k].room_id == links[i].room_id
                    && pre.rooms_users[k].user_id == links[i].user_id;
            assert(has_room(pre, pre.rooms_users[k].room_id));
            let j = crate::store::room_index(pre, new_id);
            assert(pre.rooms[j].id < pre.next_room_id);
        }
    }
    assert(crate::store::membership_keys_unique(links));
}

/// One page of a room's history, newest first, after the room and the
/// caller's membership are checked.
#[verifier::loop_isolation(false)]
pub fn get_messages(state: &ServiceState, user_id: i32, request: GetMessagesRequest) -> (r: Result<
    Vec<MessageResponse>,
    GetMessagesErrorResponse,
>)
    requires
        state.store.wf(),
    ensures
        get_messages_outcome(state.store@, user_id as int, request, r),
{
    if !state.store.exists_room_by_id(request.room_id) {
        return Err(GetMessagesErrorResponse::RoomNotFound);
    }
    if !state.store.contains_membership(request.room_id, user_id) {
        return Err(GetMessagesErrorResponse::NotMemberOfRoom);
    }
    let ghost f = |m: MessageV| message_response_of(m);
    let page = state.store.get_messages_by_room(
        request.room_id,
        Pagination { page: request.page, page_size: request.page_size },
    );
    let ghost mv = page.deep_view();
    let n = page.len();
    let mut out: Vec<MessageResponse> = Vec::new();
    for i in 0..n
        invariant
            out.deep_view() =~= mv.subrange(0, i as int).map_values(f),
    {
        proof {
            assert(mv[i as int] == page@[i as int]@);
        }
        let m = &page[i];
        let item = MessageResponse {
            uuid: m.uuid,
            user_id: m.user_id,
            content: m.content.clone(),
            created_at: m.created_at,
            read: m.read,
        };
        proof {
            assert(item@ == f(mv[i as int]));
        }
        out.push(item);
        proof {
            let s0 = mv.subrange(0, i as int);
            let s1 = mv.subrange(0, i + 1);
            assert(s1.drop_last() =~= s0);
            assert forall|k: int| 0 <= k < s1.len() implies s1.map_values(f)[k]
                == out.deep_view()[k] by {
                if k < s0.len() {
                    assert(s1[k] == s0[k]);
                    assert(s0.map_values(f)[k] == f(s0[k]));
                } else {
                    assert(s1[k] == mv[i as int]);
                }
            }
            assert(out.deep_view() =~= s1.map_values(f));
        }
    }
    proof {
        assert(mv.subrange(0, n as int) =~= mv);
    }
    Ok(out)
}

/// Authenticates a login attempt and issues a bearer token carrying the
/// account and a one-hour expiry.
pub fn login(state: &ServiceState, request: LoginRequest, now: usize) -> (r: Result<
    LoginResponse,
    ApiError<LoginErrorResponse>,
>)
    requires
        state.store.wf(),
        now + TOKEN_LIFETIME_SECS <= usize::MAX,
    ensures
        login_outcome(
            state.store@,
            state.jwt_encoder.secret@,
            request.username@,
            request.password@,
            now,
            r,
        ),
{
    let LoginRequest { username, password } = request;
    let user = match state.store.get_by_username(username) {
        Some(u) => u,
        None => {
            return Err(ApiError::Domain(LoginErrorResponse::AccessDenied));
        },
    };
    let verified = state.password_hasher.verify_password(
        password.as_str(),
        user.password_hash.as_str(),
    );
    if !verified {
        return Err(ApiError::Domain(LoginErrorResponse::AccessDenied));
    }
    match state.jwt_encoder.encode(user.id, now) {
        Ok(token) => Ok(LoginResponse { user_id: user.id, token }),
        Err(_) => Err(ApiError::Unexpected),
    }
}

} // verus!
