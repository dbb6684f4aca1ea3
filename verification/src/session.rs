//! The per-connection session controller.
//!
//! One controller serves one authenticated socket. It multiplexes two
//! sources — parsed socket frames and cross-session inbox events — and
//! for each one decides the reply, updates the store, and fans events
//! out to the inboxes of the other room members. Reading the socket,
//! JSON framing and the waiting itself happen outside the library; the
//! loop hands every received item to [`Controller::process`].
//!
//! Ordering inside a message send: the message is persisted before any
//! fan-out, so a delivered event always refers to durable history.

use vstd::prelude::*;
use vstd::seq_lib::group_filter_ensures;

use crate::channel::send_event;
use crate::jwt::Claims;
use crate::models::{MessageV, User, UserV};
use crate::request::{
    WsErrorResponse, WsMarkMessagesReadRequest, WsMarkMessagesReadRequestV, WsMessageRequest,
    WsMessageRequestV, WsMessageResponse, WsOkResponse, WsOkResponseV, WsRequest, WsRequestV,
    WsResponse, WsResponseV, WsMessageResponseV,
};
use crate::router::{routes, Route, RoutingTable};
use crate::state::{ThreadEvent, ThreadEventV, UserMessage, UserMessageV};
use crate::store::{
    has_message_uuid, has_room, has_user, mark_read_v, member_of, message_insertable, message_with,
    users_in_room, Store, StoreError, StoreV,
};

verus! {

broadcast use
    group_filter_ensures,
    crate::models::lemma_vec_deep_view_index,
    crate::models::lemma_vec_deep_view_len,
;

/// What a session run can fail with; either way the session terminates.
#[derive(Debug, Clone, Copy, PartialEq, Eq, Structural)]
pub enum SessionError {
    /// A repository write was refused.
    Storage(StoreError),
    /// A recipient's inbox no longer accepts events.
    ChannelClosed,
}

/// One socket frame, as the socket loop hands it over: a parsed request,
/// a text frame that did not parse, or a non-text frame.
#[derive(Debug)]
pub enum FrameInput {
    Request(WsRequest),
    Malformed,
    NotText,
}

/// Ghost image of [`FrameInput`].
pub ghost enum FrameInputV {
    Request(WsRequestV),
    Malformed,
    NotText,
}

impl View for FrameInput {
    type V = FrameInputV;

    open spec fn view(&self) -> FrameInputV {
        match self {
            FrameInput::Request(r) => FrameInputV::Request(r@),
            FrameInput::Malformed => FrameInputV::Malformed,
            FrameInput::NotText => FrameInputV::NotText,
        }
    }
}

/// What the session's select loop received: an inbox event from another
/// session, or a frame from the socket.
#[derive(Debug)]
pub enum ReceivedEvent {
    FromOtherThread(ThreadEvent),
    FromWebsocket(FrameInput),
}

/// Ghost image of [`ReceivedEvent`].
pub ghost enum ReceivedEventV {
    FromOtherThread(ThreadEventV),
    FromWebsocket(FrameInputV),
}

impl View for ReceivedEvent {
    type V = ReceivedEventV;

    open spec fn view(&self) -> ReceivedEventV {
        match self {
            ReceivedEvent::FromOtherThread(e) => ReceivedEventV::FromOtherThread(e@),
            ReceivedEvent::FromWebsocket(f) => ReceivedEventV::FromWebsocket(f@),
        }
    }
}

/// What one processed event asks the socket loop to do: write a reply,
/// if any; `delivered` records which users' inboxes were handed an
/// event, and `event` is the event they were handed.
#[derive(Debug)]
pub struct SessionOutput {
    pub reply: Option<WsResponse>,
    pub delivered: Vec<i32>,
    pub event: Option<ThreadEvent>,
}

/// Ghost image of [`SessionOutput`].
pub ghost struct SessionOutputV {
    pub reply: Option<WsResponseV>,
    pub delivered: Seq<int>,
    pub event: Option<ThreadEventV>,
}

/// A list of user ids as mathematical integers.
pub open spec fn ids_view(v: Seq<i32>) -> Seq<int> {
    v.map_values(|x: i32| x as int)
}

impl View for SessionOutput {
    type V = SessionOutputV;

    open spec fn view(&self) -> SessionOutputV {
        SessionOutputV {
            reply: match self.reply {
                Some(ref r) => Some(r@),
                None => None,
            },
            delivered: ids_view(self.delivered@),
            event: match self.event {
                Some(ref e) => Some(e@),
                None => None,
            },
        }
    }
}

/// Whether anyone is there to fan out to: a listed member other than
/// the initiator whose inbox is currently registered.
pub open spec fn some_live_recipient(members: Seq<UserV>, entries: Seq<Route>, self_id: int) -> bool {
    exists|j: int|
        0 <= j < members.len() && (#[trigger] members[j]).id != self_id && routes(
            entries,
            members[j].id,
        )
}

/// The recipients of a room fan-out: every listed member except the
/// initiator whose inbox is currently registered, in member order.
pub open spec fn fanout_ids(members: Seq<UserV>, entries: Seq<Route>, self_id: int) -> Seq<int> {
    members.filter(|u: UserV| u.id != self_id && routes(entries, u.id)).map_values(
        |u: UserV| u.id,
    )
}

/// The reply a delivered inbox event turns into. A delivered message
/// carries the fan-out clock reading as its `created_at`; the persisted
/// timestamp stays authoritative in history.
pub open spec fn thread_event_response(e: ThreadEventV, now: i64) -> WsResponseV {
    match e {
        ThreadEventV::UserMessage(m) => WsResponseV::Success(
            WsOkResponseV::Message(
                WsMessageResponseV {
                    uuid: m.uuid,
                    user_id: m.from_user_id,
                    content: m.content,
                    created_at: now,
                    read: false,
                },
            ),
        ),
        ThreadEventV::MessagesRead(q) => WsResponseV::Success(WsOkResponseV::MessagesRead(q)),
    }
}

/// The store after a successful message send: the request persisted as a
/// fresh unread row stamped `now`, everything else untouched.
pub open spec fn persisted_message(
    post: StoreV,
    pre: StoreV,
    req: WsMessageRequestV,
    sender: int,
    now: i64,
) -> bool {
    &&& has_message_uuid(post, req.uuid)
    &&& message_with(post, req.uuid) == (MessageV {
        id: pre.next_message_id,
        uuid: req.uuid,
        room_id: req.room_id,
        user_id: sender,
        content: req.content,
        created_at: now,
        read: false,
    })
    &&& exists|p: int|
        0 <= p <= pre.messages.len() && post.messages == pre.messages.insert(
            p,
            message_with(post, req.uuid),
        )
    &&& post.users == pre.users
    &&& post.rooms == pre.rooms
    &&& post.rooms_users == pre.rooms_users
}

/// The contract of handling one `Message` frame, over ghost values:
/// unknown room and non-membership are rejected without a write; an
/// accepted message is persisted before fan-out, acknowledged to the
/// sender, and the message event — this uuid, this sender, this content
/// — is delivered to every registered member except the sender; a
/// refused write (duplicate uuid) terminates with a storage error and no
/// fan-out; a dead recipient inbox terminates after persistence, and can
/// only be claimed when some registered recipient exists.
pub open spec fn message_request_outcome(
    self_id: int,
    pre: StoreV,
    post: StoreV,
    entries: Seq<Route>,
    req: WsMessageRequestV,
    now: i64,
    r: Result<SessionOutputV, SessionError>,
) -> bool {
    match r {
        Ok(out) => {
            if !has_room(pre, req.room_id) {
                &&& post == pre
                &&& out.reply == Some(WsResponseV::Failure(WsErrorResponse::UserNotFound))
                &&& out.delivered == Seq::<int>::empty()
                &&& out.event == None::<ThreadEventV>
            } else if !member_of(pre.rooms_users, req.room_id, self_id) {
                &&& post == pre
                &&& out.reply == Some(WsResponseV::Failure(WsErrorResponse::NotMemberOfRoom))
                &&& out.delivered == Seq::<int>::empty()
                &&& out.event == None::<ThreadEventV>
            } else {
                &&& message_insertable(pre, req.uuid, req.room_id, self_id)
                &&& persisted_message(post, pre, req, self_id, now)
                &&& out.reply == Some(
                    WsResponseV::Success(WsOkResponseV::MessageReceived(req.uuid)),
                )
                &&& out.delivered == fanout_ids(users_in_room(pre, req.room_id), entries, self_id)
                &&& out.event == Some(
                    ThreadEventV::UserMessage(
                        UserMessageV {
                            uuid: req.uuid,
                            from_user_id: self_id,
                            content: req.content,
                        },
                    ),
                )
            }
        },
        Err(SessionError::Storage(_)) => {
            &&& has_room(pre, req.room_id)
            &&& member_of(pre.rooms_users, req.room_id, self_id)
            &&& !message_insertable(pre, req.uuid, req.room_id, self_id)
            &&& post == pre
        },
        Err(SessionError::ChannelClosed) => {
            &&& message_insertable(pre, req.uuid, req.room_id, self_id)
            &&& persisted_message(post, pre, req, self_id, now)
            &&& some_live_recipient(users_in_room(pre, req.room_id), entries, self_id)
        },
    }
}

/// The contract of handling one `MessagesRead` frame: the bulk read
/// update always happens first, as stored history has it; then a
/// non-member is refused, and otherwise the receipt is fanned out
/// verbatim to every registered member except the initiator. A dead
/// recipient inbox can only be claimed when some registered recipient
/// exists.
pub open spec fn mark_read_outcome(
    self_id: int,
    pre: StoreV,
    post: StoreV,
    entries: Seq<Route>,
    req: WsMarkMessagesReadRequestV,
    r: Result<SessionOutputV, SessionError>,
) -> bool {
    &&& post == mark_read_v(pre, req.message_uuids)
    &&& match r {
        Ok(out) => {
            if !member_of(pre.rooms_users, req.room_id, self_id) {
                &&& out.reply == Some(WsResponseV::Failure(WsErrorResponse::NotMemberOfRoom))
                &&& out.delivered == Seq::<int>::empty()
                &&& out.event == None::<ThreadEventV>
            } else {
                &&& out.reply == None::<WsResponseV>
                &&& out.delivered == fanout_ids(users_in_room(pre, req.room_id), entries, self_id)
                &&& out.event == Some(ThreadEventV::MessagesRead(req))
            }
        },
        Err(e) => {
            &&& e == SessionError::ChannelClosed
            &&& member_of(pre.rooms_users, req.room_id, self_id)
            &&& some_live_recipient(users_in_room(pre, req.room_id), entries, self_id)
        },
    }
}

/// The view of a handler result.
pub open spec fn out_view(r: Result<SessionOutput, SessionError>) -> Result<
    SessionOutputV,
    SessionError,
> {
    match r {
        Ok(out) => Ok(out@),
        Err(e) => Err(e),
    }
}

/// Hands one event to one user's inbox, if that user is registered.
/// `Ok(true)` means the event was enqueued; a missing recipient is not
/// an error, a dead inbox is.
pub fn send_thread_event(router: &RoutingTable, user_id: i32, event: ThreadEvent) -> (r: Result<
    bool,
    SessionError,
>)
    ensures
        r matches Ok(sent) ==> sent == router.contains_user(user_id as int),
        r matches Err(e) ==> e == SessionError::ChannelClosed && router.contains_user(
            user_id as int,
        ),
{
    match router.lookup(user_id) {
        Some(sender) => {
            if send_event(sender, event) {
                Ok(true)
            } else {
                Err(SessionError::ChannelClosed)
            }
        },
        None => Ok(false),
    }
}

/// Fans one event out to every listed member except the initiator whose
/// inbox is registered, and reports who got it. Fails as soon as one
/// registered recipient's inbox is gone — so failure is only possible
/// when such a recipient exists at all.
#[verifier::loop_isolation(false)]
pub fn fan_out(
    router: &RoutingTable,
    members: &Vec<User>,
    self_id: i32,
    event: &ThreadEvent,
) -> (r: Result<Vec<i32>, SessionError>)
    ensures
        r matches Ok(sent) ==> ids_view(sent@) == fanout_ids(
            members.deep_view(),
            router.entries@,
            self_id as int,
        ),
        r matches Err(e) ==> e == SessionError::ChannelClosed && some_live_recipient(
            members.deep_view(),
            router.entries@,
            self_id as int,
        ),
{
    let ghost mv = members.deep_view();
    let ghost entries = router.entries@;
    let ghost pred = |u: UserV| u.id != self_id as int && routes(entries, u.id);
    let ghost idf = |u: UserV| u.id;
    let n = members.len();
    let mut sent: Vec<i32> = Vec::new();
    for i in 0..n
        invariant
            ids_view(sent@) =~= mv.subrange(0, i as int).filter(pred).map_values(idf),
    {
        proof {
            reveal(Seq::filter);
            assert(mv.subrange(0, i + 1).drop_last() =~= mv.subrange(0, i as int));
            assert(mv.subrange(0, i + 1).last() == mv[i as int]);
            assert(mv[i as int] == members@[i as int]@);
        }
        let uid = members[i].id;
        if uid != self_id {
            match send_thread_event(router, uid, event.clone()) {
                Ok(true) => {
                    proof {
                        assert(pred(mv[i as int]));
                    }
                    sent.push(uid);
                    proof {
                        let f0 = mv.subrange(0, i as int).filter(pred);
                        let f1 = mv.subrange(0, i + 1).filter(pred);
                        assert(f1 == f0.push(mv[i as int]));
                        assert forall|k: int| 0 <= k < f1.len() implies f1.map_values(idf)[k]
                            == ids_view(sent@)[k] by {
                            if k < f0.len() {
                                assert(f1[k] == f0[k]);
                                assert(f0.map_values(idf)[k] == idf(f0[k]));
                            } else {
                                assert(f1[k] == mv[i as int]);
                            }
                        }
                        assert(ids_view(sent@) =~= f1.map_values(idf));
                    }
                },
                Ok(false) => {
                    proof {
                        assert(!pred(mv[i as int]));
                    }
                },
                Err(e) => {
                    proof {
                        assert(mv[i as int].id != self_id as int && routes(
                            entries,
                            mv[i as int].id,
                        ));
                    }
                    return Err(e);
                },
            }
        } else {
            proof {
                assert(!pred(mv[i as int]));
            }
        }
    }
    proof {
        assert(mv.subrange(0, n as int) =~= mv);
    }
    Ok(sent)
}

/// The verified core of one connected session: the authenticated claims
/// and the decisions made for every received event.
pub struct Controller {
    pub claims: Claims,
}

impl Controller {
    /// The authenticated account this session acts for.
    pub open spec fn user_id(&self) -> int {
        self.claims.user_id as int
    }

    pub fn new(claims: Claims) -> (r: Controller)
        ensures
            r.claims == claims,
    {
        Controller { claims }
    }

    /// Turns a delivered inbox event into the reply written to this
    /// session's socket, stamping a delivered message with the fan-out
    /// clock reading.
    pub fn process_thread_event(&self, event: ThreadEvent, now: i64) -> (r: WsResponse)
        ensures
            r@ == thread_event_response(event@, now),
    {
        match event {
            ThreadEvent::UserMessage(message) => WsResponse::Success(
                WsOkResponse::Message(
                    WsMessageResponse {
                        uuid: message.uuid,
                        user_id: message.from_user_id,
                        content: message.content,
                        created_at: now,
                        read: false,
                    },
                ),
            ),
            ThreadEvent::MessagesRead(request) => WsResponse::Success(
                WsOkResponse::MessagesRead(request),
            ),
        }
    }

    /// Handles a `Message` frame: authorizes, persists, fans out,
    /// acknowledges — in that order.
    pub fn send_message_to_user(
        &self,
        store: &mut Store,
        router: &RoutingTable,
        request: WsMessageRequest,
        now: i64,
    ) -> (r: Result<SessionOutput, SessionError>)
        requires
            old(store).wf(),
            router.wf(),
        ensures
            final(store).wf(),
            message_request_outcome(
                self.user_id(),
                old(store)@,
                final(store)@,
                router.entries@,
                request@,
                now,
                out_view(r),
            ),
    {
        let room = store.get_room_by_id(request.room_id);
        if room.is_none() {
            let out = SessionOutput {
                reply: Some(WsResponse::Failure(WsErrorResponse::UserNotFound)),
                delivered: Vec::new(),
                event: None,
            };
            proof {
                assert(out@.delivered =~= Seq::<int>::empty());
            }
            return Ok(out);
        }
        let members = store.get_users_by_room(request.room_id);
        if !store.contains_membership(request.room_id, self.claims.user_id) {
            let out = SessionOutput {
                reply: Some(WsResponse::Failure(WsErrorResponse::NotMemberOfRoom)),
                delivered: Vec::new(),
                event: None,
            };
            proof {
                assert(out@.delivered =~= Seq::<int>::empty());
            }
            return Ok(out);
        }
        proof {
            let k = choose|k: int|
                0 <= k < old(store)@.rooms_users.len() && old(store)@.rooms_users[k].room_id
                    == request.room_id as int && old(store)@.rooms_users[k].user_id
                    == self.user_id();
            assert(has_user(old(store)@, self.user_id()));
        }
        let content = request.content.clone();
        let inserted = store.insert_message(
            request.uuid,
            request.room_id,
            self.claims.user_id,
            content,
            now,
        );
        match inserted {
            Ok(_) => {},
            Err(e) => {
                return Err(SessionError::Storage(e));
            },
        }
        let event = ThreadEvent::UserMessage(
            UserMessage {
                uuid: request.uuid,
                from_user_id: self.claims.user_id,
                content: request.content,
            },
        );
        let delivered = match fan_out(router, &members, self.claims.user_id, &event) {
            Ok(sent) => sent,
            Err(e) => {
                return Err(e);
            },
        };
        let out = SessionOutput {
            reply: Some(WsResponse::Success(WsOkResponse::MessageReceived(request.uuid))),
            delivered,
            event: Some(event),
        };
        Ok(out)
    }

    /// Handles a `MessagesRead` frame: marks first, as stored history
    /// has it, then authorizes the fan-out of the receipt.
    pub fn mark_messages_read(
        &self,
        store: &mut Store,
        router: &RoutingTable,
        request: WsMarkMessagesReadRequest,
    ) -> (r: Result<SessionOutput, SessionError>)
        requires
            old(store).wf(),
            router.wf(),
        ensures
            final(store).wf(),
            mark_read_outcome(
                self.user_id(),
                old(store)@,
                final(store)@,
                router.entries@,
                request@,
                out_view(r),
            ),
    {
        let members = store.get_users_by_room(request.room_id);
        let is_member = store.contains_membership(request.room_id, self.claims.user_id);
        store.mark_messages_read(&request.message_uuids);
        if !is_member {
            let out = SessionOutput {
                reply: Some(WsResponse::Failure(WsErrorResponse::NotMemberOfRoom)),
                delivered: Vec::new(),
                event: None,
            };
            proof {
                assert(out@.delivered =~= Seq::<int>::empty());
            }
            return Ok(out);
        }
        let self_id = self.claims.user_id;
        let event = ThreadEvent::MessagesRead(request);
        let delivered = match fan_out(router, &members, self_id, &event) {
            Ok(sent) => sent,
            Err(e) => {
                return Err(e);
            },
        };
        let out = SessionOutput { reply: None, delivered, event: Some(event) };
        Ok(out)
    }

    /// Dispatches one parsed socket request.
    pub fn process_ws_request(
        &self,
        store: &mut Store,
        router: &RoutingTable,
        request: WsRequest,
        now: i64,
    ) -> (r: Result<SessionOutput, SessionError>)
        requires
            old(store).wf(),
            router.wf(),
        ensures
            final(store).wf(),
            match request@ {
                WsRequestV::Message(m) => message_request_outcome(
                    self.user_id(),
                    old(store)@,
                    final(store)@,
                    router.entries@,
                    m,
                    now,
                    out_view(r),
                ),
                WsRequestV::MessagesRead(q) => mark_read_outcome(
                    self.user_id(),
                    old(store)@,
                    final(store)@,
                    router.entries@,
                    q,
                    out_view(r),
                ),
            },
    {
        match request {
            WsRequest::Message(message) => self.send_message_to_user(store, router, message, now),
            WsRequest::MessagesRead(request) => self.mark_messages_read(store, router, request),
        }
    }

    /// Handles one received item of the session's select loop: an inbox
    /// event becomes a reply; a text frame that parsed is dispatched; any
    /// other frame is answered with `WrongFormat`. An error terminates
    /// the session.
    pub fn process(
        &self,
        store: &mut Store,
        router: &RoutingTable,
        event: ReceivedEvent,
        now: i64,
    ) -> (r: Result<SessionOutput, SessionError>)
        requires
            old(store).wf(),
            router.wf(),
        ensures
            final(store).wf(),
            match event@ {
                ReceivedEventV::FromOtherThread(e) => {
                    &&& final(store)@ == old(store)@
                    &&& out_view(r) matches Ok(out) && out.reply == Some(
                        thread_event_response(e, now),
                    ) && out.delivered == Seq::<int>::empty() && out.event == None::<ThreadEventV>
                },
                ReceivedEventV::FromWebsocket(f) => match f {
                    FrameInputV::Request(WsRequestV::Message(m)) => message_request_outcome(
                        self.user_id(),
                        old(store)@,
                        final(store)@,
                        router.entries@,
                        m,
                        now,
                        out_view(r),
                    ),
                    FrameInputV::Request(WsRequestV::MessagesRead(q)) => mark_read_outcome(
                        self.user_id(),
                        old(store)@,
                        final(store)@,
                        router.entries@,
                        q,
                        out_view(r),
                    ),
                    _ => {
                        &&& final(store)@ == old(store)@
                        &&& out_view(r) matches Ok(out) && out.reply == Some(
                            WsResponseV::Failure(WsErrorResponse::WrongFormat),
                        ) && out.delivered == Seq::<int>::empty() && out.event
                            == None::<ThreadEventV>
                    },
                },
            },
    {
        match event {
            ReceivedEvent::FromOtherThread(e) => {
                let reply = self.process_thread_event(e, now);
                let out = SessionOutput { reply: Some(reply), delivered: Vec::new(), event: None };
                proof {
                    assert(out@.delivered =~= Seq::<int>::empty());
                }
                Ok(out)
            },
            ReceivedEvent::FromWebsocket(FrameInput::Request(request)) => self.process_ws_request(
                store,
                router,
                request,
                now,
            ),
            ReceivedEvent::FromWebsocket(_) => {
                let out = SessionOutput {
                    reply: Some(WsResponse::Failure(WsErrorResponse::WrongFormat)),
                    delivered: Vec::new(),
                    event: None,
                };
                proof {
                    assert(out@.delivered =~= Seq::<int>::empty());
                }
                Ok(out)
            },
        }
    }
}

/// Law: a live delivery is durable first. Whenever a message send
/// reached any recipient, the message is already fetchable by its uuid,
/// with the sender, content and unread flag it was sent with.
pub proof fn lemma_delivery_is_durable(
    post: StoreV,
    pre: StoreV,
    req: WsMessageRequestV,
    sender: int,
    now: i64,
)
    requires
        persisted_message(post, pre, req, sender, now),
    ensures
        has_message_uuid(post, req.uuid),
        message_with(post, req.uuid).content == req.content,
        message_with(post, req.uuid).user_id == sender,
        message_with(post, req.uuid).room_id == req.room_id,
        message_with(post, req.uuid).read == false,
{
}

/// Law: the fan-out of an event reaches exactly the currently-registered
/// members other than the initiator — never a non-member, never the
/// initiator, and every registered member is covered.
pub proof fn lemma_fanout_targets(members: Seq<UserV>, entries: Seq<Route>, self_id: int, k: int)
    requires
        0 <= k < fanout_ids(members, entries, self_id).len(),
    ensures
        fanout_ids(members, entries, self_id)[k] != self_id,
        routes(entries, fanout_ids(members, entries, self_id)[k]),
        exists|j: int|
            0 <= j < members.len() && (#[trigger] members[j]).id == fanout_ids(
                members,
                entries,
                self_id,
            )[k],
{
    let pred = |u: UserV| u.id != self_id && routes(entries, u.id);
    let f = members.filter(pred);
    assert(fanout_ids(members, entries, self_id)[k] == f.map_values(|u: UserV| u.id)[k]);
    assert(pred(f[k]));
    crate::store::lemma_filter_is_subset_index(members, pred, k);
    let j = choose|j: int| 0 <= j < members.len() && members[j] == f[k];
    assert(members[j].id == f[k].id);
}

/// Law: every member other than the initiator whose inbox is registered
/// is among the fan-out targets.
pub proof fn lemma_fanout_covers_registered(
    members: Seq<UserV>,
    entries: Seq<Route>,
    self_id: int,
    j: int,
)
    requires
        0 <= j < members.len(),
        members[j].id != self_id,
        routes(entries, members[j].id),
    ensures
        fanout_ids(members, entries, self_id).contains(members[j].id),
{
    let pred = |u: UserV| u.id != self_id && routes(entries, u.id);
    assert(pred(members[j]));
    crate::store::lemma_filter_keeps_element(members, pred, j);
    let f = members.filter(pred);
    let k = choose|k: int| 0 <= k < f.len() && f[k] == members[j];
    assert(f.map_values(|u: UserV| u.id)[k] == members[j].id);
}

} // verus!
