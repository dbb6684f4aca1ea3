//! The session router: the process-wide table from user id to that
//! user's live inbox sender.
//!
//! At most one entry per user exists at any time. Registration replaces
//! any prior entry for the user and hands back a token; unregistration
//! removes the entry only when the token still matches, so a late
//! disconnect of an evicted session never erases its successor's entry.

use vstd::prelude::*;

use crate::state::ThreadEvent;

verus! {

/// One routing entry: the user, the registration token, and the sender
/// half of the session's inbox.
pub struct Route {
    pub user_id: i32,
    pub token: u64,
    pub sender: tokio::sync::mpsc::UnboundedSender<ThreadEvent>,
}

/// The table from user id to live inbox sender.
pub struct RoutingTable {
    pub entries: Vec<Route>,
    pub next_token: u64,
}

/// Whether some entry routes this user.
pub open spec fn routes(entries: Seq<Route>, user_id: int) -> bool {
    exists|i: int| 0 <= i < entries.len() && entries[i].user_id == user_id
}

impl RoutingTable {
    /// At most one entry per user, and every issued token is below the
    /// next one, so a fresh token never collides with a stored entry.
    pub open spec fn wf(&self) -> bool {
        &&& forall|i: int, j: int|
            0 <= i < j < self.entries@.len()
                ==> (#[trigger] self.entries@[i]).user_id != (
                #[trigger] self.entries@[j]).user_id
        &&& forall|i: int|
            0 <= i < self.entries@.len() ==> (#[trigger] self.entries@[i]).token
                < self.next_token
    }

    /// Whether this user has a live entry.
    pub open spec fn contains_user(&self, user_id: int) -> bool {
        routes(self.entries@, user_id)
    }

    /// An empty table.
    pub fn new() -> (rt: RoutingTable)
        ensures
            rt.wf(),
            rt.entries@.len() == 0,
    {
        RoutingTable { entries: Vec::new(), next_token: 0 }
    }

    /// Installs a sender for this user, replacing any prior entry, and
    /// returns the registration token. `None` only when the token space
    /// is exhausted; the table is then unchanged.
    #[verifier::loop_isolation(false)]
    pub fn register(
        &mut self,
        user_id: i32,
        sender: tokio::sync::mpsc::UnboundedSender<ThreadEvent>,
    ) -> (r: Option<u64>)
        requires
            old(self).wf(),
        ensures
            final(self).wf(),
            match r {
                Some(token) => {
                    &&& token == old(self).next_token
                    &&& final(self).next_token == old(self).next_token + 1
                    &&& final(self).contains_user(user_id as int)
                    &&& final(self).entries@.len() > 0
                    &&& final(self).entries@.last().user_id == user_id as int
                    &&& final(self).entries@.last().token == token
                    &&& final(self).entries@.last().sender == sender
                    &&& forall|k: int|
                        0 <= k < final(self).entries@.len() - 1
                            ==> old(self).entries@.contains(#[trigger] final(self).entries@[k])
                                && final(self).entries@[k].user_id != user_id as int
                    &&& forall|u: int|
                        u != user_id as int ==> final(self).contains_user(u) == old(
                            self,
                        ).contains_user(u)
                },
                None => old(self).next_token == u64::MAX && *final(self) == *old(self),
            },
    {
        if self.next_token == u64::MAX {
            return None;
        }
        let ghost pre = self.entries@;
        let n = self.entries.len();
        let mut existing: Option<usize> = None;
        for i in 0..n
            invariant
                self.entries@ == pre,
                match existing {
                    Some(e) => e < i && pre[e as int].user_id == user_id as int,
                    None => forall|k: int|
                        0 <= k < i ==> (#[trigger] pre[k]).user_id != user_id as int,
                },
        {
            if self.entries[i].user_id == user_id {
                existing = Some(i);
                break ;
            }
        }
        match existing {
            Some(i) => {
                proof {
                    pre.remove_ensures(i as int);
                }
                self.entries.remove(i);
                proof {
                    assert forall|k: int|
                        0 <= k < self.entries@.len() implies (#[trigger] self.entries@[k]).user_id
                        != user_id as int && pre.contains(self.entries@[k]) by {
                        if k < i as int {
                            assert(self.entries@[k] == pre[k]);
                        } else {
                            assert(self.entries@[k] == pre[k + 1]);
                        }
                    }
                    assert forall|a: int, b: int|
                        0 <= a < b < self.entries@.len() implies (
                    #[trigger] self.entries@[a]).user_id != (
                    #[trigger] self.entries@[b]).user_id by {
                        let pa = if a < i as int {
                            a
                        } else {
                            a + 1
                        };
                        let pb = if b < i as int {
                            b
                        } else {
                            b + 1
                        };
                        assert(self.entries@[a] == pre[pa]);
                        assert(self.entries@[b] == pre[pb]);
                    }
                    assert forall|k: int|
                        0 <= k < self.entries@.len() implies (#[trigger] self.entries@[k]).token
                        < self.next_token by {
                        if k < i as int {
                            assert(self.entries@[k] == pre[k]);
                        } else {
                            assert(self.entries@[k] == pre[k + 1]);
                        }
                    }
                }
            },
            None => {
                proof {
                    assert forall|k: int|
                        0 <= k < self.entries@.len() implies (#[trigger] self.entries@[k]).user_id
                        != user_id as int && pre.contains(self.entries@[k]) by {
                        assert(self.entries@[k] == pre[k]);
                    }
                }
            },
        }
        let ghost mid = self.entries@;
        let token = self.next_token;
        let route = Route { user_id, token, sender };
        self.entries.push(route);
        self.next_token = self.next_token + 1;
        proof {
            let m = self.entries@.len() - 1;
            assert(self.entries@[m] == route);
            assert forall|k: int| 0 <= k < m implies (#[trigger] self.entries@[k]) == mid[k] by {}
            assert(self.entries@[m].user_id == user_id as int);
            assert forall|u: int|
                u != user_id as int implies final(self).contains_user(u) == routes(pre, u) by {
                if routes(pre, u) {
                    let j = choose|j: int| 0 <= j < pre.len() && pre[j].user_id == u;
                    match existing {
                        Some(i) => {
                            if j < i as int {
                                assert(self.entries@[j] == pre[j]);
                            } else {
                                assert(j > i as int);
                                assert(self.entries@[j - 1] == pre[j]);
                            }
                        },
                        None => {
                            assert(self.entries@[j] == pre[j]);
                        },
                    }
                    assert(final(self).contains_user(u));
                }
                if final(self).contains_user(u) {
                    let j = choose|j: int|
                        0 <= j < self.entries@.len() && self.entries@[j].user_id == u;
                    assert(j < m);
                    assert(pre.contains(mid[j]));
                    let k = choose|k: int| 0 <= k < pre.len() && pre[k] == mid[j];
                    assert(pre[k].user_id == u);
                    assert(routes(pre, u));
                }
            }
        }
        Some(token)
    }

    /// The live sender for this user, if any.
    pub fn lookup(&self, user_id: i32) -> (r: Option<
        &tokio::sync::mpsc::UnboundedSender<ThreadEvent>,
    >)
        ensures
            r is Some <==> self.contains_user(user_id as int),
            match r {
                Some(s) => exists|i: int|
                    0 <= i < self.entries@.len() && (#[trigger] self.entries@[i]).user_id
                        == user_id as int && self.entries@[i].sender == *s,
                None => true,
            },
    {
        let n = self.entries.len();
        for i in 0..n
            invariant
                n == self.entries.len(),
                forall|k: int| 0 <= k < i ==> (#[trigger] self.entries@[k]).user_id != user_id as int,
        {
            if self.entries[i].user_id == user_id {
                return Some(&self.entries[i].sender);
            }
        }
        None
    }

    /// Drops this user's entry, but only when the stored token is still
    /// the caller's: a stale session cannot evict its replacement.
    /// Returns whether an entry was removed.
    #[verifier::loop_isolation(false)]
    pub fn unregister(&mut self, user_id: i32, token: u64) -> (r: bool)
        requires
            old(self).wf(),
        ensures
            final(self).wf(),
            final(self).next_token == old(self).next_token,
            r == exists|i: int|
                0 <= i < old(self).entries@.len() && (#[trigger] old(self).entries@[i]).user_id
                    == user_id as int && old(self).entries@[i].token == token,
            r ==> exists|i: int|
                0 <= i < old(self).entries@.len() && (#[trigger] old(self).entries@[i]).user_id
                    == user_id as int && old(self).entries@[i].token == token
                    && final(self).entries@ == old(self).entries@.remove(i),
            !r ==> final(self).entries@ == old(self).entries@,
    {
        let ghost pre = self.entries@;
        let n = self.entries.len();
        for i in 0..n
            invariant
                self.entries@ == pre,
                self.next_token == old(self).next_token,
                forall|k: int|
                    0 <= k < i
                        ==> !((#[trigger] pre[k]).user_id == user_id as int && pre[k].token
                            == token),
        {
            if self.entries[i].user_id == user_id && self.entries[i].token == token {
                proof {
                    pre.remove_ensures(i as int);
                }
                self.entries.remove(i);
                proof {
                    assert(pre[i as int].user_id == user_id as int && pre[i as int].token == token);
                    assert forall|a: int, b: int|
                        0 <= a < b < self.entries@.len() implies (
                    #[trigger] self.entries@[a]).user_id != (
                    #[trigger] self.entries@[b]).user_id by {
                        let pa = if a < i as int {
                            a
                        } else {
                            a + 1
                        };
                        let pb = if b < i as int {
                            b
                        } else {
                            b + 1
                        };
                        assert(self.entries@[a] == pre[pa]);
                        assert(self.entries@[b] == pre[pb]);
                    }
                    assert forall|a: int|
                        0 <= a < self.entries@.len() implies (#[trigger] self.entries@[a]).token
                        < self.next_token by {
                        if a < i as int {
                            assert(self.entries@[a] == pre[a]);
                        } else {
                            assert(self.entries@[a] == pre[a + 1]);
                        }
                    }
                }
                return true;
            }
        }
        false
    }
}

/// Law: a well-formed routing table holds at most one entry per user.
pub proof fn lemma_router_at_most_one_entry(rt: &RoutingTable, i: int, j: int)
    requires
        rt.wf(),
        0 <= i < rt.entries@.len(),
        0 <= j < rt.entries@.len(),
        i != j,
    ensures
        rt.entries@[i].user_id != rt.entries@[j].user_id,
{
}

} // verus!
