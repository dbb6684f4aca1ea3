//! The inbox handles: trusted declarations for the unbounded sender half
//! of tokio's mpsc channel, which the routing table stores and the
//! fan-out path writes to. The receiver half stays outside the library,
//! with the socket loop that drains it.

use vstd::prelude::*;

use crate::state::ThreadEvent;

verus! {

#[verifier::external_type_specification]
#[verifier::external_body]
#[verifier::reject_recursive_types(T)]
pub struct ExUnboundedSender<T>(tokio::sync::mpsc::UnboundedSender<T>);

/// Relies on tokio's `UnboundedSender::send`: enqueues the event for the
/// receiving session without blocking, and reports false exactly when
/// the receive half is gone. Whether it is accepted depends on the peer,
/// so nothing more is promised.
#[verifier::external_body]
pub fn send_event(s: &tokio::sync::mpsc::UnboundedSender<ThreadEvent>, event: ThreadEvent) -> (r:
    bool) {
    s.send(event).is_ok()
}

} // verus!
