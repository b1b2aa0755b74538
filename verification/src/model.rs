//! The mathematical model of the broker.
//!
//! A manager is modelled as a map from session identifier (a sequence of
//! characters) to a [`SessionModel`]: the commands pending on the
//! session's control plane, one pending-chunk queue per subscriber, and
//! whether the session's event loop is still alive. Every public
//! operation of the manager is specified as a transition on this model,
//! and the laws of the broker are proved about these transitions.

use vstd::prelude::*;

verus! {

/// How many chunks a subscriber's delivery queue holds before the oldest
/// chunk is dropped: a subscriber that falls this far behind observes a
/// gap rather than blocking the session.
pub const BROADCAST_CAPACITY: usize = 256;

/// A command pending on a session's control plane.
pub enum CommandModel {
    /// Forward these bytes to the transport.
    Write(Seq<u8>),
    /// Tear the session down.
    Stop,
}

/// The model of one registered session.
pub struct SessionModel {
    /// Commands queued on the control plane, oldest first.
    pub control: Seq<CommandModel>,
    /// One delivery queue per subscriber, oldest chunk first.
    pub subs: Seq<Seq<Seq<u8>>>,
    /// Whether the session's event loop is still alive. A session whose
    /// transport broke keeps its registry entry but stops running.
    pub running: bool,
}

/// The model of a whole manager: its registry of live sessions.
pub type RegistryModel = Map<Seq<char>, SessionModel>;

/// The session a successful registration installs: nothing queued, no
/// subscribers, event loop alive.
pub open spec fn fresh_session() -> SessionModel {
    SessionModel { control: Seq::empty(), subs: Seq::empty(), running: true }
}

/// One subscriber queue after a chunk is delivered to it: the chunk is
/// appended, and if the queue is already at capacity the oldest chunk is
/// dropped to make room (at-most-once, best-effort delivery).
pub open spec fn queue_after_delivery(q: Seq<Seq<u8>>, chunk: Seq<u8>) -> Seq<Seq<u8>> {
    if q.len() >= BROADCAST_CAPACITY {
        q.drop_first().push(chunk)
    } else {
        q.push(chunk)
    }
}

/// Every subscriber queue of a session after a chunk is broadcast: each
/// subscriber receives its own copy.
pub open spec fn broadcast_push(subs: Seq<Seq<Seq<u8>>>, chunk: Seq<u8>) -> Seq<Seq<Seq<u8>>> {
    Seq::new(subs.len(), |i: int| queue_after_delivery(subs[i], chunk))
}

/// Registration of a new identifier installs a fresh session and touches
/// nothing else.
pub open spec fn register_transition(m: RegistryModel, id: Seq<char>) -> RegistryModel {
    m.insert(id, fresh_session())
}

/// Whether a subscription to `id` is handed out: exactly when the
/// identifier is live.
pub open spec fn subscribe_succeeds(m: RegistryModel, id: Seq<char>) -> bool {
    m.contains_key(id)
}

/// Subscribing adds one empty delivery queue to the session: a new
/// subscriber sees only chunks broadcast from this point on (no replay).
pub open spec fn subscribe_transition(m: RegistryModel, id: Seq<char>) -> RegistryModel {
    if m.contains_key(id) {
        m.insert(id, SessionModel { subs: m[id].subs.push(Seq::empty()), ..m[id] })
    } else {
        m
    }
}

/// Whether a write to `id` is accepted onto the control plane: the
/// identifier must be live and its event loop still running.
pub open spec fn write_accepted(m: RegistryModel, id: Seq<char>) -> bool {
    m.contains_key(id) && m[id].running
}

/// An accepted write queues a `Write` command at the back of the control
/// plane (writes are applied to the transport in acceptance order).
pub open spec fn write_transition(m: RegistryModel, id: Seq<char>, data: Seq<u8>) -> RegistryModel {
    if write_accepted(m, id) {
        m.insert(id, SessionModel { control: m[id].control.push(CommandModel::Write(data)), ..m[id] })
    } else {
        m
    }
}

/// Whether `stop` succeeds: exactly when the identifier is still
/// registered.
pub open spec fn stop_succeeds(m: RegistryModel, id: Seq<char>) -> bool {
    m.contains_key(id)
}

/// A successful stop removes the registry entry; the session's teardown
/// happens together with the removal, never separately.
pub open spec fn stop_transition(m: RegistryModel, id: Seq<char>) -> RegistryModel {
    m.remove(id)
}

/// A received chunk is broadcast to every subscriber of the one session
/// that read it; all other sessions are untouched.
pub open spec fn deliver_transition(m: RegistryModel, id: Seq<char>, chunk: Seq<u8>) -> RegistryModel {
    m.insert(id, SessionModel { subs: broadcast_push(m[id].subs, chunk), ..m[id] })
}

/// The session after its event loop consumed the front control command:
/// a `Write` leaves the rest of the session alone; a `Stop` also ends the
/// loop.
pub open spec fn pop_command_transition(m: RegistryModel, id: Seq<char>) -> RegistryModel {
    let s = m[id];
    match s.control[0] {
        CommandModel::Write(_) => m.insert(id, SessionModel { control: s.control.drop_first(), ..s }),
        CommandModel::Stop => m.insert(
            id,
            SessionModel { control: s.control.drop_first(), running: false, ..s },
        ),
    }
}

/// The session after its transport failed to read: the event loop ends,
/// the registry entry stays behind until the next `stop`.
pub open spec fn terminate_transition(m: RegistryModel, id: Seq<char>) -> RegistryModel {
    m.insert(id, SessionModel { running: false, ..m[id] })
}

/// Whether a receive on subscriber `slot` of session `id` yields a chunk.
pub open spec fn recv_ready(m: RegistryModel, id: Seq<char>, slot: int) -> bool {
    m.contains_key(id) && 0 <= slot < m[id].subs.len() && m[id].subs[slot].len() > 0
}

/// The chunk a ready receive yields: the oldest chunk of that
/// subscriber's own queue (delivery is FIFO per subscriber).
pub open spec fn recv_chunk(m: RegistryModel, id: Seq<char>, slot: int) -> Seq<u8> {
    m[id].subs[slot][0]
}

/// A ready receive pops the oldest chunk from that subscriber's queue and
/// touches no other queue.
pub open spec fn recv_transition(m: RegistryModel, id: Seq<char>, slot: int) -> RegistryModel {
    if recv_ready(m, id, slot) {
        m.insert(
            id,
            SessionModel {
                subs: m[id].subs.update(slot, m[id].subs[slot].drop_first()),
                ..m[id]
            },
        )
    } else {
        m
    }
}

} // verus!
