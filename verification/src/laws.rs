//! The laws of the broker, proved once and for all about the model
//! transitions that the manager's contracts are stated in.

use vstd::prelude::*;
use crate::model::{
    BROADCAST_CAPACITY, RegistryModel, deliver_transition, recv_chunk, recv_ready,
    recv_transition, stop_succeeds, stop_transition, subscribe_succeeds, write_accepted,
};

verus! {

/// Isolation: sessions never leak into one another. A chunk read from
/// session `a`'s transport is broadcast to `a`'s subscribers only; every
/// other identifier `b` keeps exactly the session state (queues,
/// subscribers, liveness) it had before, and is registered afterwards if
/// and only if it was registered before.
pub proof fn lemma_session_isolation(
    m: RegistryModel,
    a: Seq<char>,
    b: Seq<char>,
    chunk: Seq<u8>,
)
    requires
        m.contains_key(a),
        a != b,
    ensures
        deliver_transition(m, a, chunk).contains_key(b) == m.contains_key(b),
        m.contains_key(b) ==> deliver_transition(m, a, chunk)[b] == m[b],
{
}

/// Round-trip: a chunk pushed into a session's inbound path lands,
/// byte for byte, at the back of the queue of every subscription that
/// was established before the push (and has not fallen behind), so a
/// subscriber that keeps up observes the inbound bytes exactly and in
/// order.
pub proof fn lemma_round_trip(m: RegistryModel, id: Seq<char>, slot: int, chunk: Seq<u8>)
    requires
        m.contains_key(id),
        0 <= slot < m[id].subs.len(),
        m[id].subs[slot].len() < BROADCAST_CAPACITY,
    ensures
        deliver_transition(m, id, chunk)[id].subs.len() == m[id].subs.len(),
        deliver_transition(m, id, chunk)[id].subs[slot] == m[id].subs[slot].push(chunk),
{
}

/// Round-trip, several chunks: two deliveries arrive in delivery order on
/// every subscription that keeps up — no reordering on the broadcast
/// plane.
pub proof fn lemma_round_trip_in_order(
    m: RegistryModel,
    id: Seq<char>,
    slot: int,
    first: Seq<u8>,
    second: Seq<u8>,
)
    requires
        m.contains_key(id),
        0 <= slot < m[id].subs.len(),
        m[id].subs[slot].len() + 1 < BROADCAST_CAPACITY,
    ensures
        deliver_transition(deliver_transition(m, id, first), id, second)[id].subs[slot]
            == m[id].subs[slot].push(first).push(second),
{
    lemma_round_trip(m, id, slot, first);
    lemma_round_trip(deliver_transition(m, id, first), id, slot, second);
}

/// Round-trip, received end: delivering a chunk to a subscription with an
/// empty queue makes exactly that chunk the next one received, after
/// which the queue is empty again.
pub proof fn lemma_deliver_then_recv(m: RegistryModel, id: Seq<char>, slot: int, chunk: Seq<u8>)
    requires
        m.contains_key(id),
        0 <= slot < m[id].subs.len(),
        m[id].subs[slot].len() == 0,
    ensures
        recv_ready(deliver_transition(m, id, chunk), id, slot),
        recv_chunk(deliver_transition(m, id, chunk), id, slot) == chunk,
        recv_transition(deliver_transition(m, id, chunk), id, slot)[id].subs[slot].len() == 0,
{
    let delivered = deliver_transition(m, id, chunk);
    assert(delivered[id].subs[slot] == m[id].subs[slot].push(chunk));
    assert(delivered[id].subs[slot][0] == chunk);
    assert(recv_transition(delivered, id, slot)[id].subs[slot]
        =~= Seq::<Seq<u8>>::empty());
}

/// Stop is terminal: a successful `stop` removes the identifier, so a
/// second `stop` on the same identifier cannot succeed (it reports
/// not-found).
pub proof fn lemma_stop_is_terminal(m: RegistryModel, id: Seq<char>)
    requires
        stop_succeeds(m, id),
    ensures
        !stop_succeeds(stop_transition(m, id), id),
{
}

/// No registry leak: once `stop` has returned, the identifier is gone
/// for every operation — a subscription is refused and a write is no
/// longer accepted (both report not-found).
pub proof fn lemma_no_registry_leak(m: RegistryModel, id: Seq<char>)
    requires
        stop_succeeds(m, id),
    ensures
        !stop_transition(m, id).contains_key(id),
        !subscribe_succeeds(stop_transition(m, id), id),
        !write_accepted(stop_transition(m, id), id),
{
}

/// Fan-out independence: a broadcast chunk is appended to the queue of
/// every subscriber that keeps up — each subscriber gets its own copy,
/// and no subscriber's copy is consumed by another's.
pub proof fn lemma_fan_out_independence(m: RegistryModel, id: Seq<char>, chunk: Seq<u8>)
    requires
        m.contains_key(id),
    ensures
        deliver_transition(m, id, chunk)[id].subs.len() == m[id].subs.len(),
        forall|s: int|
            0 <= s < m[id].subs.len() && m[id].subs[s].len() < BROADCAST_CAPACITY
                ==> #[trigger] deliver_transition(m, id, chunk)[id].subs[s]
                == m[id].subs[s].push(chunk),
{
}

} // verus!
