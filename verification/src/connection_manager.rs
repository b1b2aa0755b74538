//! The connection orchestration layer.
//!
//! The `ConnectionManager` owns a registry of live sessions. Each session
//! exclusively owns its transport, a control queue of pending commands
//! (writes and stop requests, served oldest first) and a broadcast plane
//! with one bounded delivery queue per subscriber. The manager's public
//! operations and the per-session event-loop step are specified as
//! transitions on the registry model (`crate::model`) and verified
//! against it.
//!
//! The asynchronous shell around this crate drives each session by
//! calling [`ConnectionManager::step_session`] in a loop: the step makes
//! every decision of the event loop (forward a write, tear down on stop,
//! broadcast a received chunk, end the session on a read error), so the
//! shell is left with nothing but scheduling.

use vstd::prelude::*;
use vstd::slice::slice_to_vec;
use crate::connections::connection::Connection;
use crate::connections::errors::{
    ConnectionError, make_already_registered_msg, make_not_found_msg, already_registered_msg,
    not_found_msg,
};
use crate::model::{
    BROADCAST_CAPACITY, CommandModel, RegistryModel, SessionModel, broadcast_push,
    deliver_transition, fresh_session, pop_command_transition, queue_after_delivery, recv_chunk,
    recv_ready, recv_transition, register_transition, stop_succeeds, stop_transition,
    subscribe_succeeds, subscribe_transition, terminate_transition, write_accepted,
    write_transition,
};

verus! {

/// A command on a session's control plane.
enum IoEvent {
    Write(Vec<u8>),
    Stop,
}

impl IoEvent {
    spec fn model(&self) -> CommandModel {
        match self {
            IoEvent::Write(d) => CommandModel::Write(d@),
            IoEvent::Stop => CommandModel::Stop,
        }
    }
}

spec fn control_models(q: Seq<IoEvent>) -> Seq<CommandModel> {
    Seq::new(q.len(), |i: int| q[i].model())
}

/// One registered session: the identifier it lives under, the transport
/// it exclusively owns, and the session state the model speaks of.
struct SessionRecord<C> {
    id: String,
    conn: C,
    running: bool,
    control: Vec<IoEvent>,
    subs: Vec<Vec<Vec<u8>>>,
}

impl<C> SessionRecord<C> {
    spec fn model(&self) -> SessionModel {
        SessionModel {
            control: control_models(self.control@),
            subs: self.subs.deep_view(),
            running: self.running,
        }
    }
}

spec fn has_id<C>(s: Seq<SessionRecord<C>>, id: Seq<char>) -> bool {
    exists|i: int| 0 <= i < s.len() && s[i].id@ == id
}

spec fn idx_of<C>(s: Seq<SessionRecord<C>>, id: Seq<char>) -> int {
    choose|i: int| 0 <= i < s.len() && s[i].id@ == id
}

spec fn records_wf<C>(s: Seq<SessionRecord<C>>) -> bool {
    forall|i: int, j: int|
        0 <= i < s.len() && 0 <= j < s.len() && i != j ==> s[i].id@ != s[j].id@
}

spec fn records_view<C>(s: Seq<SessionRecord<C>>) -> RegistryModel {
    Map::new(|id: Seq<char>| has_id(s, id), |id: Seq<char>| s[idx_of(s, id)].model())
}

proof fn lemma_idx_of<C>(s: Seq<SessionRecord<C>>, k: int)
    requires
        records_wf(s),
        0 <= k < s.len(),
    ensures
        has_id(s, s[k].id@),
        idx_of(s, s[k].id@) == k,
{
    assert(has_id(s, s[k].id@));
    let i = idx_of(s, s[k].id@);
    assert(0 <= i < s.len() && s[i].id@ == s[k].id@);
    if i != k {
        assert(s[i].id@ != s[k].id@);
        assert(false);
    }
}

proof fn lemma_view_entry<C>(s: Seq<SessionRecord<C>>, k: int)
    requires
        records_wf(s),
        0 <= k < s.len(),
    ensures
        records_view(s).contains_key(s[k].id@),
        records_view(s)[s[k].id@] == s[k].model(),
{
    lemma_idx_of(s, k);
}

proof fn lemma_push_entry<C>(s: Seq<SessionRecord<C>>, r: SessionRecord<C>)
    requires
        records_wf(s),
        !has_id(s, r.id@),
    ensures
        records_wf(s.push(r)),
        records_view(s.push(r)) == records_view(s).insert(r.id@, r.model()),
{
    let s2 = s.push(r);
    assert forall|i: int, j: int|
        0 <= i < s2.len() && 0 <= j < s2.len() && i != j implies s2[i].id@ != s2[j].id@ by {
        if i < s.len() && j < s.len() {
            assert(s2[i] == s[i] && s2[j] == s[j]);
        } else if i < s.len() {
            assert(s2[j] == r && s2[i] == s[i]);
            assert(has_id(s, s[i].id@));
        } else {
            assert(s2[i] == r && s2[j] == s[j]);
            assert(has_id(s, s[j].id@));
        }
    }
    assert forall|id: Seq<char>| #[trigger] has_id(s2, id) == (has_id(s, id) || id == r.id@) by {
        if has_id(s2, id) {
            let i = choose|i: int| 0 <= i < s2.len() && s2[i].id@ == id;
            if i < s.len() {
                assert(s2[i] == s[i]);
                assert(has_id(s, id));
            } else {
                assert(s2[i] == r);
            }
        }
        if has_id(s, id) {
            let i = choose|i: int| 0 <= i < s.len() && s[i].id@ == id;
            assert(s2[i] == s[i]);
            assert(has_id(s2, id));
        }
        if id == r.id@ {
            assert(s2[s.len() as int] == r);
            assert(has_id(s2, id));
        }
    }
    assert(records_view(s2) =~= records_view(s).insert(r.id@, r.model())) by {
        assert forall|id: Seq<char>| records_view(s2).contains_key(id) implies
            records_view(s).insert(r.id@, r.model()).contains_key(id)
            && records_view(s2)[id] == records_view(s).insert(r.id@, r.model())[id] by {
            if id == r.id@ {
                lemma_idx_of(s2, s.len() as int);
                assert(records_view(s2)[id] == r.model());
            } else {
                let i = idx_of(s, id);
                assert(has_id(s, id));
                assert(0 <= i < s.len() && s[i].id@ == id);
                lemma_idx_of(s2, i);
                assert(records_view(s2)[id] == s2[i].model());
                assert(s2[i] == s[i]);
            }
        }
        assert forall|id: Seq<char>|
            records_view(s).insert(r.id@, r.model()).contains_key(id) implies
            records_view(s2).contains_key(id) by {
        }
    }
}

proof fn lemma_update_entry<C>(s: Seq<SessionRecord<C>>, k: int, r: SessionRecord<C>)
    requires
        records_wf(s),
        0 <= k < s.len(),
        r.id@ == s[k].id@,
    ensures
        records_wf(s.update(k, r)),
        records_view(s.update(k, r)) == records_view(s).insert(r.id@, r.model()),
{
    let s2 = s.update(k, r);
    assert forall|i: int, j: int|
        0 <= i < s2.len() && 0 <= j < s2.len() && i != j implies s2[i].id@ != s2[j].id@ by {
        assert(s2[i].id@ == s[i].id@ && s2[j].id@ == s[j].id@);
    }
    assert forall|id: Seq<char>| #[trigger] has_id(s2, id) == has_id(s, id) by {
        if has_id(s2, id) {
            let i = choose|i: int| 0 <= i < s2.len() && s2[i].id@ == id;
            assert(s[i].id@ == id);
            assert(has_id(s, id));
        }
        if has_id(s, id) {
            let i = choose|i: int| 0 <= i < s.len() && s[i].id@ == id;
            assert(s2[i].id@ == id);
            assert(has_id(s2, id));
        }
    }
    assert(records_view(s2) =~= records_view(s).insert(r.id@, r.model())) by {
        assert forall|id: Seq<char>| records_view(s2).contains_key(id) implies
            records_view(s2)[id] == records_view(s).insert(r.id@, r.model())[id] by {
            if id == r.id@ {
                lemma_idx_of(s2, k);
                assert(records_view(s2)[id] == s2[k].model());
            } else {
                let i = idx_of(s, id);
                assert(has_id(s, id));
                assert(0 <= i < s.len() && s[i].id@ == id);
                assert(i != k);
                lemma_idx_of(s2, i);
                assert(s2[i] == s[i]);
                lemma_idx_of(s, i);
            }
        }
    }
}

proof fn lemma_remove_entry<C>(s: Seq<SessionRecord<C>>, k: int)
    requires
        records_wf(s),
        0 <= k < s.len(),
    ensures
        records_wf(s.remove(k)),
        records_view(s.remove(k)) == records_view(s).remove(s[k].id@),
{
    let s2 = s.remove(k);
    assert forall|i: int, j: int|
        0 <= i < s2.len() && 0 <= j < s2.len() && i != j implies s2[i].id@ != s2[j].id@ by {
        let i0: int = if i < k { i } else { i + 1 };
        let j0: int = if j < k { j } else { j + 1 };
        assert(s2[i] == s[i0] && s2[j] == s[j0]);
    }
    assert forall|id: Seq<char>|
        #[trigger] has_id(s2, id) == (has_id(s, id) && id != s[k].id@) by {
        if has_id(s2, id) {
            let i = choose|i: int| 0 <= i < s2.len() && s2[i].id@ == id;
            let i0: int = if i < k { i } else { i + 1 };
            assert(s2[i] == s[i0]);
            assert(has_id(s, id));
            assert(i0 != k);
            assert(id != s[k].id@);
        }
        if has_id(s, id) && id != s[k].id@ {
            let i = choose|i: int| 0 <= i < s.len() && s[i].id@ == id;
            assert(i != k);
            let i2: int = if i < k { i } else { i - 1 };
            assert(s2[i2] == s[i]);
            assert(has_id(s2, id));
        }
    }
    assert(records_view(s2) =~= records_view(s).remove(s[k].id@)) by {
        assert forall|id: Seq<char>| records_view(s2).contains_key(id) implies
            records_view(s2)[id] == records_view(s).remove(s[k].id@)[id] by {
            let i = idx_of(s2, id);
            assert(0 <= i < s2.len() && s2[i].id@ == id);
            let i0: int = if i < k { i } else { i + 1 };
            assert(s2[i] == s[i0]);
            lemma_idx_of(s2, i);
            lemma_idx_of(s, i0);
            assert(records_view(s2)[id] == s2[i].model());
            assert(records_view(s)[id] == s[i0].model());
        }
    }
}

/// What one turn of a session's event loop did.
///
/// Each turn serves the oldest pending control command if there is one,
/// and otherwise polls the transport for inbound data, racing the two
/// sources the way the live loop does.
pub enum StepEvent {
    /// The identifier is not registered.
    NotFound,
    /// The session is registered but its event loop has already ended
    /// (its transport broke); only `stop_connection` can reap it.
    Ended,
    /// The oldest pending write was forwarded to the transport. A write
    /// failure is not fatal to the session and is swallowed here.
    Wrote,
    /// A stop command was served: the transport was disconnected and the
    /// event loop ended.
    Stopped,
    /// The transport had no data; nothing changed.
    Idle,
    /// The transport yielded this chunk, which was broadcast to every
    /// subscriber of the session.
    Received(Vec<u8>),
    /// The transport failed to read: the transport was disconnected and
    /// the event loop ended. The registry entry stays until `stop`.
    Failed,
}

/// A capability pairing one session identifier with the right to write
/// to it and stop it. Stopping consumes the handle.
#[derive(Debug, Clone)]
pub struct ConnectionHandle {
    id: String,
}

/// An independent subscription to one session's broadcast plane.
///
/// Each subscription owns its own delivery queue inside the manager;
/// receiving on one subscription never consumes another subscriber's
/// copy of a chunk.
#[derive(Debug)]
pub struct Subscription {
    id: String,
    slot: usize,
}

impl Subscription {
    /// The identifier of the session this subscription listens to.
    pub closed spec fn session_id(&self) -> Seq<char> {
        self.id@
    }

    /// The index of this subscription's delivery queue within the
    /// session.
    pub closed spec fn slot_spec(&self) -> int {
        self.slot as int
    }
}

/// Manages multiple connections concurrently.
///
/// The registry maps each identifier to its session record; the record
/// owns the transport outright, so no caller ever touches a transport
/// directly — all interaction goes through the manager (or a
/// `ConnectionHandle`). The manager's abstract state is a
/// `RegistryModel`; every operation's contract says exactly which
/// transition of the model it performs.
pub struct ConnectionManager<C> {
    sessions: Vec<SessionRecord<C>>,
}

impl<C> View for ConnectionManager<C> {
    type V = RegistryModel;

    closed spec fn view(&self) -> RegistryModel {
        records_view(self.sessions@)
    }
}

impl<C> ConnectionManager<C> {
    /// Registered identifiers are unique: the registry holds at most one
    /// live session per identifier.
    pub closed spec fn wf(&self) -> bool {
        records_wf(self.sessions@)
    }

    /// Create an empty manager.
    pub fn new() -> (r: Self)
        ensures
            r.wf(),
            r@ == Map::<Seq<char>, SessionModel>::empty(),
    {
        let r = ConnectionManager { sessions: Vec::new() };
        proof {
            assert(r@ =~= Map::<Seq<char>, SessionModel>::empty());
        }
        r
    }
}

impl<C> Default for ConnectionManager<C> {
    fn default() -> (r: Self)
        ensures
            r.wf(),
            r@ == Map::<Seq<char>, SessionModel>::empty(),
    {
        Self::new()
    }
}

impl<C: Connection> ConnectionManager<C> {
    /// The index of the record registered under `id`, if any.
    fn find_index(&self, id: &str) -> (r: Option<usize>)
        ensures
            (r matches Some(i) ==> i < self.sessions@.len() && self.sessions@[i as int].id@
                == id@),
            (r is None ==> !has_id(self.sessions@, id@)),
    {
        let key: String = id.to_owned();
        let n: usize = self.sessions.len();
        let mut i: usize = 0;
        while i < n
            invariant
                i <= n,
                n == self.sessions@.len(),
                key@ == id@,
                forall|j: int| 0 <= j < i ==> self.sessions@[j].id@ != id@,
            decreases n - i,
        {
            if self.sessions[i].id == key {
                return Some(i);
            }
            i = i + 1;
        }
        None
    }

    /// Adds a new connection to the manager.
    ///
    /// - `id`: a unique identifier (e.g. port name or host)
    /// - `conn`: a *not-yet-connected* transport
    ///
    /// The manager takes ownership of the transport, rejects the
    /// registration outright if the identifier is already live, and
    /// otherwise connects the transport. On connect failure the error is
    /// returned and nothing is registered (no orphaned session). On
    /// success a fresh session record is installed and a handle for the
    /// session is returned.
    pub fn add_connection(&mut self, id: String, conn: C) -> (r: Result<
        ConnectionHandle,
        ConnectionError,
    >)
        requires
            old(self).wf(),
        ensures
            final(self).wf(),
            (r matches Ok(h) ==> !old(self)@.contains_key(id@) && h.id_spec() == id@
                && final(self)@ == register_transition(old(self)@, id@)),
            (r is Err ==> final(self)@ == old(self)@),
            (old(self)@.contains_key(id@) ==> (r matches Err(e) && e matches
                ConnectionError::Other(m) && m@ == already_registered_msg(id@))),
    {
        match self.find_index(id.as_str()) {
            Some(i) => {
                proof {
                    lemma_view_entry(self.sessions@, i as int);
                }
                Err(ConnectionError::Other(make_already_registered_msg(id.as_str())))
            },
            None => {
                let mut conn = conn;
                match conn.connect() {
                    Err(e) => Err(e),
                    Ok(_) => {
                        let handle_id = id.clone();
                        let record = SessionRecord {
                            id,
                            conn,
                            running: true,
                            control: Vec::new(),
                            subs: Vec::new(),
                        };
                        proof {
                            lemma_push_entry(self.sessions@, record);
                            assert(record.model().control
                                =~= Seq::<CommandModel>::empty());
                            assert(record.model().subs
                                =~= Seq::<Seq<Seq<u8>>>::empty());
                            assert(record.model() == fresh_session());
                        }
                        self.sessions.push(record);
                        Ok(ConnectionHandle { id: handle_id })
                    },
                }
            },
        }
    }

    /// Subscribe to the byte stream of a connection.
    ///
    /// Returns a new independent subscription, or `None` if the
    /// identifier is absent. A new subscription starts with an empty
    /// delivery queue: it observes only chunks broadcast from this point
    /// forward.
    pub fn subscribe(&mut self, id: &str) -> (r: Option<Subscription>)
        requires
            old(self).wf(),
        ensures
            final(self).wf(),
            final(self)@ == subscribe_transition(old(self)@, id@),
            (r is Some <==> subscribe_succeeds(old(self)@, id@)),
            (r matches Some(sub) ==> sub.session_id() == id@
                && sub.slot_spec() == old(self)@[id@].subs.len()),
    {
        match self.find_index(id) {
            None => {
                None
            },
            Some(i) => {
                proof {
                    lemma_view_entry(self.sessions@, i as int);
                }
                let ghost old_records = self.sessions@;
                let mut record = self.sessions.remove(i);
                let slot: usize = record.subs.len();
                record.subs.push(Vec::new());
                proof {
                    assert(record.subs.deep_view()
                        =~~= old_records[i as int].subs.deep_view().push(Seq::<Seq<u8>>::empty()));
                    assert(record.model() == (SessionModel {
                        subs: old_records[i as int].model().subs.push(Seq::empty()),
                        ..old_records[i as int].model()
                    }));
                }
                self.sessions.insert(i, record);
                proof {
                    assert(self.sessions@ =~= old_records.update(i as int, record));
                    lemma_update_entry(old_records, i as int, record);
                }
                Some(Subscription { id: id.to_owned(), slot })
            },
        }
    }

    /// Write bytes to a specific connection by ID.
    ///
    /// The bytes are queued as a `Write` command on the session's control
    /// plane; the call reports the full byte count as soon as the command
    /// is accepted, before the transport has necessarily flushed it.
    /// Writes are forwarded to the transport in acceptance order. The
    /// call fails when the identifier is absent, or when the session's
    /// event loop has already ended ("channel closed").
    pub fn write_bytes(&mut self, id: &str, data: &[u8]) -> (r: Result<usize, ConnectionError>)
        requires
            old(self).wf(),
        ensures
            final(self).wf(),
            final(self)@ == write_transition(old(self)@, id@, data@),
            (write_accepted(old(self)@, id@) ==> r == Ok::<usize, ConnectionError>(
                data@.len() as usize,
            )),
            (!old(self)@.contains_key(id@) ==> (r matches Err(e) && e matches
                ConnectionError::Other(m) && m@ == not_found_msg(id@))),
            (old(self)@.contains_key(id@) && !old(self)@[id@].running ==> (r matches Err(e)
                && e matches ConnectionError::Other(m) && m@ == "Channel closed"@)),
    {
        match self.find_index(id) {
            None => {
                Err(ConnectionError::Other(make_not_found_msg(id)))
            },
            Some(i) => {
                proof {
                    lemma_view_entry(self.sessions@, i as int);
                }
                if !self.sessions[i].running {
                    Err(ConnectionError::Other("Channel closed".to_owned()))
                } else {
                    let ghost old_records = self.sessions@;
                    let mut record = self.sessions.remove(i);
                    let event = IoEvent::Write(slice_to_vec(data));
                    record.control.push(event);
                    proof {
                        assert(control_models(record.control@)
                            =~= control_models(old_records[i as int].control@).push(
                            CommandModel::Write(data@),
                        ));
                        assert(record.subs.deep_view()
                            =~= old_records[i as int].subs.deep_view());
                    }
                    self.sessions.insert(i, record);
                    proof {
                        assert(self.sessions@ =~= old_records.update(i as int, record));
                        lemma_update_entry(old_records, i as int, record);
                    }
                    Ok(data.len())
                }
            },
        }
    }

    /// Stop a connection.
    ///
    /// The session is removed from the registry and torn down as one
    /// step: pending writes are flushed to the transport, the transport
    /// is disconnected, and only then does the call return — after
    /// `stop_connection` returns, no further reads, writes or broadcasts
    /// happen for this identifier. A session whose event loop already
    /// ended disconnected its transport back then, exactly once at loop
    /// exit, so stopping it only removes the record. A second stop on
    /// the same identifier fails with "not found", because the record is
    /// already gone.
    pub fn stop_connection(&mut self, id: &str) -> (r: Result<(), ConnectionError>)
        requires
            old(self).wf(),
        ensures
            final(self).wf(),
            (stop_succeeds(old(self)@, id@) ==> r is Ok
                && final(self)@ == stop_transition(old(self)@, id@)),
            (!stop_succeeds(old(self)@, id@) ==> final(self)@ == old(self)@
                && (r matches Err(e) && e matches ConnectionError::Other(m)
                && m@ == not_found_msg(id@))),
    {
        match self.find_index(id) {
            None => {
                Err(ConnectionError::Other(make_not_found_msg(id)))
            },
            Some(i) => {
                proof {
                    lemma_view_entry(self.sessions@, i as int);
                    lemma_remove_entry(self.sessions@, i as int);
                }
                let mut record = self.sessions.remove(i);
                if record.running {
                    // Queue a stop command and drain the control plane
                    // the way the event loop would: pending writes are
                    // forwarded in order (write failures are not fatal),
                    // and the stop command disconnects the transport and
                    // ends the loop.
                    record.control.push(IoEvent::Stop);
                    while record.control.len() > 0
                        invariant_except_break
                            record.control@.len() > 0,
                            record.control@.last() is Stop,
                        decreases record.control@.len(),
                    {
                        let event = record.control.remove(0);
                        match event {
                            IoEvent::Write(d) => {
                                let _ = record.conn.write(d.as_slice());
                            },
                            IoEvent::Stop => {
                                let _ = record.conn.disconnect();
                                break;
                            },
                        }
                    }
                }
                // A session whose event loop already ended disconnected
                // its transport at loop exit; it is only reaped here.
                Ok(())
            },
        }
    }

    /// Run one turn of the event loop of session `id`.
    ///
    /// The oldest pending control command is served first: a write is
    /// forwarded to the transport (a write failure is logged by the
    /// caller at most — it never ends the session), a stop disconnects
    /// the transport and ends the loop. With no pending command the
    /// transport is polled: a non-empty chunk is broadcast to every
    /// subscriber, an empty chunk means nothing happened, and a read
    /// error ends the session for good (the transport is disconnected and
    /// the record waits for `stop_connection` to reap it). Sessions other
    /// than `id` are never touched.
    pub fn step_session(&mut self, id: &str) -> (r: StepEvent)
        requires
            old(self).wf(),
        ensures
            final(self).wf(),
            (!old(self)@.contains_key(id@) ==> r is NotFound && final(self)@ == old(self)@),
            (old(self)@.contains_key(id@) && !old(self)@[id@].running ==> r is Ended
                && final(self)@ == old(self)@),
            (old(self)@.contains_key(id@) && old(self)@[id@].running
                && old(self)@[id@].control.len() > 0 ==> {
                &&& final(self)@ == pop_command_transition(old(self)@, id@)
                &&& (old(self)@[id@].control[0] matches CommandModel::Write(_) <==> r is Wrote)
                &&& (old(self)@[id@].control[0] is Stop <==> r is Stopped)
            }),
            (old(self)@.contains_key(id@) && old(self)@[id@].running
                && old(self)@[id@].control.len() == 0 ==> {
                &&& (r is Idle ==> final(self)@ == old(self)@)
                &&& (r matches StepEvent::Received(c) ==> c@.len() > 0
                    && final(self)@ == deliver_transition(old(self)@, id@, c@))
                &&& (r is Failed ==> final(self)@ == terminate_transition(old(self)@, id@))
                &&& (r is Idle || r matches StepEvent::Received(_) || r is Failed)
            }),
    {
        match self.find_index(id) {
            None => {
                StepEvent::NotFound
            },
            Some(i) => {
                proof {
                    lemma_view_entry(self.sessions@, i as int);
                }
                if !self.sessions[i].running {
                    StepEvent::Ended
                } else {
                    let ghost old_records = self.sessions@;
                    let mut record = self.sessions.remove(i);
                    if record.control.len() > 0 {
                        let event = record.control.remove(0);
                        proof {
                            assert(control_models(record.control@)
                                =~= control_models(old_records[i as int].control@).drop_first());
                        }
                        let outcome = match event {
                            IoEvent::Write(d) => {
                                let _ = record.conn.write(d.as_slice());
                                StepEvent::Wrote
                            },
                            IoEvent::Stop => {
                                let _ = record.conn.disconnect();
                                record.running = false;
                                StepEvent::Stopped
                            },
                        };
                        proof {
                            assert(record.subs.deep_view()
                                =~= old_records[i as int].subs.deep_view());
                        }
                        self.sessions.insert(i, record);
                        proof {
                            assert(self.sessions@ =~= old_records.update(i as int, record));
                            lemma_update_entry(old_records, i as int, record);
                        }
                        outcome
                    } else {
                        let outcome = match record.conn.read() {
                            Err(_) => {
                                let _ = record.conn.disconnect();
                                record.running = false;
                                StepEvent::Failed
                            },
                            Ok(chunk) => {
                                if chunk.len() == 0 {
                                    StepEvent::Idle
                                } else {
                                    broadcast_chunk(&mut record.subs, &chunk);
                                    StepEvent::Received(chunk)
                                }
                            },
                        };
                        proof {
                            assert(control_models(record.control@)
                                =~= control_models(old_records[i as int].control@));
                        }
                        self.sessions.insert(i, record);
                        proof {
                            assert(self.sessions@ =~= old_records.update(i as int, record));
                            lemma_update_entry(old_records, i as int, record);
                        }
                        outcome
                    }
                }
            },
        }
    }

    /// Take the oldest undelivered chunk from one subscription's queue.
    ///
    /// Returns `None` when the subscription has nothing pending — either
    /// no data has been broadcast since the last receive, or the session
    /// is gone. Other subscribers' queues are never touched.
    pub fn recv(&mut self, sub: &Subscription) -> (r: Option<Vec<u8>>)
        requires
            old(self).wf(),
        ensures
            final(self).wf(),
            final(self)@ == recv_transition(old(self)@, sub.session_id(), sub.slot_spec()),
            (r matches Some(c) <==> recv_ready(old(self)@, sub.session_id(), sub.slot_spec())),
            (r matches Some(c) ==> c@ == recv_chunk(old(self)@, sub.session_id(),
                sub.slot_spec())),
    {
        match self.find_index(sub.id.as_str()) {
            None => {
                None
            },
            Some(i) => {
                proof {
                    lemma_view_entry(self.sessions@, i as int);
                }
                if sub.slot >= self.sessions[i].subs.len() {
                    None
                } else {
                    let ghost old_records = self.sessions@;
                    let mut record = self.sessions.remove(i);
                    let mut queue = record.subs.remove(sub.slot);
                    if queue.len() == 0 {
                        record.subs.insert(sub.slot, queue);
                        proof {
                            assert(record.subs@ =~= old_records[i as int].subs@);
                            assert(record.subs.deep_view()
                                =~= old_records[i as int].subs.deep_view());
                        }
                        self.sessions.insert(i, record);
                        proof {
                            assert(self.sessions@ =~= old_records.update(i as int, record));
                            lemma_update_entry(old_records, i as int, record);
                            assert(final(self)@ =~= old(self)@);
                        }
                        None
                    } else {
                        let chunk = queue.remove(0);
                        record.subs.insert(sub.slot, queue);
                        proof {
                            assert(record.subs.deep_view()
                                =~~= old_records[i as int].subs.deep_view().update(
                                sub.slot as int,
                                old_records[i as int].subs.deep_view()[sub.slot as int].drop_first(),
                            ));
                        }
                        self.sessions.insert(i, record);
                        proof {
                            assert(self.sessions@ =~= old_records.update(i as int, record));
                            lemma_update_entry(old_records, i as int, record);
                        }
                        Some(chunk)
                    }
                }
            },
        }
    }
}

/// Broadcast one chunk to every subscriber queue: each queue gets its own
/// copy of the chunk; a queue already at capacity drops its oldest chunk
/// to make room, so a lagging subscriber observes a gap rather than
/// blocking the session.
fn broadcast_chunk(subs: &mut Vec<Vec<Vec<u8>>>, chunk: &Vec<u8>)
    ensures
        final(subs).deep_view() == broadcast_push(old(subs).deep_view(), chunk@),
{
    let n: usize = subs.len();
    let mut j: usize = 0;
    while j < n
        invariant
            j <= n,
            n == subs@.len(),
            subs@.len() == old(subs)@.len(),
            forall|k: int| 0 <= k < j ==> subs@[k].deep_view()
                == queue_after_delivery(old(subs)@[k].deep_view(), chunk@),
            forall|k: int| j <= k < n ==> subs@[k] == old(subs)@[k],
        decreases n - j,
    {
        let ghost before = subs@;
        let mut queue = subs.remove(j);
        if queue.len() >= BROADCAST_CAPACITY {
            let _ = queue.remove(0);
        }
        queue.push(slice_to_vec(chunk.as_slice()));
        proof {
            assert(queue.deep_view()
                =~~= queue_after_delivery(before[j as int].deep_view(), chunk@));
        }
        subs.insert(j, queue);
        proof {
            assert(subs@ =~= before.update(j as int, queue));
        }
        j = j + 1;
    }
    proof {
        assert(final(subs).deep_view() =~= broadcast_push(old(subs).deep_view(), chunk@));
    }
}

impl ConnectionHandle {
    /// The identifier this handle is bound to.
    pub closed spec fn id_spec(&self) -> Seq<char> {
        self.id@
    }

    /// Write bytes using this handle: a pure delegation to the
    /// manager's `write_bytes` on the bound identifier, with the same
    /// result in every case.
    pub fn write_bytes<C: Connection>(
        &self,
        manager: &mut ConnectionManager<C>,
        data: &[u8],
    ) -> (r: Result<usize, ConnectionError>)
        requires
            old(manager).wf(),
        ensures
            final(manager).wf(),
            final(manager)@ == write_transition(old(manager)@, self.id_spec(), data@),
            (write_accepted(old(manager)@, self.id_spec()) ==> r == Ok::<
                usize,
                ConnectionError,
            >(data@.len() as usize)),
            (!old(manager)@.contains_key(self.id_spec()) ==> (r matches Err(e)
                && e matches ConnectionError::Other(m)
                && m@ == not_found_msg(self.id_spec()))),
            (old(manager)@.contains_key(self.id_spec())
                && !old(manager)@[self.id_spec()].running ==> (r matches Err(e)
                && e matches ConnectionError::Other(m) && m@ == "Channel closed"@)),
    {
        manager.write_bytes(self.id.as_str(), data)
    }

    /// Stop the session this handle is bound to: a pure delegation to
    /// the manager's `stop_connection` on the bound identifier, with the
    /// same result in every case. The handle is consumed: a session
    /// cannot be stopped twice through the same handle.
    pub fn stop<C: Connection>(self, manager: &mut ConnectionManager<C>) -> (r: Result<
        (),
        ConnectionError,
    >)
        requires
            old(manager).wf(),
        ensures
            final(manager).wf(),
            (stop_succeeds(old(manager)@, self.id_spec()) ==> r is Ok
                && final(manager)@ == stop_transition(old(manager)@, self.id_spec())),
            (!stop_succeeds(old(manager)@, self.id_spec()) ==> final(manager)@
                == old(manager)@ && (r matches Err(e)
                && e matches ConnectionError::Other(m)
                && m@ == not_found_msg(self.id_spec()))),
    {
        manager.stop_connection(self.id.as_str())
    }
}

} // verus!
