//! A deterministic in-process stand-in for a transport.
//!
//! The fake serves a script of inbound chunks, front first, exactly as a
//! device would hand them to `read`, and records every chunk the session
//! writes. It lets tests and proofs exercise the real broker machinery
//! (registry, control queue, broadcast fan-out) without opening a serial
//! port or a network socket.

use vstd::prelude::*;
use vstd::slice::slice_to_vec;
use crate::connections::connection::Connection;
use crate::connections::errors::ConnectionError;

verus! {

/// A scripted transport double.
///
/// `inbound` holds the chunks still to be served by `read`; once the
/// script runs out, `read` reports "no data" forever, or fails once and
/// for all when `fail_when_exhausted` is set (to rehearse a transport
/// that breaks down). `write_history` keeps every chunk written, for
/// assertions.
pub struct FakeConnection {
    pub inbound: Vec<Vec<u8>>,
    pub write_history: Vec<Vec<u8>>,
    pub connected: bool,
    pub disconnected: bool,
    pub fail_when_exhausted: bool,
}

impl FakeConnection {
    /// A fake with an empty script: it reports "no data" on every read.
    pub fn new() -> (r: FakeConnection)
        ensures
            r.inbound@ =~= Seq::<Vec<u8>>::empty(),
            r.write_history@ =~= Seq::<Vec<u8>>::empty(),
            !r.connected,
            !r.disconnected,
            !r.fail_when_exhausted,
    {
        FakeConnection {
            inbound: Vec::new(),
            write_history: Vec::new(),
            connected: false,
            disconnected: false,
            fail_when_exhausted: false,
        }
    }

    /// Append one chunk to the script of inbound data.
    pub fn push_incoming(&mut self, chunk: Vec<u8>)
        ensures
            final(self).inbound@ == old(self).inbound@.push(chunk),
            final(self).write_history == old(self).write_history,
            final(self).connected == old(self).connected,
            final(self).disconnected == old(self).disconnected,
            final(self).fail_when_exhausted == old(self).fail_when_exhausted,
    {
        self.inbound.push(chunk);
    }

    /// Make `read` fail once the script is exhausted, the way a dying
    /// transport would, instead of reporting "no data".
    pub fn fail_when_exhausted(&mut self)
        ensures
            final(self).fail_when_exhausted,
            final(self).inbound == old(self).inbound,
            final(self).write_history == old(self).write_history,
            final(self).connected == old(self).connected,
            final(self).disconnected == old(self).disconnected,
    {
        self.fail_when_exhausted = true;
    }
}

impl Connection for FakeConnection {
    /// Connecting always succeeds and only flips the `connected` marker.
    fn connect(&mut self) -> (r: Result<(), ConnectionError>)
        ensures
            r is Ok,
            *final(self) == (FakeConnection { connected: true, ..*old(self) }),
    {
        self.connected = true;
        Ok(())
    }

    /// Disconnecting always succeeds and only flips the `disconnected`
    /// marker.
    fn disconnect(&mut self) -> (r: Result<(), ConnectionError>)
        ensures
            r is Ok,
            *final(self) == (FakeConnection { disconnected: true, ..*old(self) }),
    {
        self.disconnected = true;
        Ok(())
    }

    /// Writing records the chunk and reports the full count, like a
    /// device that always drains what it is handed.
    fn write(&mut self, data: &[u8]) -> (r: Result<usize, ConnectionError>)
        ensures
            r == Ok::<usize, ConnectionError>(data@.len() as usize),
            final(self).write_history@.len() == old(self).write_history@.len() + 1,
            final(self).write_history@.last()@ == data@,
            forall|i: int| 0 <= i < old(self).write_history@.len()
                ==> final(self).write_history@[i] == old(self).write_history@[i],
            final(self).inbound == old(self).inbound,
            final(self).connected == old(self).connected,
            final(self).disconnected == old(self).disconnected,
            final(self).fail_when_exhausted == old(self).fail_when_exhausted,
    {
        let n: usize = data.len();
        let copy = slice_to_vec(data);
        self.write_history.push(copy);
        Ok(n)
    }

    /// Reading serves the next scripted chunk. An exhausted script means
    /// "no data now" (an empty chunk), unless the fake was told to fail
    /// when exhausted.
    fn read(&mut self) -> (r: Result<Vec<u8>, ConnectionError>)
        ensures
            old(self).inbound@.len() > 0 ==> {
                &&& r matches Ok(c) && c == old(self).inbound@[0]
                &&& final(self).inbound@ == old(self).inbound@.drop_first()
            },
            old(self).inbound@.len() == 0 && !old(self).fail_when_exhausted ==> {
                &&& r matches Ok(c) && c@ == Seq::<u8>::empty()
                &&& final(self).inbound == old(self).inbound
            },
            old(self).inbound@.len() == 0 && old(self).fail_when_exhausted ==> {
                &&& r is Err
                &&& final(self).inbound == old(self).inbound
            },
            final(self).write_history == old(self).write_history,
            final(self).connected == old(self).connected,
            final(self).disconnected == old(self).disconnected,
            final(self).fail_when_exhausted == old(self).fail_when_exhausted,
    {
        if self.inbound.len() > 0 {
            let chunk = self.inbound.remove(0);
            Ok(chunk)
        } else if self.fail_when_exhausted {
            Err(ConnectionError::Other("no more scripted data".to_owned()))
        } else {
            Ok(Vec::new())
        }
    }
}

} // verus!
