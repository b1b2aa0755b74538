//! The polymorphic capability that every transport adapter implements.

use vstd::prelude::*;
use crate::connections::errors::ConnectionError;

verus! {

/// A trait representing a generic connection (serial, SSH, etc.).
///
/// A connection object starts out not connected; `connect` establishes the
/// transport and must leave the object unusable on failure. `disconnect`
/// is an idempotent teardown. `write` hands outgoing bytes to the
/// transport and reports how many were taken. `read` returns the next
/// inbound chunk; an empty chunk means "no data right now", not end of
/// stream, and an error means the transport is broken for good.
///
/// Once a connection is registered with a manager it is owned exclusively
/// by that session; no other component calls these operations directly.
///
/// No behaviour is promised at the trait level: what each operation
/// guarantees is stated (and, for the adapters of this crate, verified) on
/// the implementing type.
pub trait Connection {
    fn connect(&mut self) -> Result<(), ConnectionError>;

    fn disconnect(&mut self) -> Result<(), ConnectionError>;

    fn write(&mut self, data: &[u8]) -> Result<usize, ConnectionError>;

    fn read(&mut self) -> Result<Vec<u8>, ConnectionError>;
}

} // verus!
