//! The error taxonomy for connection operations.

use vstd::prelude::*;
use vstd::string::StringExecFns;

verus! {

/// A central error enum for connection-related errors.
///
/// `IoError` carries the description of a transport I/O failure,
/// `PortError` a serial-port specific failure, and `Other` every remaining
/// condition (an unknown identifier, a closed control plane, a rejected
/// registration).
#[derive(Debug, PartialEq, Eq)]
pub enum ConnectionError {
    IoError(String),
    PortError(String),
    Other(String),
}

impl ConnectionError {
    /// The full human-readable description of the error: a category
    /// prefix for the variant, then the carried message.
    pub open spec fn message_spec(&self) -> Seq<char> {
        match self {
            ConnectionError::IoError(m) => "IO error: "@ + m@,
            ConnectionError::PortError(m) => "Port error: "@ + m@,
            ConnectionError::Other(m) => "Other error: "@ + m@,
        }
    }

    /// Render the error as a display string.
    pub fn message(&self) -> (r: String)
        ensures
            r@ == self.message_spec(),
    {
        match self {
            ConnectionError::IoError(m) => "IO error: ".to_owned().concat(m.as_str()),
            ConnectionError::PortError(m) => "Port error: ".to_owned().concat(m.as_str()),
            ConnectionError::Other(m) => "Other error: ".to_owned().concat(m.as_str()),
        }
    }
}

/// The message carried by the rejection of a registration whose
/// identifier is already live: duplicate identifiers never silently
/// replace a running session.
pub open spec fn already_registered_msg(id: Seq<char>) -> Seq<char> {
    "Connection id '"@ + id + "' is already registered"@
}

/// Build the duplicate-registration message for a concrete identifier.
pub fn make_already_registered_msg(id: &str) -> (r: String)
    ensures
        r@ == already_registered_msg(id@),
{
    "Connection id '".to_owned().concat(id).concat("' is already registered")
}

/// The message carried by the error that every operation on an absent
/// identifier returns.
pub open spec fn not_found_msg(id: Seq<char>) -> Seq<char> {
    "No connection with id '"@ + id + "'"@
}

/// Build the not-found message for a concrete identifier.
pub fn make_not_found_msg(id: &str) -> (r: String)
    ensures
        r@ == not_found_msg(id@),
{
    "No connection with id '".to_owned().concat(id).concat("'")
}

} // verus!
