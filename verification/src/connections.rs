//! The transport side of the broker: the `Connection` capability that every
//! transport adapter implements, the error taxonomy shared by all
//! connection operations, and a deterministic in-memory transport double.

pub mod connection;
pub mod errors;
pub mod fake;
