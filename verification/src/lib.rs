//! A multi-transport terminal connection broker.
//!
//! The crate owns interactive byte-stream sessions over pluggable
//! transports (serial lines, SSH shells, deterministic in-memory doubles)
//! and lets independent consumers read from and write to each session
//! while keeping start and shutdown race free.
//!
//! The heart is the `ConnectionManager`: a registry of live sessions, each
//! with a control queue of pending commands and a broadcast plane that fans
//! received chunks out to every subscriber. All registry and queue
//! behaviour is specified against a mathematical model (a map from
//! identifier to session model) and verified.

pub mod connections;
pub mod model;
pub mod connection_manager;
pub mod laws;
pub mod storage;
pub mod cli;

pub use connections::connection::Connection;
pub use connections::errors::ConnectionError;
pub use connection_manager::ConnectionManager;
pub use storage::profile::Profile;
pub use storage::store::ProfileStore;
