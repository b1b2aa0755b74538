//! Persisted connection presets: the preset data model and the naming
//! scheme of the on-disk store. The file reading and writing itself is
//! the business of the shell around this crate.

pub mod profile;
pub mod store;
