//! A verified core for a per-user runtime version manager: semantic version
//! triples with strict parsing and a total order, the cached manifest of
//! known versions, the registry of installed versions, the default-version
//! pointer, and the install pipeline as a state machine whose decisions are
//! all proved.
//!
//! Filesystem, network and child-process work stays outside: callers hand
//! in plain values (directory entry names, file contents, downloaded bytes,
//! exit codes) and perform the actions the library decides on.

pub mod config;
pub mod error;
pub mod manifest;
pub mod pipeline;
pub mod store;
pub mod text;
pub mod version;
