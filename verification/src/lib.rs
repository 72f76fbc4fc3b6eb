//! Verified core of a sharded in-memory key-value server.
//!
//! The store maps text keys to opaque byte values. It is split into a
//! fixed number of shards; a deterministic hash routes every key to
//! exactly one shard. A dispatcher interprets decoded commands (a
//! write or a read of one key) against the store, and a small state machine drives one
//! connection's request/response loop. Byte-level framing and the
//! network itself live outside this crate.

pub mod command;
pub mod conn;
pub mod route;
pub mod shard;
pub mod shared;
pub mod store;
