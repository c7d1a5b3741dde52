//! A replicated key/value store built on the Raft storage interface.
//!
//! The verified core of the store: the log of entries indexed by position, the key/value
//! state machine that entries are applied to, votes and snapshots, together with the
//! decisions of the client that forwards requests to the current leader.
pub mod ids;
pub mod text;
pub mod membership;
pub mod kv;
pub mod entry;
pub mod state_machine;
pub mod log;
pub mod snapshot;
pub mod store;
pub mod network;
pub mod client;
pub mod options;
pub mod node;
