//! Task lifecycle coordination for a fleet of worker nodes that share a
//! strongly consistent key-value store.
//!
//! The crate holds the data model, the binary key layout, the transactions
//! that move a task between states under optimistic concurrency, and the
//! decisions of the per-node worker pool, the HTTP surface and the client.
//! Network and store I/O are left to the caller: every function here maps
//! plain values to plain values.

pub mod api;
pub mod cli;
pub mod client;
pub mod kv;
pub mod name;
pub mod ops;
pub mod protocol;
pub mod task;
pub mod time;
pub mod worker;
