//! Core of a consensus worker for a multi-threaded block DAG.
//!
//! The library holds the decision logic of the worker: slot-clock
//! arithmetic, the deterministic leader selector, the bookkeeping of the
//! block-creation fill loop, wishlist deltas and final-period updates.
//! I/O with the collaborators (block graph, pool, protocol, storage) is
//! performed by the embedding, which feeds their answers back in as plain
//! values.

pub mod block;
pub mod block_creation;
pub mod error;
pub mod selector;
pub mod config;
pub mod slot;
pub mod timeslots;
pub mod worker;
