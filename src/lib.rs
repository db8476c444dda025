//! Transaction coordinator core of a range-sharded key-value store.
//!
//! The library holds the decisions of a transaction: its state machine,
//! the per-range read/write/delete buffers, leader-epoch pinning and the
//! outcome of two-phase commit. Network calls are made by the caller, who
//! hands their results to the methods of [`transaction::Transaction`].
pub mod buffers;
pub mod error;
pub mod ids;
pub mod indexed;
pub mod laws;
pub mod model;
pub mod participant;
pub mod rpc;
pub mod transaction;
