//! The orchestration core of a mining-pool proxy: a registry of worker
//! records, job distribution, and the share-validation pipeline.
//!
//! The crate opens no socket and starts no thread. Its caller reads what
//! workers and the upstream send, puts it into the records kept here, asks
//! the [`pool::Pool`] to act on it, and sends what the pool has queued.
//! [`schedule`] says in which order and with which pauses.
//!
//! Proofs of work are checked by `grin_core`, on main-network consensus
//! parameters; checking a share selects them for the calling thread.

pub mod duplicates;
pub mod grin;
pub mod header;
pub mod job;
pub mod pipeline;
pub mod pool;
pub mod promotion;
pub mod registry;
pub mod schedule;
pub mod share;
pub mod worker;
