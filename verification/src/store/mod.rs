//! Mergeable registers, tombstones and the store that keeps them.

pub mod clock_laws;
pub mod compaction_laws;
pub mod error;
pub mod frontier;
pub mod gc;
pub mod merkle;
pub mod mst_store;
pub mod mvreg;
pub mod mvreg_laws;
pub mod order;
pub mod snapshot_laws;
pub mod tables;
pub mod tombstone;
pub mod vector_clock;
