//! Storage backends of the job queue.
//!
//! - [`ExecuteOutcome`]: what a storage reports after it was asked for one job
//! - [`MemoryStorage`]: an in-memory FIFO storage
//! - [`StorageList`]: the storages that the workers of one queue poll

use vstd::prelude::*;

pub mod erased;
pub mod memory;

pub use erased::StorageList;
pub use memory::MemoryStorage;

verus! {

/// Outcome of attempting to execute one job from storage.
#[derive(Debug, Clone, Copy, PartialEq, Eq, Structural)]
pub enum ExecuteOutcome {
    /// One job was executed, whether it succeeded or failed.
    Executed,
    /// No job was available.
    Empty,
}

} // verus!
