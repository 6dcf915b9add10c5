//! A storage-agnostic job queue: the verified core.
//!
//! The library holds the parts of the queue that decide: the builder and its
//! validation, the in-memory FIFO storage, the list of storages that workers
//! poll, the step function that drives one worker, and the bookkeeping of a
//! graceful shutdown, with laws on what becomes of the jobs the storages
//! hold (`delivery`). Running workers on an async runtime is left to the
//! caller, which performs the action each step asks for and reports back.

pub mod delivery;
pub mod duration;
pub mod error;
pub mod queue;
pub mod storage;
pub mod worker;

pub use duration::Duration;
pub use error::JobQueueError;
pub use queue::{JobQueueBuilder, JobQueueConfig, ShutdownTracker};
pub use storage::{ExecuteOutcome, MemoryStorage, StorageList};
pub use worker::{WorkerAction, WorkerEvent, WorkerPhase, WorkerState};
