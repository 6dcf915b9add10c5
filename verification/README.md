# fast_job_queue

A storage-agnostic job queue with configurable workers, split in two:

- `src/` is the verified core (Verus): the queue builder and its validation,
  the in-memory FIFO storage, the list of storages that workers poll, the
  step function that makes every decision of a worker, and the bookkeeping of
  a graceful shutdown. Laws about them are proof functions next to the code
  (`storage/memory.rs`, `worker.rs`).
- `app/` is the async runtime around it: the `Job` and `Storage` traits for
  users, a shared in-memory storage, worker tasks on tokio that perform the
  actions the core asks for, and the `impl_diesel_pop!` helper macro.
