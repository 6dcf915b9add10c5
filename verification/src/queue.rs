//! Configuration of a job queue: the builder and its validation.

use crate::duration::{nanos_per_sec, Duration};
use crate::error::{panic_reason, worker_panicked, JobQueueError};
use crate::storage::StorageList;
use std::sync::Arc;
use vstd::prelude::*;

verus! {

/// Builder for job queues.
///
/// `S` is the type through which the queue reaches one storage.
pub struct JobQueueBuilder<S> {
    workers: usize,
    poll_interval: Duration,
    storages: StorageList<S>,
}

/// The error that validation finds in a configuration of `workers` workers,
/// a poll interval of `poll_interval` nanoseconds and `storages` storages,
/// checked in that order; `None` when the configuration is valid.
pub open spec fn config_error(workers: nat, poll_interval: nat, storages: nat) -> Option<
    JobQueueError,
> {
    if workers == 0 {
        Some(JobQueueError::WorkersMustBePositive)
    } else if poll_interval == 0 {
        Some(JobQueueError::PollIntervalMustBePositive)
    } else if storages == 0 {
        Some(JobQueueError::MissingStorages)
    } else {
        None
    }
}

/// Validation refuses a configuration only when it has no worker, a poll
/// interval of zero or no storage at all; any number of storages from one
/// up is accepted. The error names the first of these that is wrong.
pub proof fn lemma_config_valid(workers: nat, poll_interval: nat, storages: nat)
    ensures
        config_error(workers, poll_interval, storages) is None <==> workers > 0 && poll_interval > 0
            && storages > 0,
        workers == 0 ==> config_error(workers, poll_interval, storages) == Some(
            JobQueueError::WorkersMustBePositive,
        ),
        workers > 0 && poll_interval == 0 ==> config_error(workers, poll_interval, storages)
            == Some(JobQueueError::PollIntervalMustBePositive),
        workers > 0 && poll_interval > 0 && storages == 0 ==> config_error(
            workers,
            poll_interval,
            storages,
        ) == Some(JobQueueError::MissingStorages),
{
}

impl<S> JobQueueBuilder<S> {
    /// The number of worker tasks the queue will run.
    pub closed spec fn spec_workers(&self) -> usize {
        self.workers
    }

    /// How long an idle worker waits before it polls again.
    pub closed spec fn spec_poll_interval(&self) -> Duration {
        self.poll_interval
    }

    /// The storages added so far, in the order in which workers poll them:
    /// the one added last comes first.
    pub closed spec fn spec_storages(&self) -> Seq<S> {
        self.storages@
    }

    /// Create a new job queue builder with default configuration: four
    /// workers, a poll interval of one second and no storage.
    pub fn new() -> (b: Self)
        ensures
            b.spec_workers() == 4,
            b.spec_poll_interval()@ == nanos_per_sec(),
            b.spec_storages() == Seq::<S>::empty(),
    {
        JobQueueBuilder { workers: 4, poll_interval: Duration::from_secs(1), storages: StorageList::new() }
    }

    /// Set the number of concurrent worker tasks.
    /// Default is 4.
    pub fn workers(self, workers: usize) -> (b: Self)
        ensures
            b.spec_workers() == workers,
            b.spec_poll_interval() == self.spec_poll_interval(),
            b.spec_storages() == self.spec_storages(),
    {
        JobQueueBuilder { workers, ..self }
    }

    /// Set the poll interval when no jobs are available.
    /// Default is 1 second.
    pub fn poll_interval(self, poll_interval: Duration) -> (b: Self)
        ensures
            b.spec_workers() == self.spec_workers(),
            b.spec_poll_interval() == poll_interval,
            b.spec_storages() == self.spec_storages(),
    {
        JobQueueBuilder { poll_interval, ..self }
    }

    /// Add a storage backend to the queue, ahead of those added before:
    /// workers poll the storage added last first.
    ///
    /// Multiple storages can be added; workers poll all of them.
    pub fn with_storage(self, storage: S) -> (b: Self)
        ensures
            b.spec_workers() == self.spec_workers(),
            b.spec_poll_interval() == self.spec_poll_interval(),
            b.spec_storages() == seq![storage] + self.spec_storages(),
    {
        let mut storages = self.storages;
        storages.storage_push_front(storage);
        JobQueueBuilder { workers: self.workers, poll_interval: self.poll_interval, storages }
    }

    /// The number of worker tasks configured.
    pub fn worker_count(&self) -> (n: usize)
        ensures
            n == self.spec_workers(),
    {
        self.workers
    }

    /// The poll interval configured.
    pub fn current_poll_interval(&self) -> (d: Duration)
        ensures
            d == self.spec_poll_interval(),
    {
        self.poll_interval
    }

    /// The number of storages added.
    pub fn storage_count(&self) -> (n: usize)
        ensures
            n == self.spec_storages().len(),
    {
        self.storages.len()
    }

    /// Validate the configuration. On success the result holds what the
    /// queue needs to start its workers.
    ///
    /// # Errors
    ///
    /// - [`JobQueueError::WorkersMustBePositive`] if `workers` is 0
    /// - [`JobQueueError::PollIntervalMustBePositive`] if `poll_interval` is 0
    /// - [`JobQueueError::MissingStorages`] if no storage was added
    pub fn build(self) -> (r: Result<JobQueueConfig<S>, JobQueueError>)
        ensures
            r is Ok <==> self.spec_workers() > 0 && self.spec_poll_interval()@ > 0
                && self.spec_storages().len() > 0,
            match config_error(
                self.spec_workers() as nat,
                self.spec_poll_interval()@,
                self.spec_storages().len(),
            ) {
                Some(e) => r == Err::<JobQueueConfig<S>, JobQueueError>(e),
                None => r matches Ok(c) && c.spec_workers() == self.spec_workers()
                    && c.spec_poll_interval() == self.spec_poll_interval() && c.spec_storages()
                    == self.spec_storages(),
            },
    {
        if self.workers == 0 {
            return Err(JobQueueError::WorkersMustBePositive);
        }
        if self.poll_interval.is_zero() {
            return Err(JobQueueError::PollIntervalMustBePositive);
        }
        if self.storages.is_empty() {
            return Err(JobQueueError::MissingStorages);
        }
        Ok(
            JobQueueConfig {
                workers: self.workers,
                poll_interval: self.poll_interval,
                storages: self.storages.arc_slice_into(),
            },
        )
    }
}

impl<S> Default for JobQueueBuilder<S> {
    fn default() -> (b: Self)
        ensures
            b.spec_workers() == 4,
            b.spec_poll_interval()@ == nanos_per_sec(),
            b.spec_storages() == Seq::<S>::empty(),
    {
        Self::new()
    }
}

/// A validated queue configuration: at least one worker, a poll interval
/// that is not zero and at least one storage.
pub struct JobQueueConfig<S> {
    workers: usize,
    poll_interval: Duration,
    storages: Arc<[S]>,
}

impl<S> JobQueueConfig<S> {
    #[verifier::type_invariant]
    spec fn inv(self) -> bool {
        &&& self.workers > 0
        &&& self.poll_interval@ > 0
        &&& self.storages@.len() > 0
    }

    /// The number of worker tasks to run.
    pub closed spec fn spec_workers(&self) -> usize {
        self.workers
    }

    /// How long an idle worker waits before it polls again.
    pub closed spec fn spec_poll_interval(&self) -> Duration {
        self.poll_interval
    }

    /// The storages, in the order in which workers poll them.
    pub closed spec fn spec_storages(&self) -> Seq<S> {
        self.storages@
    }

    /// The number of worker tasks to run.
    pub fn worker_count(&self) -> (n: usize)
        ensures
            n == self.spec_workers(),
            n > 0,
    {
        proof { use_type_invariant(self); }
        self.workers
    }

    /// How long an idle worker waits before it polls again.
    pub fn poll_interval(&self) -> (d: Duration)
        ensures
            d == self.spec_poll_interval(),
            d@ > 0,
    {
        proof { use_type_invariant(self); }
        self.poll_interval
    }

    /// The storages, shared, in the order in which workers poll them.
    pub fn storages(&self) -> (s: Arc<[S]>)
        ensures
            s@ == self.spec_storages(),
            s@.len() > 0,
    {
        proof { use_type_invariant(self); }
        self.storages.clone()
    }
}

/// How one worker ended, as a shutdown sees it: `Ok(())`, or `Err` with what
/// the runtime said of it.
pub type JoinOutcome = Result<(), Seq<char>>;

/// The index and the cause of the first worker that ended abnormally, among
/// `outcomes` (the outcomes of workers 0, 1, ... in order).
pub open spec fn first_failure(outcomes: Seq<JoinOutcome>) -> Option<(nat, Seq<char>)>
    decreases outcomes.len(),
{
    if outcomes.len() == 0 {
        None
    } else {
        match first_failure(outcomes.drop_last()) {
            Some(found) => Some(found),
            None => match outcomes.last() {
                Err(cause) => Some(((outcomes.len() - 1) as nat, cause)),
                Ok(()) => None,
            },
        }
    }
}

/// The view of how a worker ended.
pub open spec fn join_outcome(joined: Result<(), String>) -> JoinOutcome {
    match joined {
        Ok(()) => Ok(()),
        Err(cause) => Err(cause@),
    }
}

/// Whether `failure` is the error that reports `found`, the first failure.
pub open spec fn reports(failure: Option<JobQueueError>, found: Option<(nat, Seq<char>)>) -> bool {
    match found {
        None => failure is None,
        Some((index, cause)) => failure matches Some(JobQueueError::WorkerPanicked { reason })
            && reason@ == panic_reason(index, cause),
    }
}

/// Progress of a graceful shutdown: every worker is joined, one after
/// another, in the order in which they were started. The shutdown fails with
/// the first worker that ended abnormally, once all of them have ended.
pub struct ShutdownTracker {
    total: usize,
    joined: usize,
    outcomes: Ghost<Seq<JoinOutcome>>,
    failure: Option<JobQueueError>,
}

impl ShutdownTracker {
    #[verifier::type_invariant]
    spec fn inv(self) -> bool {
        &&& self.joined <= self.total
        &&& self.outcomes@.len() == self.joined
        &&& reports(self.failure, first_failure(self.outcomes@))
    }

    /// How many workers the shutdown started with.
    pub closed spec fn spec_total(&self) -> usize {
        self.total
    }

    /// How many workers have been joined.
    pub closed spec fn spec_joined(&self) -> usize {
        self.joined
    }

    /// How the joined workers ended, in the order in which they were joined.
    pub closed spec fn spec_outcomes(&self) -> Seq<JoinOutcome> {
        self.outcomes@
    }

    /// A shutdown of `total` running workers, none of them joined yet.
    pub fn new(total: usize) -> (t: Self)
        ensures
            t.spec_total() == total,
            t.spec_joined() == 0,
            t.spec_outcomes() == Seq::<JoinOutcome>::empty(),
    {
        ShutdownTracker { total, joined: 0, outcomes: Ghost(Seq::empty()), failure: None }
    }

    /// The index of the worker to wait for next, or `None` when every worker
    /// has been joined.
    pub fn next_worker(&self) -> (w: Option<usize>)
        ensures
            self.spec_joined() < self.spec_total() ==> w == Some(self.spec_joined()),
            self.spec_joined() >= self.spec_total() ==> w is None,
    {
        if self.joined < self.total {
            Some(self.joined)
        } else {
            None
        }
    }

    /// Take in how the worker returned by [`Self::next_worker`] ended:
    /// `Ok(())`, or `Err` with what the runtime said of it.
    pub fn record(&mut self, joined: Result<(), String>)
        requires
            old(self).spec_joined() < old(self).spec_total(),
        ensures
            final(self).spec_total() == old(self).spec_total(),
            final(self).spec_joined() == old(self).spec_joined() + 1,
            final(self).spec_outcomes() == old(self).spec_outcomes().push(join_outcome(joined)),
    {
        proof {
            use_type_invariant(&*self);
        }
        let ghost before = self.outcomes@;
        let ghost after = before.push(join_outcome(joined));
        proof {
            assert(after.drop_last() =~= before);
        }
        let total = self.total;
        let index = self.joined;
        let mut earlier = ShutdownTracker::new(total);
        std::mem::swap(self, &mut earlier);
        let failure = match earlier.failure {
            Some(e) => Some(e),
            None => match joined {
                Ok(()) => None,
                Err(cause) => Some(worker_panicked(index, cause.as_str())),
            },
        };
        *self = ShutdownTracker { total, joined: index + 1, outcomes: Ghost(after), failure };
    }

    /// The result of the shutdown, once every worker has been joined: `Ok`
    /// when all of them ended normally, else the error that reports the
    /// first one that did not.
    pub fn finish(self) -> (r: Result<(), JobQueueError>)
        requires
            self.spec_joined() == self.spec_total(),
        ensures
            match first_failure(self.spec_outcomes()) {
                None => r is Ok,
                Some((index, cause)) => r matches Err(JobQueueError::WorkerPanicked { reason })
                    && reason@ == panic_reason(index, cause),
            },
    {
        proof {
            use_type_invariant(&self);
        }
        match self.failure {
            None => Ok(()),
            Some(e) => Err(e),
        }
    }
}

/// A shutdown succeeds exactly when every worker ended normally; otherwise
/// it reports the worker with the lowest index that did not.
pub proof fn lemma_first_failure(outcomes: Seq<JoinOutcome>)
    ensures
        first_failure(outcomes) is None <==> forall|i: int|
            0 <= i < outcomes.len() ==> #[trigger] outcomes[i] is Ok,
        first_failure(outcomes) matches Some((index, cause)) ==> index < outcomes.len()
            && outcomes[index as int] == Err::<(), Seq<char>>(cause) && forall|i: int|
            0 <= i < index ==> #[trigger] outcomes[i] is Ok,
    decreases outcomes.len(),
{
    if outcomes.len() > 0 {
        let prefix = outcomes.drop_last();
        let n = outcomes.len() - 1;
        lemma_first_failure(prefix);
        assert forall|i: int| 0 <= i < prefix.len() implies #[trigger] prefix[i] == outcomes[i] by {}
        match first_failure(prefix) {
            Some((index, cause)) => {
                assert(first_failure(outcomes) == Some((index, cause)));
                assert(prefix[index as int] == outcomes[index as int]);
                assert forall|i: int| 0 <= i < index implies #[trigger] outcomes[i] is Ok by {
                    assert(prefix[i] is Ok);
                }
                assert(!(forall|i: int| 0 <= i < outcomes.len() ==> #[trigger] outcomes[i] is Ok)) by {
                    assert(!(outcomes[index as int] is Ok));
                }
            },
            None => {
                if outcomes.last() is Ok {
                    assert(first_failure(outcomes) is None);
                    assert forall|i: int| 0 <= i < outcomes.len() implies #[trigger] outcomes[i] is Ok by {
                        if i < n {
                            assert(prefix[i] is Ok);
                        }
                    }
                } else {
                    assert(outcomes[n] is Err);
                    assert(first_failure(outcomes) == Some((n as nat, outcomes[n]->Err_0)));
                    assert forall|i: int| 0 <= i < n implies #[trigger] outcomes[i] is Ok by {
                        assert(prefix[i] is Ok);
                    }
                }
            },
        }
    }
}

} // verus!
