//! In-memory storage for testing and simple use cases.

use std::collections::VecDeque;
use vstd::prelude::*;

verus! {

/// In-memory typed job storage: a first-in first-out queue of jobs of one type.
pub struct MemoryStorage<JobType> {
    jobs: VecDeque<JobType>,
}

impl<JobType> View for MemoryStorage<JobType> {
    type V = Seq<JobType>;

    /// The waiting jobs, the next one to be claimed first.
    closed spec fn view(&self) -> Seq<JobType> {
        self.jobs@
    }
}

impl<JobType> MemoryStorage<JobType> {
    /// Create a new empty memory storage.
    pub fn new() -> (s: Self)
        ensures
            s@ == Seq::<JobType>::empty(),
    {
        MemoryStorage { jobs: VecDeque::new() }
    }

    /// Push a typed job into the queue, behind the jobs already waiting.
    pub fn job_push(&mut self, job: JobType)
        ensures
            final(self)@ == old(self)@.push(job),
    {
        self.jobs.push_back(job);
    }

    /// Claim the job that has waited longest, or `None` when no job waits.
    pub fn job_pop(&mut self) -> (job: Option<JobType>)
        ensures
            old(self)@.len() == 0 ==> job is None && final(self)@ == old(self)@,
            old(self)@.len() > 0 ==> job == Some(old(self)@[0]) && final(self)@ == old(
                self,
            )@.drop_first(),
    {
        let job = self.jobs.pop_front();
        proof {
            if old(self)@.len() > 0 {
                assert(final(self)@ =~= old(self)@.drop_first());
            }
        }
        job
    }

    /// Get the number of jobs in the queue.
    pub fn len(&self) -> (n: usize)
        ensures
            n == self@.len(),
    {
        self.jobs.len()
    }

    /// Check if the queue is empty.
    pub fn is_empty(&self) -> (b: bool)
        ensures
            b == (self@.len() == 0),
    {
        self.jobs.len() == 0
    }
}

impl<JobType> Default for MemoryStorage<JobType> {
    fn default() -> (s: Self)
        ensures
            s@ == Seq::<JobType>::empty(),
    {
        Self::new()
    }
}

/// The queue `q` after `jobs` were pushed onto it, one after another.
pub open spec fn after_pushes<JobType>(q: Seq<JobType>, jobs: Seq<JobType>) -> Seq<JobType>
    decreases jobs.len(),
{
    if jobs.len() == 0 {
        q
    } else {
        after_pushes(q.push(jobs[0]), jobs.drop_first())
    }
}

/// The jobs that `k` claims from the queue `q` return, in order; a claim on
/// an empty queue returns nothing.
pub open spec fn claimed<JobType>(q: Seq<JobType>, k: nat) -> Seq<JobType>
    decreases k,
{
    if k == 0 || q.len() == 0 {
        Seq::empty()
    } else {
        seq![q[0]] + claimed(q.drop_first(), (k - 1) as nat)
    }
}

/// Pushing jobs appends them behind those already waiting.
pub proof fn lemma_pushes_append<JobType>(q: Seq<JobType>, jobs: Seq<JobType>)
    ensures
        after_pushes(q, jobs) == q + jobs,
    decreases jobs.len(),
{
    if jobs.len() > 0 {
        lemma_pushes_append(q.push(jobs[0]), jobs.drop_first());
        assert(q.push(jobs[0]) + jobs.drop_first() =~= q + jobs);
    } else {
        assert(q + jobs =~= q);
    }
}

/// Claims return the waiting jobs from the front: `k` claims return the
/// first `k` jobs, or all of them when fewer wait.
pub proof fn lemma_claims_take_front<JobType>(q: Seq<JobType>, k: nat)
    ensures
        claimed(q, k) == q.take(if k < q.len() { k as int } else { q.len() as int }),
    decreases k,
{
    if k == 0 || q.len() == 0 {
        assert(q.take(0) =~= Seq::<JobType>::empty());
    } else {
        lemma_claims_take_front(q.drop_first(), (k - 1) as nat);
        assert(claimed(q, k) =~= q.take(if k < q.len() { k as int } else { q.len() as int }));
    }
}

/// First in, first out: jobs pushed onto an empty storage are claimed back
/// in the order in which they were pushed.
pub proof fn lemma_fifo<JobType>(jobs: Seq<JobType>)
    ensures
        claimed(after_pushes(Seq::<JobType>::empty(), jobs), jobs.len()) == jobs,
{
    lemma_pushes_append(Seq::<JobType>::empty(), jobs);
    assert(Seq::<JobType>::empty() + jobs =~= jobs);
    lemma_claims_take_front(jobs, jobs.len());
    assert(jobs.take(jobs.len() as int) =~= jobs);
}

/// A push does not change which job is claimed next from a storage that
/// already holds jobs, and the pushed job waits behind the others.
pub proof fn lemma_push_keeps_front<JobType>(q: Seq<JobType>, job: JobType)
    requires
        q.len() > 0,
    ensures
        q.push(job)[0] == q[0],
        q.push(job).drop_first() == q.drop_first().push(job),
{
    assert(q.push(job).drop_first() =~= q.drop_first().push(job));
}

/// A claim neither loses nor copies a job: the claimed job and the jobs left
/// waiting are, together, exactly the jobs that waited before.
pub proof fn lemma_claim_conserves<JobType>(q: Seq<JobType>)
    requires
        q.len() > 0,
    ensures
        q.drop_first().to_multiset().insert(q[0]) == q.to_multiset(),
{
    broadcast use vstd::multiset::group_multiset_axioms;
    broadcast use vstd::seq_lib::to_multiset_remove, vstd::seq_lib::to_multiset_contains;

    assert(q.remove(0) =~= q.drop_first());
    assert(q.remove(0).to_multiset() == q.to_multiset().remove(q[0]));
    assert(q.to_multiset().contains(q[0]));
    assert(q.drop_first().to_multiset().insert(q[0]) =~= q.to_multiset());
}

/// A push adds exactly the pushed job to those waiting.
pub proof fn lemma_push_adds_one<JobType>(q: Seq<JobType>, job: JobType)
    ensures
        q.push(job).to_multiset() == q.to_multiset().insert(job),
{
    broadcast use vstd::seq_lib::to_multiset_build;

}

} // verus!
