//! The decisions of one queue worker.
//!
//! A worker loops: it looks for the shutdown signal, then asks the storages
//! in order for one job each until one of them runs a job; when none has a
//! job it waits for new jobs (or for the poll interval) while listening for
//! the signal. [`WorkerState::step`] makes these decisions; the caller
//! performs the action that each step asks for and reports what came of it.

use crate::storage::ExecuteOutcome;
use vstd::prelude::*;

verus! {

/// Where a worker stands in its loop.
#[derive(Debug, Clone, Copy, PartialEq, Eq, Structural)]
pub enum WorkerPhase {
    /// About to look for the shutdown signal.
    CheckingShutdown,
    /// Asking the storage at this index for one job.
    Scanning(usize),
    /// No storage had a job: waiting for one, for the poll interval to pass,
    /// or for the shutdown signal.
    Waiting,
    /// Stopped for good.
    Stopped,
}

/// What the caller observed while performing the last action.
#[derive(Debug, Clone, Copy, PartialEq, Eq, Structural)]
pub enum WorkerEvent {
    /// The shutdown signal was received (or its sender is gone).
    ShutdownSignal,
    /// No signal: the check found none, or the wait ended without one.
    NoSignal,
    /// The storage that was asked reported this outcome.
    Outcome(ExecuteOutcome),
    /// The storage that was asked failed to hand out a job.
    StorageFailed,
}

/// What the caller is to do next.
#[derive(Debug, Clone, Copy, PartialEq, Eq, Structural)]
pub enum WorkerAction {
    /// Look for the shutdown signal without waiting.
    CheckShutdown,
    /// Ask the storage at this index to execute one job.
    ExecuteOne(usize),
    /// Wait on all storages for the poll interval, or until the signal comes.
    WaitForJobs,
    /// Leave the loop.
    Exit,
}

/// Whether `event` is one that can follow the action asked in `phase`.
pub open spec fn accepts(phase: WorkerPhase, event: WorkerEvent) -> bool {
    match phase {
        WorkerPhase::CheckingShutdown | WorkerPhase::Waiting => event is ShutdownSignal
            || event is NoSignal,
        WorkerPhase::Scanning(_) => event is Outcome || event is StorageFailed,
        WorkerPhase::Stopped => true,
    }
}

/// Whether `event` says that the storage asked had no job to run.
pub open spec fn reports_no_job(event: WorkerEvent) -> bool {
    event == WorkerEvent::Outcome(ExecuteOutcome::Empty) || event == WorkerEvent::StorageFailed
}

/// The phase in which a round over `storages` storages starts.
pub open spec fn first_scan(storages: nat) -> WorkerPhase {
    if storages > 0 {
        WorkerPhase::Scanning(0)
    } else {
        WorkerPhase::Waiting
    }
}

/// The phase that follows `phase` on `event`, for a worker that polls
/// `storages` storages.
pub open spec fn next_phase(phase: WorkerPhase, storages: nat, event: WorkerEvent) -> WorkerPhase {
    match phase {
        WorkerPhase::Stopped => WorkerPhase::Stopped,
        WorkerPhase::CheckingShutdown => if event is ShutdownSignal {
            WorkerPhase::Stopped
        } else {
            first_scan(storages)
        },
        WorkerPhase::Waiting => if event is ShutdownSignal {
            WorkerPhase::Stopped
        } else {
            WorkerPhase::CheckingShutdown
        },
        WorkerPhase::Scanning(i) => if event == WorkerEvent::Outcome(ExecuteOutcome::Executed) {
            WorkerPhase::CheckingShutdown
        } else if i + 1 < storages {
            WorkerPhase::Scanning((i + 1) as usize)
        } else {
            WorkerPhase::Waiting
        },
    }
}

/// The action that a worker in `phase` asks for.
pub open spec fn action_of(phase: WorkerPhase) -> WorkerAction {
    match phase {
        WorkerPhase::CheckingShutdown => WorkerAction::CheckShutdown,
        WorkerPhase::Scanning(i) => WorkerAction::ExecuteOne(i),
        WorkerPhase::Waiting => WorkerAction::WaitForJobs,
        WorkerPhase::Stopped => WorkerAction::Exit,
    }
}

/// Whether `phase` names only storages that exist.
pub open spec fn in_range(phase: WorkerPhase, storages: nat) -> bool {
    phase matches WorkerPhase::Scanning(i) ==> i < storages
}

/// The phase reached from `phase` after `events`, in order.
pub open spec fn run(phase: WorkerPhase, storages: nat, events: Seq<WorkerEvent>) -> WorkerPhase
    decreases events.len(),
{
    if events.len() == 0 {
        phase
    } else {
        run(next_phase(phase, storages, events[0]), storages, events.drop_first())
    }
}

/// The actions asked after each of `events`, starting from `phase`.
pub open spec fn actions(phase: WorkerPhase, storages: nat, events: Seq<WorkerEvent>) -> Seq<
    WorkerAction,
>
    decreases events.len(),
{
    if events.len() == 0 {
        Seq::empty()
    } else {
        let next = next_phase(phase, storages, events[0]);
        seq![action_of(next)] + actions(next, storages, events.drop_first())
    }
}

/// The state of one worker.
pub struct WorkerState {
    phase: WorkerPhase,
    storage_count: usize,
}

impl WorkerState {
    #[verifier::type_invariant]
    spec fn inv(self) -> bool {
        in_range(self.phase, self.storage_count as nat)
    }

    /// Where the worker stands.
    pub closed spec fn spec_phase(&self) -> WorkerPhase {
        self.phase
    }

    /// How many storages the worker polls.
    pub closed spec fn spec_storage_count(&self) -> usize {
        self.storage_count
    }

    /// A worker that polls `storage_count` storages and has not started.
    pub fn new(storage_count: usize) -> (w: Self)
        ensures
            w.spec_phase() == WorkerPhase::CheckingShutdown,
            w.spec_storage_count() == storage_count,
    {
        WorkerState { phase: WorkerPhase::CheckingShutdown, storage_count }
    }

    /// Where the worker stands.
    pub fn phase(&self) -> (p: WorkerPhase)
        ensures
            p == self.spec_phase(),
            in_range(p, self.spec_storage_count() as nat),
    {
        proof { use_type_invariant(self); }
        self.phase
    }

    /// The action the worker asks for now.
    pub fn action(&self) -> (a: WorkerAction)
        ensures
            a == action_of(self.spec_phase()),
            a matches WorkerAction::ExecuteOne(i) ==> i < self.spec_storage_count(),
    {
        proof { use_type_invariant(self); }
        match self.phase {
            WorkerPhase::CheckingShutdown => WorkerAction::CheckShutdown,
            WorkerPhase::Scanning(i) => WorkerAction::ExecuteOne(i),
            WorkerPhase::Waiting => WorkerAction::WaitForJobs,
            WorkerPhase::Stopped => WorkerAction::Exit,
        }
    }

    /// Whether `event` can follow the action the worker asks for now.
    pub fn accepts(&self, event: WorkerEvent) -> (b: bool)
        ensures
            b == accepts(self.spec_phase(), event),
    {
        match self.phase {
            WorkerPhase::CheckingShutdown | WorkerPhase::Waiting => match event {
                WorkerEvent::ShutdownSignal | WorkerEvent::NoSignal => true,
                _ => false,
            },
            WorkerPhase::Scanning(_) => match event {
                WorkerEvent::Outcome(_) | WorkerEvent::StorageFailed => true,
                _ => false,
            },
            WorkerPhase::Stopped => true,
        }
    }

    /// Take in what came of the last action and return the next one.
    pub fn step(&mut self, event: WorkerEvent) -> (a: WorkerAction)
        requires
            accepts(old(self).spec_phase(), event),
        ensures
            final(self).spec_phase() == next_phase(
                old(self).spec_phase(),
                old(self).spec_storage_count() as nat,
                event,
            ),
            final(self).spec_storage_count() == old(self).spec_storage_count(),
            a == action_of(final(self).spec_phase()),
            a matches WorkerAction::ExecuteOne(i) ==> i < final(self).spec_storage_count(),
    {
        proof { use_type_invariant(&*self); }
        let next = match self.phase {
            WorkerPhase::Stopped => WorkerPhase::Stopped,
            WorkerPhase::CheckingShutdown => match event {
                WorkerEvent::ShutdownSignal => WorkerPhase::Stopped,
                _ => if self.storage_count > 0 {
                    WorkerPhase::Scanning(0)
                } else {
                    WorkerPhase::Waiting
                },
            },
            WorkerPhase::Waiting => match event {
                WorkerEvent::ShutdownSignal => WorkerPhase::Stopped,
                _ => WorkerPhase::CheckingShutdown,
            },
            WorkerPhase::Scanning(i) => match event {
                WorkerEvent::Outcome(ExecuteOutcome::Executed) => WorkerPhase::CheckingShutdown,
                _ => if i + 1 < self.storage_count {
                    WorkerPhase::Scanning(i + 1)
                } else {
                    WorkerPhase::Waiting
                },
            },
        };
        self.phase = next;
        self.action()
    }
}

/// A stopped worker stays stopped, whatever it is told.
pub proof fn lemma_stopped_is_final(storages: nat, event: WorkerEvent)
    ensures
        next_phase(WorkerPhase::Stopped, storages, event) == WorkerPhase::Stopped,
        action_of(next_phase(WorkerPhase::Stopped, storages, event)) == WorkerAction::Exit,
{
}

/// A worker that observes the shutdown signal, at its check or while it
/// waits, stops and leaves its loop.
pub proof fn lemma_signal_stops(phase: WorkerPhase, storages: nat)
    requires
        phase == WorkerPhase::CheckingShutdown || phase == WorkerPhase::Waiting,
    ensures
        next_phase(phase, storages, WorkerEvent::ShutdownSignal) == WorkerPhase::Stopped,
        action_of(next_phase(phase, storages, WorkerEvent::ShutdownSignal)) == WorkerAction::Exit,
{
}

/// The shutdown signal never cuts into a job: while a storage is asked for a
/// job the worker takes in only what the storage reports, so a worker stops
/// only at its check or while it waits.
pub proof fn lemma_signal_waits_for_job(index: usize, storages: nat)
    ensures
        !accepts(WorkerPhase::Scanning(index), WorkerEvent::ShutdownSignal),
        forall|phase: WorkerPhase, event: WorkerEvent|
            #![trigger next_phase(phase, storages, event)]
            accepts(phase, event) && phase != WorkerPhase::Stopped && next_phase(
                phase,
                storages,
                event,
            ) == WorkerPhase::Stopped ==> event == WorkerEvent::ShutdownSignal && (phase
                == WorkerPhase::CheckingShutdown || phase == WorkerPhase::Waiting),
{
}

/// After a storage ran a job, the worker looks for the shutdown signal before
/// it asks any storage for another job.
pub proof fn lemma_job_then_check(index: usize, storages: nat)
    ensures
        next_phase(
            WorkerPhase::Scanning(index),
            storages,
            WorkerEvent::Outcome(ExecuteOutcome::Executed),
        ) == WorkerPhase::CheckingShutdown,
{
}

/// Every round starts with the first storage: after a check that finds no
/// signal, the worker asks storage 0 (or, with no storage, waits).
pub proof fn lemma_round_starts_at_first(storages: nat)
    ensures
        next_phase(WorkerPhase::CheckingShutdown, storages, WorkerEvent::NoSignal) == first_scan(
            storages,
        ),
{
}

/// A worker only ever asks storages that exist.
pub proof fn lemma_step_in_range(phase: WorkerPhase, storages: nat, event: WorkerEvent)
    requires
        in_range(phase, storages),
    ensures
        in_range(next_phase(phase, storages, event), storages),
{
}

/// A worker starts to wait only when every storage reported no job in this
/// round: it waits after storage `i` only if `i` is the last storage and it
/// had no job, and it waits straight after its check only if there is no
/// storage at all.
pub proof fn lemma_wait_only_after_full_round(phase: WorkerPhase, storages: nat, event: WorkerEvent)
    requires
        in_range(phase, storages),
        accepts(phase, event),
        phase != WorkerPhase::Waiting,
        phase != WorkerPhase::Stopped,
        next_phase(phase, storages, event) == WorkerPhase::Waiting,
    ensures
        phase matches WorkerPhase::Scanning(i) ==> i + 1 == storages && reports_no_job(event),
        phase == WorkerPhase::CheckingShutdown ==> storages == 0,
{
    if let WorkerPhase::Scanning(i) = phase {
        if let WorkerEvent::Outcome(o) = event {
            if o == ExecuteOutcome::Executed {
                assert(false);
            }
        }
    }
}

/// Within a round, storages are asked in order, each once: from storage `i`,
/// a run of reports that no job was there moves on one storage per report,
/// and the worker waits once the last storage has reported.
pub proof fn lemma_scan_order(i: usize, storages: nat, reports: Seq<WorkerEvent>)
    requires
        i < storages <= usize::MAX,
        i + reports.len() <= storages,
        forall|k: int| 0 <= k < reports.len() ==> reports_no_job(#[trigger] reports[k]),
    ensures
        run(WorkerPhase::Scanning(i), storages, reports) == if i + reports.len() < storages {
            WorkerPhase::Scanning((i + reports.len()) as usize)
        } else {
            WorkerPhase::Waiting
        },
        actions(WorkerPhase::Scanning(i), storages, reports) == Seq::new(
            reports.len(),
            |k: int|
                if i + k + 1 < storages {
                    WorkerAction::ExecuteOne((i + k + 1) as usize)
                } else {
                    WorkerAction::WaitForJobs
                },
        ),
    decreases reports.len(),
{
    let expected = Seq::new(
        reports.len(),
        |k: int|
            if i + k + 1 < storages {
                WorkerAction::ExecuteOne((i + k + 1) as usize)
            } else {
                WorkerAction::WaitForJobs
            },
    );
    if reports.len() > 0 {
        let rest = reports.drop_first();
        assert(reports_no_job(reports[0]));
        let next = next_phase(WorkerPhase::Scanning(i), storages, reports[0]);
        assert(run(WorkerPhase::Scanning(i), storages, reports) == run(next, storages, rest));
        if i + 1 < storages {
            assert(next == WorkerPhase::Scanning((i + 1) as usize));
            assert forall|k: int| 0 <= k < rest.len() implies reports_no_job(#[trigger] rest[k]) by {
                assert(rest[k] == reports[k + 1]);
            }
            lemma_scan_order((i + 1) as usize, storages, rest);
            assert(actions(WorkerPhase::Scanning(i), storages, reports) == seq![action_of(next)]
                + actions(next, storages, rest));
            assert(actions(WorkerPhase::Scanning(i), storages, reports) =~= expected);
        } else {
            assert(next == WorkerPhase::Waiting);
            assert(rest.len() == 0);
            assert(run(next, storages, rest) == next);
            assert(actions(next, storages, rest) =~= Seq::<WorkerAction>::empty());
            assert(actions(WorkerPhase::Scanning(i), storages, reports) =~= expected);
        }
    } else {
        assert(actions(WorkerPhase::Scanning(i), storages, reports) =~= expected);
    }
}

/// Once stopped, a worker stays stopped over any events that follow, and
/// asks for nothing but to exit: it never asks a storage for a job again.
pub proof fn lemma_stopped_stays_stopped(storages: nat, events: Seq<WorkerEvent>)
    ensures
        run(WorkerPhase::Stopped, storages, events) == WorkerPhase::Stopped,
        actions(WorkerPhase::Stopped, storages, events) == Seq::new(
            events.len(),
            |k: int| WorkerAction::Exit,
        ),
    decreases events.len(),
{
    if events.len() > 0 {
        lemma_stopped_stays_stopped(storages, events.drop_first());
    }
    assert(actions(WorkerPhase::Stopped, storages, events) =~= Seq::new(
        events.len(),
        |k: int| WorkerAction::Exit,
    ));
}

/// A worker has at most one storage request outstanding: it takes in a
/// storage report exactly when it asked a storage for a job, and a pending
/// request accepts nothing but that storage's report.
pub proof fn lemma_one_request_at_a_time(phase: WorkerPhase, storages: nat, event: WorkerEvent)
    requires
        phase != WorkerPhase::Stopped,
        accepts(phase, event),
    ensures
        (event is Outcome || event is StorageFailed) <==> action_of(phase) is ExecuteOne,
{
}

/// How many of the workers, one in each of `phases`, have asked a storage
/// for a job and not yet taken in its report.
pub open spec fn requests_outstanding(phases: Seq<WorkerPhase>) -> nat
    decreases phases.len(),
{
    if phases.len() == 0 {
        0
    } else {
        requests_outstanding(phases.drop_last()) + if action_of(phases.last()) is ExecuteOne {
            1nat
        } else {
            0nat
        }
    }
}

/// Counting the outstanding storage requests over the phases of a queue's
/// workers: since a phase asks for at most one storage (and, by
/// [`lemma_one_request_at_a_time`], a worker takes in only that storage's
/// report before it asks again), the workers in `phases` have at most one
/// request, and so at most one running job, each.
pub proof fn lemma_at_most_one_job_per_worker(phases: Seq<WorkerPhase>)
    ensures
        requests_outstanding(phases) <= phases.len(),
    decreases phases.len(),
{
    if phases.len() > 0 {
        lemma_at_most_one_job_per_worker(phases.drop_last());
    }
}

/// Whatever comes of the action a worker asks for, the worker takes it in:
/// a shutdown check or a wait ends with the signal or without it, and a
/// storage that was asked for a job reports an outcome or fails; each of
/// these is accepted in the phase that asked for it.
pub proof fn lemma_accepts_every_report(phase: WorkerPhase, event: WorkerEvent)
    ensures
        (action_of(phase) == WorkerAction::CheckShutdown || action_of(phase)
            == WorkerAction::WaitForJobs) && (event == WorkerEvent::ShutdownSignal || event
            == WorkerEvent::NoSignal) ==> accepts(phase, event),
        action_of(phase) is ExecuteOne && (event is Outcome || event == WorkerEvent::StorageFailed)
            ==> accepts(phase, event),
        accepts(WorkerPhase::CheckingShutdown, WorkerEvent::ShutdownSignal),
        accepts(WorkerPhase::CheckingShutdown, WorkerEvent::NoSignal),
        accepts(WorkerPhase::Waiting, WorkerEvent::ShutdownSignal),
        accepts(WorkerPhase::Waiting, WorkerEvent::NoSignal),
        forall|i: usize, o: ExecuteOutcome|
            #[trigger] accepts(WorkerPhase::Scanning(i), WorkerEvent::Outcome(o)),
        forall|i: usize| #[trigger] accepts(WorkerPhase::Scanning(i), WorkerEvent::StorageFailed),
{
}

/// A wait that ends without the signal sends the worker back to its
/// shutdown check, from where it polls the storages again: an idle worker
/// keeps running until it is told to stop.
pub proof fn lemma_wait_then_check(storages: nat)
    ensures
        next_phase(WorkerPhase::Waiting, storages, WorkerEvent::NoSignal)
            == WorkerPhase::CheckingShutdown,
        action_of(next_phase(WorkerPhase::Waiting, storages, WorkerEvent::NoSignal))
            == WorkerAction::CheckShutdown,
{
}

/// A storage that fails to hand out a job is skipped: the worker asks the
/// next storage, or waits when it was the last one, exactly as when the
/// storage was empty.
pub proof fn lemma_failed_storage_is_skipped(index: usize, storages: nat)
    requires
        index < storages <= usize::MAX,
    ensures
        next_phase(WorkerPhase::Scanning(index), storages, WorkerEvent::StorageFailed) == if index
            + 1 < storages {
            WorkerPhase::Scanning((index + 1) as usize)
        } else {
            WorkerPhase::Waiting
        },
        next_phase(WorkerPhase::Scanning(index), storages, WorkerEvent::StorageFailed)
            == next_phase(
            WorkerPhase::Scanning(index),
            storages,
            WorkerEvent::Outcome(ExecuteOutcome::Empty),
        ),
{
}

} // verus!
