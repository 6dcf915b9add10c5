//! What happens to the jobs a queue holds.
//!
//! The storages of a queue are modelled by the jobs waiting in each, in the
//! order the workers poll them; a claim takes the front job of one storage
//! (as [`MemoryStorage::job_pop`](crate::storage::MemoryStorage::job_pop)
//! does) and hands it to the worker that runs it. The laws here say that
//! claims, in any order and by any workers, neither lose nor repeat a job,
//! and that a worker left to run drains every storage, running each job once.

use crate::storage::memory::lemma_claim_conserves;
use crate::storage::ExecuteOutcome;
use crate::worker::{next_phase, WorkerEvent, WorkerPhase};
use vstd::multiset::Multiset;
use vstd::prelude::*;

verus! {

/// Every job waiting in `storages`, counted with multiplicity.
pub open spec fn waiting_jobs<J>(storages: Seq<Seq<J>>) -> Multiset<J>
    decreases storages.len(),
{
    if storages.len() == 0 {
        Multiset::empty()
    } else {
        waiting_jobs(storages.drop_last()).add(storages.last().to_multiset())
    }
}

/// How many jobs wait in `storages`.
pub open spec fn waiting_count<J>(storages: Seq<Seq<J>>) -> nat
    decreases storages.len(),
{
    if storages.len() == 0 {
        0
    } else {
        waiting_count(storages.drop_last()) + storages.last().len()
    }
}

/// The storages and the jobs run so far after a claim on storage `i`: the
/// front job of that storage, if there is one, is taken out and run.
pub open spec fn claim<J>(storages: Seq<Seq<J>>, run: Seq<J>, i: int) -> (Seq<Seq<J>>, Seq<J>) {
    if 0 <= i < storages.len() && storages[i].len() > 0 {
        (storages.update(i, storages[i].drop_first()), run.push(storages[i][0]))
    } else {
        (storages, run)
    }
}

/// The storages and the jobs run after `claims`, one after another.
pub open spec fn claims_applied<J>(storages: Seq<Seq<J>>, run: Seq<J>, claims: Seq<int>) -> (
    Seq<Seq<J>>,
    Seq<J>,
)
    decreases claims.len(),
{
    if claims.len() == 0 {
        (storages, run)
    } else {
        let (s, r) = claim(storages, run, claims[0]);
        claims_applied(s, r, claims.drop_first())
    }
}

/// Taking the front job out of storage `i` removes exactly that job from
/// those waiting, and one job from their count.
proof fn lemma_take_front<J>(storages: Seq<Seq<J>>, i: int)
    requires
        0 <= i < storages.len(),
        storages[i].len() > 0,
    ensures
        waiting_jobs(storages.update(i, storages[i].drop_first())).insert(storages[i][0])
            == waiting_jobs(storages),
        waiting_count(storages.update(i, storages[i].drop_first())) + 1 == waiting_count(
            storages,
        ),
    decreases storages.len(),
{
    broadcast use vstd::multiset::group_multiset_axioms;

    let q = storages[i];
    let updated = storages.update(i, q.drop_first());
    let last = storages.len() - 1;
    if i == last {
        assert(updated.drop_last() =~= storages.drop_last());
        lemma_claim_conserves(q);
        assert(waiting_jobs(updated).insert(q[0]) =~= waiting_jobs(storages));
    } else {
        lemma_take_front(storages.drop_last(), i);
        assert(updated.drop_last() =~= storages.drop_last().update(i, q.drop_first()));
        assert(updated.last() == storages.last());
        assert(waiting_jobs(updated).insert(q[0]) =~= waiting_jobs(storages));
    }
}

/// One claim neither loses nor repeats a job: the jobs run and the jobs
/// waiting are, together, the same as before.
pub proof fn lemma_claim_keeps_jobs<J>(storages: Seq<Seq<J>>, run: Seq<J>, i: int)
    ensures
        ({
            let (s, r) = claim(storages, run, i);
            r.to_multiset().add(waiting_jobs(s)) == run.to_multiset().add(waiting_jobs(storages))
        }),
{
    broadcast use vstd::multiset::group_multiset_axioms;
    broadcast use vstd::seq_lib::to_multiset_build;

    if 0 <= i < storages.len() && storages[i].len() > 0 {
        lemma_take_front(storages, i);
        let (s, r) = claim(storages, run, i);
        assert(r.to_multiset() == run.to_multiset().insert(storages[i][0]));
        assert(r.to_multiset().add(waiting_jobs(s)) =~= run.to_multiset().add(waiting_jobs(storages)));
    }
}

/// Claims made in any order, by any number of workers, neither lose nor
/// repeat a job: every job is either still waiting or was run, once.
pub proof fn lemma_claims_keep_jobs<J>(storages: Seq<Seq<J>>, run: Seq<J>, claims: Seq<int>)
    ensures
        ({
            let (s, r) = claims_applied(storages, run, claims);
            r.to_multiset().add(waiting_jobs(s)) == run.to_multiset().add(waiting_jobs(storages))
        }),
    decreases claims.len(),
{
    if claims.len() > 0 {
        let (s, r) = claim(storages, run, claims[0]);
        lemma_claim_keeps_jobs(storages, run, claims[0]);
        lemma_claims_keep_jobs(s, r, claims.drop_first());
    }
}

/// One step of a worker that is never told to shut down, against
/// `storages`: it performs the action its phase asks for and takes in what
/// came of it. Waiting (or stopped) it does nothing.
pub open spec fn drive_step<J>(phase: WorkerPhase, storages: Seq<Seq<J>>, run: Seq<J>) -> (
    WorkerPhase,
    Seq<Seq<J>>,
    Seq<J>,
) {
    let n = storages.len();
    match phase {
        WorkerPhase::CheckingShutdown => (
            next_phase(phase, n, WorkerEvent::NoSignal),
            storages,
            run,
        ),
        WorkerPhase::Scanning(i) => if i < n && storages[i as int].len() > 0 {
            let (s, r) = claim(storages, run, i as int);
            (next_phase(phase, n, WorkerEvent::Outcome(ExecuteOutcome::Executed)), s, r)
        } else {
            (next_phase(phase, n, WorkerEvent::Outcome(ExecuteOutcome::Empty)), storages, run)
        },
        _ => (phase, storages, run),
    }
}

/// The worker of [`drive_step`] after `steps` steps.
pub open spec fn drive<J>(phase: WorkerPhase, storages: Seq<Seq<J>>, run: Seq<J>, steps: nat) -> (
    WorkerPhase,
    Seq<Seq<J>>,
    Seq<J>,
)
    decreases steps,
{
    if steps == 0 {
        (phase, storages, run)
    } else {
        let (p, s, r) = drive_step(phase, storages, run);
        drive(p, s, r, (steps - 1) as nat)
    }
}

/// Running `a` steps and then `b` more is running `a + b` steps.
proof fn lemma_drive_split<J>(phase: WorkerPhase, storages: Seq<Seq<J>>, run: Seq<J>, a: nat, b: nat)
    ensures
        ({
            let (p, s, r) = drive(phase, storages, run, a);
            drive(p, s, r, b)
        }) == drive(phase, storages, run, a + b),
    decreases a,
{
    if a > 0 {
        let (p, s, r) = drive_step(phase, storages, run);
        lemma_drive_split(p, s, r, (a - 1) as nat, b);
        assert((a + b - 1) as nat == ((a - 1) as nat + b) as nat);
    }
}

/// A waiting worker stays where it is.
proof fn lemma_waiting_idles<J>(storages: Seq<Seq<J>>, run: Seq<J>, steps: nat)
    ensures
        drive(WorkerPhase::Waiting, storages, run, steps) == (WorkerPhase::Waiting, storages, run),
    decreases steps,
{
    if steps > 0 {
        lemma_waiting_idles(storages, run, (steps - 1) as nat);
    }
}

/// No job waits exactly when every storage is empty.
proof fn lemma_count_zero<J>(storages: Seq<Seq<J>>)
    ensures
        waiting_count(storages) == 0 <==> forall|j: int|
            0 <= j < storages.len() ==> #[trigger] storages[j].len() == 0,
    decreases storages.len(),
{
    if storages.len() > 0 {
        let prefix = storages.drop_last();
        lemma_count_zero(prefix);
        assert forall|j: int| 0 <= j < prefix.len() implies #[trigger] prefix[j] == storages[j] by {}
        if waiting_count(storages) == 0 {
            assert forall|j: int| 0 <= j < storages.len() implies #[trigger] storages[j].len()
                == 0 by {
                if j < prefix.len() {
                    assert(prefix[j].len() == 0);
                }
            }
        }
        if forall|j: int| 0 <= j < storages.len() ==> #[trigger] storages[j].len() == 0 {
            assert forall|j: int| 0 <= j < prefix.len() implies #[trigger] prefix[j].len() == 0 by {
                assert(storages[j].len() == 0);
            }
            assert(storages[storages.len() - 1].len() == 0);
        }
    }
}

/// Scanning from storage `i` past empty storages: the worker claims from the
/// first storage at or after `i` that holds a job and goes back to its check,
/// or, when none does, comes to wait.
proof fn lemma_scan_from<J>(i: usize, storages: Seq<Seq<J>>, run: Seq<J>)
    requires
        i < storages.len() <= usize::MAX,
    ensures
        (forall|j: int| i <= j < storages.len() ==> #[trigger] storages[j].len() == 0) ==> drive(
            WorkerPhase::Scanning(i),
            storages,
            run,
            (storages.len() - i) as nat,
        ) == (WorkerPhase::Waiting, storages, run),
        forall|m: int|
            #![trigger storages[m]]
            i <= m < storages.len() && storages[m].len() > 0 && (forall|j: int|
                i <= j < m ==> #[trigger] storages[j].len() == 0) ==> ({
                let (s, r) = claim(storages, run, m);
                drive(WorkerPhase::Scanning(i), storages, run, (m - i + 1) as nat) == (
                    WorkerPhase::CheckingShutdown,
                    s,
                    r,
                )
            }),
    decreases storages.len() - i,
{
    let n = storages.len();
    if storages[i as int].len() > 0 {
        let (s, r) = claim(storages, run, i as int);
        assert(drive_step(WorkerPhase::Scanning(i), storages, run) == (
            WorkerPhase::CheckingShutdown,
            s,
            r,
        ));
        assert(drive(WorkerPhase::CheckingShutdown, s, r, 0) == (WorkerPhase::CheckingShutdown, s, r));
        assert forall|m: int|
            #![trigger storages[m]]
            i <= m < storages.len() && storages[m].len() > 0 && (forall|j: int|
                i <= j < m ==> #[trigger] storages[j].len() == 0) implies ({
            let (s2, r2) = claim(storages, run, m);
            drive(WorkerPhase::Scanning(i), storages, run, (m - i + 1) as nat) == (
                WorkerPhase::CheckingShutdown,
                s2,
                r2,
            )
        }) by {
            if m > i {
                assert(storages[i as int].len() == 0);
            }
        }
    } else if i + 1 < n {
        let next = WorkerPhase::Scanning((i + 1) as usize);
        assert(drive_step(WorkerPhase::Scanning(i), storages, run) == (next, storages, run));
        lemma_scan_from((i + 1) as usize, storages, run);
        assert forall|m: int|
            #![trigger storages[m]]
            i <= m < storages.len() && storages[m].len() > 0 && (forall|j: int|
                i <= j < m ==> #[trigger] storages[j].len() == 0) implies ({
            let (s2, r2) = claim(storages, run, m);
            drive(WorkerPhase::Scanning(i), storages, run, (m - i + 1) as nat) == (
                WorkerPhase::CheckingShutdown,
                s2,
                r2,
            )
        }) by {
            assert(m != i);
            assert(forall|j: int| i + 1 <= j < m ==> #[trigger] storages[j].len() == 0);
            assert((m - i + 1 - 1) as nat == (m - (i + 1) + 1) as nat);
        }
        if forall|j: int| i <= j < storages.len() ==> #[trigger] storages[j].len() == 0 {
            assert(forall|j: int| i + 1 <= j < storages.len() ==> #[trigger] storages[j].len() == 0);
            assert((n - i - 1) as nat == (n - (i + 1)) as nat);
        }
    } else {
        assert(drive_step(WorkerPhase::Scanning(i), storages, run) == (
            WorkerPhase::Waiting,
            storages,
            run,
        ));
        lemma_waiting_idles(storages, run, 0);
    }
}

/// Every step of the worker keeps the jobs: those run and those waiting
/// are, together, the jobs that waited when it started.
pub proof fn lemma_drive_keeps_jobs<J>(
    phase: WorkerPhase,
    storages: Seq<Seq<J>>,
    run: Seq<J>,
    steps: nat,
)
    ensures
        ({
            let (p, s, r) = drive(phase, storages, run, steps);
            r.to_multiset().add(waiting_jobs(s)) == run.to_multiset().add(waiting_jobs(storages))
        }),
    decreases steps,
{
    if steps > 0 {
        let (p, s, r) = drive_step(phase, storages, run);
        if let WorkerPhase::Scanning(i) = phase {
            lemma_claim_keeps_jobs(storages, run, i as int);
        }
        lemma_drive_keeps_jobs(p, s, r, (steps - 1) as nat);
    }
}

/// When no job waits, the multiset of waiting jobs is empty.
proof fn lemma_no_jobs_left<J>(storages: Seq<Seq<J>>)
    requires
        waiting_count(storages) == 0,
    ensures
        waiting_jobs(storages) == Multiset::<J>::empty(),
    decreases storages.len(),
{
    broadcast use vstd::multiset::group_multiset_axioms;

    if storages.len() > 0 {
        lemma_no_jobs_left(storages.drop_last());
        assert(storages.last() =~= Seq::<J>::empty());
        assert(storages.last().to_multiset() =~= Multiset::<J>::empty()) by {
            broadcast use vstd::seq_lib::to_multiset_contains;

        }
        assert(waiting_jobs(storages) =~= Multiset::<J>::empty());
    }
}

/// From storage `i` on, when some storage holds a job, the worker claims
/// one within the rest of the round and comes back to its check.
proof fn lemma_scan_progress<J>(i: usize, storages: Seq<Seq<J>>, run: Seq<J>) -> (k: nat)
    requires
        i < storages.len() <= usize::MAX,
        exists|j: int| i <= j < storages.len() && #[trigger] storages[j].len() > 0,
    ensures
        k < storages.len() - i,
        ({
            let (p, s, r) = drive(WorkerPhase::Scanning(i), storages, run, k + 1);
            p == WorkerPhase::CheckingShutdown && waiting_count(s) + 1 == waiting_count(storages)
                && s.len() == storages.len()
        }),
    decreases storages.len() - i,
{
    if storages[i as int].len() > 0 {
        lemma_take_front(storages, i as int);
        let (s, r) = claim(storages, run, i as int);
        assert(drive(WorkerPhase::CheckingShutdown, s, r, 0) == (WorkerPhase::CheckingShutdown, s, r));
        0
    } else {
        let j = choose|j: int| i <= j < storages.len() && #[trigger] storages[j].len() > 0;
        assert(j != i);
        assert(i + 1 < storages.len());
        let k = lemma_scan_progress((i + 1) as usize, storages, run);
        assert(drive_step(WorkerPhase::Scanning(i), storages, run) == (
            WorkerPhase::Scanning((i + 1) as usize),
            storages,
            run,
        ));
        assert((k + 1 + 1 - 1) as nat == k + 1);
        k + 1
    }
}

/// How many steps a worker needs, at most, to run every job waiting in
/// `storages` and come to wait.
pub open spec fn drain_bound<J>(storages: Seq<Seq<J>>) -> nat {
    (waiting_count(storages) + 1) * (storages.len() + 1)
}

/// A worker that is not told to shut down runs every waiting job and then
/// waits with every storage empty; it gets there within
/// [`drain_bound`] steps and stays there.
proof fn lemma_drains<J>(storages: Seq<Seq<J>>, run: Seq<J>, steps: nat)
    requires
        storages.len() <= usize::MAX,
        steps >= drain_bound(storages),
    ensures
        ({
            let (p, s, r) = drive(WorkerPhase::CheckingShutdown, storages, run, steps);
            p == WorkerPhase::Waiting && waiting_count(s) == 0
        }),
    decreases waiting_count(storages),
{
    let n = storages.len();
    let t = waiting_count(storages);
    let first = next_phase(WorkerPhase::CheckingShutdown, n, WorkerEvent::NoSignal);
    assert(drive_step(WorkerPhase::CheckingShutdown, storages, run) == (first, storages, run));
    assert(steps >= n + 1) by (nonlinear_arith)
        requires
            steps >= (t + 1) * (n + 1),
    ;
    lemma_count_zero(storages);
    if t == 0 {
        if n == 0 {
            lemma_waiting_idles(storages, run, (steps - 1) as nat);
        } else {
            lemma_scan_from(0, storages, run);
            lemma_drive_split(first, storages, run, n, (steps - 1 - n) as nat);
            lemma_waiting_idles(storages, run, (steps - 1 - n) as nat);
        }
    } else {
        let j = choose|j: int| 0 <= j < n && #[trigger] storages[j].len() > 0;
        let k = lemma_scan_progress(0, storages, run);
        let (p1, s1, r1) = drive(first, storages, run, k + 1);
        let rest = (steps - 1 - (k + 1)) as nat;
        assert(rest >= drain_bound(s1)) by (nonlinear_arith)
            requires
                rest == steps - 1 - (k + 1),
                steps >= (t + 1) * (n + 1),
                k < n,
                drain_bound(s1) == (waiting_count(s1) + 1) * (n + 1),
                waiting_count(s1) + 1 == t,
        ;
        lemma_drive_split(first, storages, run, k + 1, rest);
        lemma_drains(s1, r1, rest);
    }
}

/// Every job waiting in the storages is run exactly once: a worker that is
/// not told to shut down, started on `storages`, comes within
/// [`drain_bound`] steps to wait with every storage empty, having run
/// exactly the jobs that waited, each as often as it was pushed.
pub proof fn lemma_every_job_runs_once<J>(storages: Seq<Seq<J>>, steps: nat)
    requires
        storages.len() <= usize::MAX,
        steps >= drain_bound(storages),
    ensures
        ({
            let (p, s, r) = drive(WorkerPhase::CheckingShutdown, storages, Seq::<J>::empty(), steps);
            &&& p == WorkerPhase::Waiting
            &&& forall|j: int| 0 <= j < s.len() ==> #[trigger] s[j].len() == 0
            &&& r.to_multiset() == waiting_jobs(storages)
        }),
{
    broadcast use vstd::multiset::group_multiset_axioms;

    let (p, s, r) = drive(WorkerPhase::CheckingShutdown, storages, Seq::<J>::empty(), steps);
    lemma_drains(storages, Seq::<J>::empty(), steps);
    lemma_count_zero(s);
    lemma_no_jobs_left(s);
    lemma_drive_keeps_jobs(WorkerPhase::CheckingShutdown, storages, Seq::<J>::empty(), steps);
    assert(Seq::<J>::empty().to_multiset() =~= Multiset::<J>::empty()) by {
        broadcast use vstd::seq_lib::to_multiset_contains;

    }
    assert(r.to_multiset() =~= r.to_multiset().add(waiting_jobs(s)));
    assert(Multiset::<J>::empty().add(waiting_jobs(storages)) =~= waiting_jobs(storages));
}

} // verus!
