use fast_job_queue::{
    ExecuteOutcome, MemoryStorage, WorkerAction, WorkerEvent, WorkerPhase, WorkerState,
};

/// Performs `action` against `storages` as a queue worker would, and feeds
/// what came of it back to `worker`.
fn perform(
    worker: &mut WorkerState,
    action: WorkerAction,
    storages: &mut [MemoryStorage<u64>],
    executed: &mut Vec<u64>,
    shutdown: bool,
) -> WorkerAction {
    let event = match action {
        WorkerAction::CheckShutdown | WorkerAction::WaitForJobs => {
            if shutdown {
                WorkerEvent::ShutdownSignal
            } else {
                WorkerEvent::NoSignal
            }
        }
        WorkerAction::ExecuteOne(index) => match storages[index].job_pop() {
            Some(job) => {
                executed.push(job);
                WorkerEvent::Outcome(ExecuteOutcome::Executed)
            }
            None => WorkerEvent::Outcome(ExecuteOutcome::Empty),
        },
        WorkerAction::Exit => return WorkerAction::Exit,
    };
    assert!(worker.accepts(event));
    worker.step(event)
}

/// Runs the worker until it first waits (or exits), returning the actions it asked for.
fn run_until_wait(
    worker: &mut WorkerState,
    storages: &mut [MemoryStorage<u64>],
    executed: &mut Vec<u64>,
) -> Vec<WorkerAction> {
    let mut asked = vec![worker.action()];
    let mut action = worker.action();
    while action != WorkerAction::WaitForJobs && action != WorkerAction::Exit {
        action = perform(worker, action, storages, executed, false);
        asked.push(action);
    }
    asked
}

#[test]
fn empty_list_returns_none() {
    let mut worker = WorkerState::new(0);
    let mut executed = Vec::new();
    let asked = run_until_wait(&mut worker, &mut [], &mut executed);
    assert_eq!(asked, vec![WorkerAction::CheckShutdown, WorkerAction::WaitForJobs]);
    assert!(executed.is_empty());
}

#[test]
fn single_storage_pops_job() {
    let mut storages = vec![MemoryStorage::new()];
    storages[0].job_push(7);
    let mut worker = WorkerState::new(1);
    let mut executed = Vec::new();
    let asked = run_until_wait(&mut worker, &mut storages, &mut executed);
    assert_eq!(
        asked,
        vec![
            WorkerAction::CheckShutdown,
            WorkerAction::ExecuteOne(0),
            WorkerAction::CheckShutdown,
            WorkerAction::ExecuteOne(0),
            WorkerAction::WaitForJobs,
        ]
    );
    assert_eq!(executed, vec![7]);
}

#[test]
fn multi_storage_pops_from_both() {
    let mut storages = vec![MemoryStorage::new(), MemoryStorage::new()];
    storages[0].job_push(1);
    storages[1].job_push(2);
    let mut worker = WorkerState::new(2);
    let mut executed = Vec::new();
    let asked = run_until_wait(&mut worker, &mut storages, &mut executed);
    assert_eq!(
        asked,
        vec![
            WorkerAction::CheckShutdown,
            WorkerAction::ExecuteOne(0),
            WorkerAction::CheckShutdown,
            WorkerAction::ExecuteOne(0),
            WorkerAction::ExecuteOne(1),
            WorkerAction::CheckShutdown,
            WorkerAction::ExecuteOne(0),
            WorkerAction::ExecuteOne(1),
            WorkerAction::WaitForJobs,
        ]
    );
    assert_eq!(executed, vec![1, 2]);
    assert!(storages[0].is_empty() && storages[1].is_empty());
}

#[test]
fn processes_single_job() {
    let mut storages = vec![MemoryStorage::new()];
    storages[0].job_push(1);
    let mut worker = WorkerState::new(1);
    let mut executed = Vec::new();
    run_until_wait(&mut worker, &mut storages, &mut executed);
    let action = perform(&mut worker, WorkerAction::WaitForJobs, &mut storages, &mut executed, true);
    assert_eq!(action, WorkerAction::Exit);
    assert_eq!(executed.len(), 1);
}

#[test]
fn processes_multiple_jobs() {
    let mut storages = vec![MemoryStorage::new()];
    for id in 0..5 {
        storages[0].job_push(id);
    }
    let mut first = WorkerState::new(1);
    let mut second = WorkerState::new(1);
    let mut executed = Vec::new();
    let mut a = first.action();
    let mut b = second.action();
    while a != WorkerAction::WaitForJobs || b != WorkerAction::WaitForJobs {
        if a != WorkerAction::WaitForJobs {
            a = perform(&mut first, a, &mut storages, &mut executed, false);
        }
        if b != WorkerAction::WaitForJobs {
            b = perform(&mut second, b, &mut storages, &mut executed, false);
        }
    }
    assert_eq!(executed, vec![0, 1, 2, 3, 4]);
    assert_eq!(perform(&mut first, a, &mut storages, &mut executed, true), WorkerAction::Exit);
    assert_eq!(perform(&mut second, b, &mut storages, &mut executed, true), WorkerAction::Exit);
}

#[test]
fn multi_storage_processes_from_all() {
    let mut storages = vec![MemoryStorage::new(), MemoryStorage::new()];
    storages[0].job_push(10);
    storages[1].job_push(20);
    let mut first = WorkerState::new(2);
    let mut second = WorkerState::new(2);
    let mut executed = Vec::new();
    run_until_wait(&mut first, &mut storages, &mut executed);
    run_until_wait(&mut second, &mut storages, &mut executed);
    assert_eq!(executed.len(), 2);
}

#[test]
fn shutdown_signal_stops_checking_worker() {
    let mut worker = WorkerState::new(3);
    assert_eq!(worker.step(WorkerEvent::ShutdownSignal), WorkerAction::Exit);
    assert_eq!(worker.phase(), WorkerPhase::Stopped);
}

#[test]
fn stopped_worker_stays_stopped() {
    let mut worker = WorkerState::new(1);
    worker.step(WorkerEvent::ShutdownSignal);
    for event in [
        WorkerEvent::NoSignal,
        WorkerEvent::StorageFailed,
        WorkerEvent::Outcome(ExecuteOutcome::Executed),
        WorkerEvent::ShutdownSignal,
    ] {
        assert!(worker.accepts(event));
        assert_eq!(worker.step(event), WorkerAction::Exit);
    }
}

#[test]
fn job_then_check_before_next_claim() {
    let mut worker = WorkerState::new(2);
    assert_eq!(worker.step(WorkerEvent::NoSignal), WorkerAction::ExecuteOne(0));
    assert_eq!(
        worker.step(WorkerEvent::Outcome(ExecuteOutcome::Executed)),
        WorkerAction::CheckShutdown
    );
}

#[test]
fn failing_storage_is_skipped() {
    let mut worker = WorkerState::new(3);
    assert_eq!(worker.step(WorkerEvent::NoSignal), WorkerAction::ExecuteOne(0));
    assert_eq!(worker.step(WorkerEvent::StorageFailed), WorkerAction::ExecuteOne(1));
    assert_eq!(
        worker.step(WorkerEvent::Outcome(ExecuteOutcome::Empty)),
        WorkerAction::ExecuteOne(2)
    );
    assert_eq!(worker.step(WorkerEvent::StorageFailed), WorkerAction::WaitForJobs);
    assert_eq!(worker.phase(), WorkerPhase::Waiting);
    assert_eq!(worker.step(WorkerEvent::NoSignal), WorkerAction::CheckShutdown);
}

#[test]
fn worker_rejects_out_of_place_events() {
    let worker = WorkerState::new(1);
    assert!(!worker.accepts(WorkerEvent::StorageFailed));
    assert!(!worker.accepts(WorkerEvent::Outcome(ExecuteOutcome::Empty)));
    assert!(worker.accepts(WorkerEvent::NoSignal));
}
