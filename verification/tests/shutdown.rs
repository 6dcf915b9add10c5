use fast_job_queue::{JobQueueError, ShutdownTracker};

#[test]
fn shutdown_is_graceful() {
    let mut tracker = ShutdownTracker::new(2);
    assert_eq!(tracker.next_worker(), Some(0));
    tracker.record(Ok(()));
    assert_eq!(tracker.next_worker(), Some(1));
    tracker.record(Ok(()));
    assert_eq!(tracker.next_worker(), None);
    assert!(tracker.finish().is_ok());
}

#[test]
fn shutdown_after_drained_workers_is_immediate() {
    // A shutdown that finds the worker list already drained (as one through
    // a second handle of the same queue does) has no worker left to join.
    let mut first = ShutdownTracker::new(1);
    first.record(Ok(()));
    assert!(first.finish().is_ok());
    let second = ShutdownTracker::new(0);
    assert_eq!(second.next_worker(), None);
    assert!(second.finish().is_ok());
}

#[test]
fn shutdown_waits_for_every_worker_after_a_panic() {
    let mut tracker = ShutdownTracker::new(3);
    tracker.record(Ok(()));
    assert_eq!(tracker.next_worker(), Some(1));
    tracker.record(Err(String::from("task 7 panicked")));
    assert_eq!(tracker.next_worker(), Some(2));
    tracker.record(Ok(()));
    assert_eq!(tracker.next_worker(), None);
    match tracker.finish() {
        Err(JobQueueError::WorkerPanicked { reason }) => {
            assert_eq!(reason, "Worker 1 panicked: task 7 panicked");
        }
        other => panic!("unexpected result: {:?}", other),
    }
}

#[test]
fn shutdown_reports_first_of_several_panics() {
    let mut tracker = ShutdownTracker::new(3);
    tracker.record(Ok(()));
    tracker.record(Err(String::from("first")));
    tracker.record(Err(String::from("second")));
    match tracker.finish() {
        Err(JobQueueError::WorkerPanicked { reason }) => {
            assert_eq!(reason, "Worker 1 panicked: first");
        }
        other => panic!("unexpected result: {:?}", other),
    }
}

#[test]
fn worker_panic_message_names_index() {
    let mut tracker = ShutdownTracker::new(13);
    for _ in 0..12 {
        tracker.record(Ok(()));
    }
    tracker.record(Err(String::from("boom")));
    let failure = tracker.finish().unwrap_err();
    assert_eq!(failure.to_string(), "Worker panicked: Worker 12 panicked: boom");
}
