use fast_job_queue::error::{decimal_string, worker_panicked};
use fast_job_queue::{Duration, ExecuteOutcome, JobQueueError, StorageList};

#[test]
fn duration_from_millis_splits_seconds() {
    let d = Duration::from_millis(1500);
    assert_eq!(d.as_secs(), 1);
    assert_eq!(d.subsec_nanos(), 500_000_000);
    assert!(!d.is_zero());
    assert!(Duration::from_millis(0).is_zero());
}

#[test]
fn duration_new_carries_nanos() {
    let d = Duration::new(2, 1_250_000_000);
    assert_eq!(d.as_secs(), 3);
    assert_eq!(d.subsec_nanos(), 250_000_000);
    assert_eq!(Duration::new(5, 0), Duration::from_secs(5));
}

#[test]
fn error_messages() {
    assert_eq!(
        JobQueueError::WorkersMustBePositive.to_string(),
        "Invalid configuration: workers must be greater than 0"
    );
    assert_eq!(
        JobQueueError::PollIntervalMustBePositive.to_string(),
        "Invalid configuration: poll_interval must be greater than 0"
    );
    assert_eq!(
        JobQueueError::WorkerPanicked { reason: String::from("x") }.to_string(),
        "Worker panicked: x"
    );
}

#[test]
fn decimal_writes_numbers() {
    assert_eq!(decimal_string(0), "0");
    assert_eq!(decimal_string(9), "9");
    assert_eq!(decimal_string(10), "10");
    assert_eq!(decimal_string(4096), "4096");
    assert_eq!(decimal_string(usize::MAX), usize::MAX.to_string());
}

#[test]
fn worker_panicked_reason() {
    match worker_panicked(3, "gone") {
        JobQueueError::WorkerPanicked { reason } => assert_eq!(reason, "Worker 3 panicked: gone"),
        other => panic!("unexpected error: {:?}", other),
    }
}

#[test]
fn storage_list_keeps_order() {
    let mut list = StorageList::new();
    assert!(list.is_empty());
    list.storage_push('a');
    list.storage_push('b');
    assert!(!list.is_empty());
    assert_eq!(list.len(), 2);
    let shared = list.arc_slice_into();
    assert_eq!(&*shared, &['a', 'b']);
}

#[test]
fn execute_outcome_compares() {
    assert_eq!(ExecuteOutcome::Executed, ExecuteOutcome::Executed);
    assert_ne!(ExecuteOutcome::Executed, ExecuteOutcome::Empty);
}
