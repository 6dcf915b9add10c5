use fast_job_queue::{Duration, JobQueueBuilder, JobQueueError, MemoryStorage};

#[derive(Debug, Clone)]
struct SimpleJob;

#[test]
fn builder_default_has_sensible_values() {
    let builder: JobQueueBuilder<MemoryStorage<SimpleJob>> = JobQueueBuilder::default();
    assert_eq!(builder.worker_count(), 4);
    assert_eq!(builder.current_poll_interval(), Duration::from_secs(1));
}

#[test]
fn builder_new_matches_default() {
    let builder: JobQueueBuilder<MemoryStorage<SimpleJob>> = JobQueueBuilder::new();
    assert_eq!(builder.worker_count(), 4);
    assert_eq!(builder.current_poll_interval(), Duration::from_millis(1000));
    assert_eq!(builder.storage_count(), 0);
}

#[test]
fn build_rejects_zero_workers() {
    let storage: MemoryStorage<SimpleJob> = MemoryStorage::new();

    let result = JobQueueBuilder::new()
        .workers(0)
        .poll_interval(Duration::from_millis(100))
        .with_storage(storage)
        .build();

    match result {
        Err(e) => assert!(e.to_string().contains("workers must be greater than 0")),
        Ok(_) => panic!("Expected error for zero workers"),
    }
}

#[test]
fn build_rejects_zero_poll_interval() {
    let storage: MemoryStorage<SimpleJob> = MemoryStorage::new();

    let result = JobQueueBuilder::new()
        .workers(2)
        .poll_interval(Duration::from_millis(0))
        .with_storage(storage)
        .build();

    match result {
        Err(e) => assert!(
            e.to_string()
                .contains("poll_interval must be greater than 0")
        ),
        Ok(_) => panic!("Expected error for zero poll_interval"),
    }
}

#[test]
fn build_rejects_missing_storage() {
    let result: Result<_, JobQueueError> = JobQueueBuilder::<MemoryStorage<SimpleJob>>::new()
        .workers(2)
        .poll_interval(Duration::from_millis(10))
        .build();
    match result {
        Err(e) => {
            assert!(matches!(e, JobQueueError::MissingStorages));
            assert_eq!(
                e.to_string(),
                "Invalid configuration: at least one storage must be configured"
            );
        }
        Ok(_) => panic!("Expected error for missing storages"),
    }
}

#[test]
fn build_checks_workers_before_poll_interval() {
    let result = JobQueueBuilder::<u8>::new()
        .workers(0)
        .poll_interval(Duration::from_millis(0))
        .build();
    assert!(matches!(result, Err(JobQueueError::WorkersMustBePositive)));
}

#[test]
fn build_accepts_valid_config() {
    let config = JobQueueBuilder::new()
        .workers(3)
        .poll_interval(Duration::from_millis(250))
        .with_storage(10u8)
        .with_storage(20u8)
        .build()
        .unwrap_or_else(|_| panic!("valid configuration was refused"));
    assert_eq!(config.worker_count(), 3);
    assert_eq!(config.poll_interval(), Duration::from_millis(250));
    let storages = config.storages();
    assert_eq!(&*storages, &[20u8, 10u8]);
}

#[test]
fn setters_replace_earlier_values() {
    let builder: JobQueueBuilder<u8> = JobQueueBuilder::new()
        .workers(7)
        .workers(2)
        .poll_interval(Duration::from_secs(3))
        .poll_interval(Duration::from_millis(5));
    assert_eq!(builder.worker_count(), 2);
    assert_eq!(builder.current_poll_interval(), Duration::from_millis(5));
}

#[test]
fn storage_added_last_is_polled_first() {
    let builder: JobQueueBuilder<u8> = JobQueueBuilder::new()
        .with_storage(1)
        .with_storage(2)
        .with_storage(3);
    assert_eq!(builder.storage_count(), 3);
    let config = builder
        .build()
        .unwrap_or_else(|_| panic!("valid configuration was refused"));
    assert_eq!(&*config.storages(), &[3u8, 2, 1]);
}
