use fast_job_queue::MemoryStorage;

#[test]
fn storage_new_is_empty() {
    let storage = MemoryStorage::<u64>::new();
    assert!(storage.is_empty());
    assert_eq!(storage.len(), 0);
}

#[test]
fn storage_default_is_empty() {
    let storage = MemoryStorage::<u64>::default();
    assert!(storage.is_empty());
}

#[test]
fn storage_pop_returns_none_when_empty() {
    let mut storage = MemoryStorage::<u64>::new();
    let job = storage.job_pop();
    assert!(job.is_none());
}

#[test]
fn storage_fifo_order() {
    let mut storage = MemoryStorage::<u64>::new();
    let mut seen = Vec::new();

    for id in [1_u64, 2, 3] {
        storage.job_push(id);
    }

    seen.push(storage.job_pop().unwrap());
    seen.push(storage.job_pop().unwrap());
    seen.push(storage.job_pop().unwrap());
    let none = storage.job_pop();
    assert!(none.is_none());

    assert_eq!(seen, vec![1, 2, 3]);
}

#[test]
fn storage_counts_pushes() {
    let mut storage = MemoryStorage::<u64>::new();
    for id in 0..100 {
        storage.job_push(id);
    }
    assert_eq!(storage.len(), 100);
    assert!(!storage.is_empty());
    for id in 0..100 {
        assert_eq!(storage.job_pop(), Some(id));
    }
    assert!(storage.is_empty());
}

#[test]
fn push_keeps_front() {
    let mut storage = MemoryStorage::<&str>::new();
    storage.job_push("first");
    storage.job_push("second");
    assert_eq!(storage.job_pop(), Some("first"));
    storage.job_push("third");
    assert_eq!(storage.job_pop(), Some("second"));
    assert_eq!(storage.job_pop(), Some("third"));
    assert_eq!(storage.job_pop(), None);
}
