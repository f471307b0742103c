use rag_pipeline::{ErrorKind, TaskPool};

#[test]
fn pool_never_runs_more_than_its_capacity() {
    let mut pool = TaskPool::new(2, 5);
    assert_eq!(pool.start(), Some(0));
    assert_eq!(pool.start(), Some(1));
    assert_eq!(pool.start(), None);
    pool.finish(0, Ok(()));
    assert_eq!(pool.start(), Some(2));
    assert_eq!(pool.start(), None);
    assert!(pool.is_running(1));
    assert!(!pool.is_running(0));
    assert!(!pool.is_complete());
}

#[test]
fn pool_keeps_the_first_failure() {
    let mut pool = TaskPool::new(3, 3);
    while pool.start().is_some() {}
    pool.finish(2, Err(ErrorKind::ServiceFailure));
    pool.finish(0, Err(ErrorKind::NotFound));
    pool.finish(1, Ok(()));
    assert!(pool.is_complete());
    assert_eq!(pool.outcome(), Err(ErrorKind::ServiceFailure));
}

#[test]
fn empty_pool_is_complete_and_succeeds() {
    let mut pool = TaskPool::new(1, 0);
    assert_eq!(pool.start(), None);
    assert!(pool.is_complete());
    assert_eq!(pool.outcome(), Ok(()));
}
