use reactor_core::nix::check_err;
use reactor_core::thread_pool::ThreadPool;
use reactor_core::worker::{Task, Worker};

#[test]
fn a_worker_runs_jobs_until_it_is_told_to_stop() {
    assert_eq!(Worker::<()>::next(Task::New(5)), Some(5));
    assert_eq!(Worker::<()>::next(Task::<u32>::Exit), None);
    let worker = Worker::new(3, "thread");
    assert_eq!(worker.id, 3);
    assert_eq!(worker.thread, Some("thread"));
}

#[test]
fn jobs_reach_the_channel_in_order() {
    let (tx, rx) = std::sync::mpsc::channel();
    let pool: ThreadPool<u32, &str> = ThreadPool::new(tx, vec!["a", "b"]);
    assert_eq!(pool.execute(10), Ok(()));
    assert_eq!(pool.execute(11), Ok(()));
    assert!(matches!(rx.try_recv(), Ok(Task::New(10))));
    assert!(matches!(rx.try_recv(), Ok(Task::New(11))));
    assert!(rx.try_recv().is_err());
}

#[test]
fn a_job_comes_back_when_nobody_receives() {
    let (tx, rx) = std::sync::mpsc::channel();
    let pool: ThreadPool<u32, &str> = ThreadPool::new(tx, vec!["a"]);
    drop(rx);
    assert_eq!(pool.execute(10), Err(10));
}

#[test]
fn shutdown_stops_every_worker_and_hands_out_the_threads() {
    let (tx, rx) = std::sync::mpsc::channel();
    let mut pool: ThreadPool<u32, &str> = ThreadPool::new(tx, vec!["a", "b", "c"]);
    let threads = pool.shutdown();
    assert_eq!(threads, vec!["a", "b", "c"]);
    let mut stops = 0;
    while let Ok(task) = rx.try_recv() {
        assert!(matches!(task, Task::Exit));
        stops += 1;
    }
    assert_eq!(stops, 3);
    assert!(pool.shutdown().is_empty());
}

#[test]
fn a_pool_without_workers() {
    let (tx, rx) = std::sync::mpsc::channel();
    let mut pool: ThreadPool<u32, &str> = ThreadPool::new(tx, Vec::new());
    assert!(pool.shutdown().is_empty());
    assert!(rx.try_recv().is_err());
}

#[test]
fn check_err_tells_failure_by_the_sign() {
    assert_eq!(check_err(0).unwrap(), 0);
    assert_eq!(check_err(4711).unwrap(), 4711);
    assert_eq!(check_err(i64::MAX).unwrap(), i64::MAX);
    assert!(check_err(-1).is_err());
    assert!(check_err(i64::MIN).is_err());
}

#[test]
fn a_send_that_failed_hands_the_job_back() {
    assert_eq!(ThreadPool::<u32, ()>::refused(Ok(())), Ok(()));
    assert_eq!(ThreadPool::<u32, ()>::refused(Err(Task::New(8))), Err(8));
    assert_eq!(ThreadPool::<u32, ()>::refused(Err(Task::Exit)), Ok(()));
}

#[test]
fn a_job_is_sent_as_a_new_task() {
    assert!(matches!(ThreadPool::<u32, ()>::task(12), Task::New(12)));
}

#[test]
fn one_stop_request_for_each_worker() {
    let (tx, _rx) = std::sync::mpsc::channel();
    let pool: ThreadPool<u32, &str> = ThreadPool::new(tx, vec!["a", "b", "c"]);
    let stops = pool.stop_requests();
    assert_eq!(stops.len(), 3);
    assert!(stops.iter().all(|stop| matches!(stop, Task::Exit)));
    let (tx, _rx) = std::sync::mpsc::channel();
    let none: ThreadPool<u32, &str> = ThreadPool::new(tx, Vec::new());
    assert!(none.stop_requests().is_empty());
}
