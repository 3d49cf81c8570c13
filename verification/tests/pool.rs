use threadder::PoolError;
use threadder::TaskCarrier;
use threadder::ThreadPool;
use threadder::pool::shutdown_report;

// Sends 3 tasks to the threadpool
#[test]
fn send_thread() {
    let mut thread_pool = ThreadPool::new(3).unwrap();
    for _ in 0..3 {
        thread_pool
            .send(("Hello world!", "Hello world!!!!!"))
            .unwrap();
    }
    thread_pool.stop();
}

#[test]
fn single_thread_test() {
    let mut threadpool = ThreadPool::new(1).unwrap();
    for _ in 0..3 {
        threadpool.send("Hello world!").unwrap();
    }
}

// Tests if the pool shuts down properly
#[test]
fn test_safe_exit() {
    let mut my_threadpool = ThreadPool::new(4).unwrap();
    for _ in 0..4 {
        my_threadpool
            .send(("Goodnight, world!", "Goodmorning, world!"))
            .unwrap();
    }
    my_threadpool.stop();
}

// Test if threadpool properly load-balances.
#[test]
fn test_load_balance() {
    let mut my_threadpool = ThreadPool::new(3).unwrap();
    for _ in 0..6 {
        my_threadpool.send("Loaded B)").unwrap();
    }
    let mut counts = Vec::new();
    for w in 0..my_threadpool.num_workers() {
        counts.push(my_threadpool.worker_task_count(w));
    }
    assert_eq!(counts, vec![2, 2, 2]);
    my_threadpool.stop();
}

#[test]
fn create_zero_workers_rejected() {
    let r = ThreadPool::<u32>::new(0);
    assert!(matches!(r, Err(PoolError::Construction)));
}

#[test]
fn create_keeps_requested_size() {
    let pool = ThreadPool::<u32>::new(5).unwrap();
    assert_eq!(pool.num_workers(), 5);
    assert_eq!(pool.submitted(), 0);
    for w in 0..5 {
        assert!(pool.worker_is_alive(w));
        assert_eq!(pool.worker_task_count(w), 0);
    }
}

#[test]
fn round_robin_targets() {
    let mut pool = ThreadPool::new(4).unwrap();
    for i in 0..8u32 {
        let (w, task) = pool.send(i).unwrap();
        assert_eq!(w, (i as usize) % 4);
        assert_eq!(task, i);
    }
    assert_eq!(pool.submitted(), 8);
    pool.stop();
}

// Pool of 3, submit 6 tasks carrying their submission index: each worker's
// queue holds its every-third share, in increasing order, and the queues
// together hold each index exactly once.
#[test]
fn scenario_six_tasks_three_workers() {
    let mut pool = ThreadPool::new(3).unwrap();
    let mut queues: Vec<Vec<u32>> = vec![Vec::new(), Vec::new(), Vec::new()];
    for i in 0..6u32 {
        let (w, task) = pool.send(i).unwrap();
        queues[w].push(task);
    }
    assert_eq!(queues[0], vec![0, 3]);
    assert_eq!(queues[1], vec![1, 4]);
    assert_eq!(queues[2], vec![2, 5]);
    let mut seen: Vec<u32> = queues.concat();
    seen.sort();
    assert_eq!(seen, vec![0, 1, 2, 3, 4, 5]);
    pool.stop();
}

// Pool of 1: both tasks land on the lone worker, in submission order, and
// both are still owed to the drain when shutdown begins.
#[test]
fn scenario_single_worker_drains_both() {
    let mut pool = ThreadPool::new(1).unwrap();
    let (w1, t1) = pool.send("sleep").unwrap();
    let (w2, t2) = pool.send("increment").unwrap();
    assert_eq!((w1, t1), (0, "sleep"));
    assert_eq!((w2, t2), (0, "increment"));
    assert_eq!(pool.worker_task_count(0), 2);
    pool.stop();
}

#[test]
fn dispatch_error_without_rollback() {
    let mut pool = ThreadPool::new(2).unwrap();
    pool.mark_worker_terminated(1);
    assert!(!pool.worker_is_alive(1));
    assert!(pool.worker_is_alive(0));
    // Submission 0 targets worker 0, which is alive.
    assert_eq!(pool.send(10u32).unwrap(), (0, 10));
    // Submission 1 targets worker 1, whose consuming side terminated.
    assert_eq!(pool.send(11u32), Err(PoolError::Dispatch));
    // The failed attempt still advanced the counter: submission 2 wraps
    // around to worker 0 and succeeds.
    assert_eq!(pool.submitted(), 2);
    assert_eq!(pool.send(12u32).unwrap(), (0, 12));
    assert_eq!(pool.worker_task_count(0), 2);
    assert_eq!(pool.worker_task_count(1), 0);
    pool.stop();
}

#[test]
fn carrier_delivers_and_fails_after_termination() {
    let mut carrier = TaskCarrier::new();
    assert!(carrier.is_alive());
    assert_eq!(carrier.task_count(), 0);
    assert_eq!(carrier.send(41u64), Ok(41));
    assert_eq!(carrier.task_count(), 1);
    carrier.mark_terminated();
    assert!(!carrier.is_alive());
    assert_eq!(carrier.send(42u64), Err(PoolError::Dispatch));
    assert_eq!(carrier.task_count(), 1);
}

#[test]
fn shutdown_report_all_clean() {
    let joins = vec![true, true, true];
    assert_eq!(shutdown_report(&joins), Ok(()));
    let none: Vec<bool> = Vec::new();
    assert_eq!(shutdown_report(&none), Ok(()));
}

#[test]
fn shutdown_report_flags_abnormal_exit() {
    let joins = vec![true, false, true];
    assert_eq!(shutdown_report(&joins), Err(PoolError::WorkerTermination));
}

#[test]
fn worker_share_of_uneven_load() {
    let mut pool = ThreadPool::new(3).unwrap();
    for i in 0..7u32 {
        pool.send(i).unwrap();
    }
    assert_eq!(pool.worker_task_count(0), 3);
    assert_eq!(pool.worker_task_count(1), 2);
    assert_eq!(pool.worker_task_count(2), 2);
    pool.stop();
}
