use std::sync::{Arc, Mutex};
use threadpool::{PoolError, Receipt, ThreadPool, WorkerState};

type Job = Box<dyn FnOnce() + Send + 'static>;

/// A job that adds one to `counter`.
fn increment(counter: &Arc<Mutex<usize>>) -> Job {
    let counter = counter.clone();
    Box::new(move || {
        let mut count = counter.lock().unwrap();
        *count += 1;
    })
}

/// A job that writes its own number at the end of `log`.
fn record(log: &Arc<Mutex<Vec<usize>>>, number: usize) -> Job {
    let log = log.clone();
    Box::new(move || log.lock().unwrap().push(number))
}

/// Worker `id` receives a job, which must be pending, and hands it out.
fn take(pool: &mut ThreadPool<Job>, id: usize) -> Job {
    match pool.receive(id) {
        Receipt::Job(job) => job,
        Receipt::Empty => panic!("worker {} found nothing pending", id),
        Receipt::Closed => panic!("worker {} found the queue closed", id),
    }
}

#[test]
fn new_pool_has_the_workers_asked_for_all_waiting() {
    for nthreads in [1usize, 2, 4, 17] {
        let pool: ThreadPool<Job> = ThreadPool::new(nthreads);
        assert_eq!(pool.worker_count(), nthreads);
        assert!(pool.is_open());
        assert_eq!(pool.pending(), 0);
        assert_eq!(pool.executing(), 0);
        assert!(!pool.is_torn_down());
        assert_eq!(pool.next_join(), Some(0));
        for id in 0..nthreads {
            let worker = pool.worker(id);
            assert_eq!(worker.id(), id);
            assert_eq!(worker.state(), WorkerState::Waiting);
            assert!(!worker.is_joined());
        }
    }
}

#[test]
fn try_new_refuses_a_pool_without_workers() {
    let refused: Result<ThreadPool<Job>, PoolError<Job>> = ThreadPool::try_new(0);
    assert!(matches!(refused, Err(PoolError::InvalidConfiguration)));
}

#[test]
fn try_new_makes_the_pool_that_new_makes() {
    let made: Result<ThreadPool<Job>, PoolError<Job>> = ThreadPool::try_new(3);
    match made {
        Ok(pool) => {
            assert_eq!(pool.worker_count(), 3);
            assert!(pool.is_open());
            assert_eq!(pool.pending(), 0);
            for id in 0..3 {
                assert_eq!(pool.worker(id).id(), id);
                assert_eq!(pool.worker(id).state(), WorkerState::Waiting);
            }
        }
        Err(_) => panic!("three workers are a valid configuration"),
    }
}

#[test]
fn functional_test() {
    let max_thread = 4;
    let mut tp: ThreadPool<Job> = ThreadPool::new(max_thread);
    let counter = Arc::new(Mutex::new(0));

    for _ in 0..max_thread {
        tp.spawn(increment(&counter));
    }
    assert_eq!(tp.pending(), max_thread);

    // Every worker receives one job and runs it.
    for id in 0..max_thread {
        let job = take(&mut tp, id);
        job();
        tp.complete(id);
    }

    assert_eq!(*counter.lock().unwrap(), max_thread);
}

#[test]
fn spawn_returns_before_the_job_runs() {
    let mut pool: ThreadPool<Job> = ThreadPool::new(2);
    let counter = Arc::new(Mutex::new(0));
    pool.spawn(increment(&counter));
    pool.spawn(increment(&counter));
    assert_eq!(pool.pending(), 2);
    assert_eq!(pool.executing(), 0);
    assert_eq!(*counter.lock().unwrap(), 0);
}

#[test]
fn jobs_are_received_in_submission_order() {
    let mut pool: ThreadPool<Job> = ThreadPool::new(3);
    let log = Arc::new(Mutex::new(Vec::new()));
    for number in 0..7 {
        pool.spawn(record(&log, number));
    }
    // Whichever worker asks next gets the oldest pending job.
    for id in [2usize, 0, 1, 1, 0, 2, 1] {
        let job = take(&mut pool, id);
        job();
        pool.complete(id);
    }
    assert_eq!(*log.lock().unwrap(), vec![0, 1, 2, 3, 4, 5, 6]);
    assert_eq!(pool.pending(), 0);
}

#[test]
fn four_workers_run_four_jobs_side_by_side() {
    let mut pool: ThreadPool<Job> = ThreadPool::new(4);
    let counter = Arc::new(Mutex::new(0));
    for _ in 0..4 {
        pool.spawn(increment(&counter));
    }
    // No worker has to wait for another one to finish before it starts.
    let mut running = Vec::new();
    for id in 0..4 {
        running.push(take(&mut pool, id));
        assert_eq!(pool.executing(), id + 1);
        assert_eq!(pool.worker(id).state(), WorkerState::Executing);
    }
    assert_eq!(pool.executing(), 4);
    assert_eq!(pool.pending(), 0);
    for (id, job) in running.into_iter().enumerate() {
        job();
        pool.complete(id);
        assert_eq!(pool.worker(id).state(), WorkerState::Waiting);
    }
    assert_eq!(pool.executing(), 0);
    assert_eq!(*counter.lock().unwrap(), 4);
}

#[test]
fn ten_jobs_on_two_workers_each_run_once() {
    let mut pool: ThreadPool<Job> = ThreadPool::new(2);
    let runs: Vec<Arc<Mutex<usize>>> = (0..10).map(|_| Arc::new(Mutex::new(0))).collect();
    for counter in &runs {
        pool.spawn(increment(counter));
    }
    assert_eq!(pool.pending(), 10);

    let mut most_at_once = 0;
    while pool.pending() > 0 {
        // Both workers pick up a job before either of them finishes.
        let first = take(&mut pool, 0);
        let second = take(&mut pool, 1);
        most_at_once = most_at_once.max(pool.executing());
        assert!(matches!(pool.worker(0).state(), WorkerState::Executing));
        assert!(matches!(pool.worker(1).state(), WorkerState::Executing));
        second();
        pool.complete(1);
        first();
        pool.complete(0);
    }

    assert_eq!(most_at_once, 2);
    assert_eq!(pool.executing(), 0);
    for counter in &runs {
        assert_eq!(*counter.lock().unwrap(), 1);
    }
}

#[test]
fn idle_worker_keeps_waiting_while_the_pool_is_open() {
    let mut pool: ThreadPool<Job> = ThreadPool::new(2);
    assert!(matches!(pool.receive(1), Receipt::Empty));
    assert_eq!(pool.worker(1).state(), WorkerState::Waiting);
    let counter = Arc::new(Mutex::new(0));
    pool.spawn(increment(&counter));
    let job = take(&mut pool, 1);
    assert_eq!(pool.worker(1).state(), WorkerState::Executing);
    assert_eq!(pool.worker(0).state(), WorkerState::Waiting);
    assert_eq!(pool.executing(), 1);
    job();
    pool.complete(1);
    assert_eq!(pool.executing(), 0);
    assert_eq!(*counter.lock().unwrap(), 1);
}

#[test]
fn try_spawn_queues_the_job_while_the_pool_is_open() {
    let mut pool: ThreadPool<Job> = ThreadPool::new(1);
    let counter = Arc::new(Mutex::new(0));
    assert!(pool.try_spawn(increment(&counter)).is_ok());
    assert_eq!(pool.pending(), 1);
    let job = take(&mut pool, 0);
    job();
    pool.complete(0);
    assert_eq!(*counter.lock().unwrap(), 1);
}
