use std::sync::{Arc, Mutex};
use threadpool::{PoolError, Receipt, ThreadPool, WorkerState};

type Job = Box<dyn FnOnce() + Send + 'static>;

/// A small deterministic generator of choices.
struct Choices(u64);

impl Choices {
    fn next(&mut self, below: usize) -> usize {
        self.0 = self
            .0
            .wrapping_mul(6364136223846793005)
            .wrapping_add(1442695040888963407);
        ((self.0 >> 33) % below as u64) as usize
    }
}

/// Drives a pool of `nthreads` workers through `steps` arbitrary events,
/// then tears it down, and returns the numbers of the submitted jobs in the
/// order in which they were received and the number of runs of each job.
fn drive(nthreads: usize, steps: usize, seed: u64) -> (Vec<usize>, Vec<usize>) {
    let mut choices = Choices(seed);
    let mut pool: ThreadPool<Job> = ThreadPool::new(nthreads);
    let runs: Arc<Mutex<Vec<usize>>> = Arc::new(Mutex::new(Vec::new()));
    let received: Arc<Mutex<Vec<usize>>> = Arc::new(Mutex::new(Vec::new()));
    // The job that each executing worker holds.
    let mut held: Vec<Option<(usize, Job)>> = (0..nthreads).map(|_| None).collect();
    let mut numbers: Vec<usize> = Vec::new();
    let mut submitted = 0;

    for _ in 0..steps {
        let id = choices.next(nthreads);
        match choices.next(32) {
            0 => {
                let was_open = pool.is_open();
                assert_eq!(pool.close(), was_open);
                assert!(!pool.is_open());
            }
            1..=12 => {
                let number = submitted;
                let counted = runs.clone();
                let job: Job = Box::new(move || counted.lock().unwrap()[number] += 1);
                if pool.is_open() {
                    submitted += 1;
                    runs.lock().unwrap().push(0);
                    numbers.push(number);
                    pool.spawn(job);
                } else {
                    assert!(matches!(pool.try_spawn(job), Err(PoolError::Closed(_))));
                }
            }
            13..=22 => {
                if pool.worker(id).state() == WorkerState::Waiting {
                    let before = pool.pending();
                    match pool.receive(id) {
                        Receipt::Job(job) => {
                            assert!(before > 0);
                            assert_eq!(pool.pending(), before - 1);
                            let number = numbers.remove(0);
                            received.lock().unwrap().push(number);
                            held[id] = Some((number, job));
                        }
                        Receipt::Empty => {
                            assert_eq!(before, 0);
                            assert!(pool.is_open());
                        }
                        Receipt::Closed => {
                            assert_eq!(before, 0);
                            assert!(!pool.is_open());
                            assert_eq!(pool.worker(id).state(), WorkerState::Terminated);
                        }
                    }
                }
            }
            _ => {
                if let Some((_, job)) = held[id].take() {
                    assert_eq!(pool.worker(id).state(), WorkerState::Executing);
                    job();
                    pool.complete(id);
                }
            }
        }
        let executing = held.iter().filter(|job| job.is_some()).count();
        assert_eq!(pool.executing(), executing);
        assert!(pool.executing() <= nthreads);
        assert_eq!(pool.pending(), numbers.len());
        assert_eq!(pool.worker_count(), nthreads);
    }

    pool.close();
    while let Some(id) = pool.next_join() {
        loop {
            match pool.worker(id).state() {
                WorkerState::Waiting => {
                    if let Receipt::Job(job) = pool.receive(id) {
                        let number = numbers.remove(0);
                        received.lock().unwrap().push(number);
                        held[id] = Some((number, job));
                    }
                }
                WorkerState::Executing => {
                    let (_, job) = held[id].take().unwrap();
                    job();
                    pool.complete(id);
                }
                WorkerState::Terminated => break,
            }
        }
        pool.reclaim(id);
    }
    assert!(pool.is_torn_down());
    assert_eq!(pool.pending(), 0);
    assert_eq!(pool.executing(), 0);

    let received = received.lock().unwrap().clone();
    let runs = runs.lock().unwrap().clone();
    assert_eq!(runs.len(), submitted);
    (received, runs)
}

#[test]
fn every_schedule_runs_each_job_once_in_order() {
    for nthreads in [1usize, 2, 3, 8] {
        for seed in 0..25u64 {
            let (received, runs) = drive(nthreads, 200, seed);
            let in_order: Vec<usize> = (0..runs.len()).collect();
            assert_eq!(received, in_order);
            assert!(runs.iter().all(|&count| count == 1));
        }
    }
}

#[test]
fn teardown_of_an_unused_pool_runs_nothing() {
    let (received, runs) = drive(4, 0, 7);
    assert!(received.is_empty());
    assert!(runs.is_empty());
}
