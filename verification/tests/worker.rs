use threadpool::{Receipt, SharedQueue, Worker, WorkerState};

#[test]
fn new_worker_waits() {
    let worker = Worker::new(3);
    assert_eq!(worker.id(), 3);
    assert_eq!(worker.state(), WorkerState::Waiting);
    assert!(!worker.is_joined());
}

#[test]
fn worker_executes_the_job_it_receives() {
    let mut queue: SharedQueue<u32> = SharedQueue::new();
    assert!(queue.send(40).is_ok());
    let mut worker = Worker::new(0);
    assert!(matches!(worker.step(&mut queue), Receipt::Job(40)));
    assert_eq!(worker.state(), WorkerState::Executing);
    assert!(queue.is_empty());
    worker.finish();
    assert_eq!(worker.state(), WorkerState::Waiting);
    assert_eq!(worker.id(), 0);
}

#[test]
fn worker_goes_on_waiting_on_an_empty_open_queue() {
    let mut queue: SharedQueue<u32> = SharedQueue::new();
    let mut worker = Worker::new(1);
    assert!(matches!(worker.step(&mut queue), Receipt::Empty));
    assert_eq!(worker.state(), WorkerState::Waiting);
    assert!(matches!(worker.step(&mut queue), Receipt::Empty));
    assert_eq!(worker.state(), WorkerState::Waiting);
}

#[test]
fn worker_terminates_on_the_closure_signal() {
    let mut queue: SharedQueue<u32> = SharedQueue::new();
    queue.close();
    let mut worker = Worker::new(2);
    assert!(matches!(worker.step(&mut queue), Receipt::Closed));
    assert_eq!(worker.state(), WorkerState::Terminated);
    assert!(!worker.is_joined());
    worker.reclaim();
    assert!(worker.is_joined());
    assert_eq!(worker.state(), WorkerState::Terminated);
    assert_eq!(worker.id(), 2);
}

#[test]
fn worker_finishes_pending_work_before_it_terminates() {
    let mut queue: SharedQueue<u32> = SharedQueue::new();
    assert!(queue.send(1).is_ok());
    assert!(queue.send(2).is_ok());
    queue.close();
    let mut worker = Worker::new(0);
    let mut seen = Vec::new();
    loop {
        match worker.step(&mut queue) {
            Receipt::Job(job) => {
                assert_eq!(worker.state(), WorkerState::Executing);
                seen.push(job);
                worker.finish();
            }
            Receipt::Empty => panic!("a closed queue never keeps a worker waiting"),
            Receipt::Closed => break,
        }
    }
    assert_eq!(seen, vec![1, 2]);
    assert_eq!(worker.state(), WorkerState::Terminated);
}
