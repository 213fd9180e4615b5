//! One worker of the pool: the state machine of its run loop.
use crate::queue::{Receipt, SharedQueue};
use vstd::prelude::*;

verus! {

/// Where a worker stands in its run loop.
#[derive(Clone, Copy, PartialEq, Eq, Debug, Structural)]
pub enum WorkerState {
    /// Attempting to receive the next job. This is where a worker starts.
    Waiting,
    /// Running a job it has received. It holds no access to the queue. A job
    /// that fails or never returns leaves its worker here for good: the pool
    /// neither replaces the worker nor reports the failure.
    Executing,
    /// It saw the queue closed with nothing pending and left its loop.
    Terminated,
}

/// A worker as a mathematical value.
pub struct WorkerModel {
    /// Where the worker stands in its run loop.
    pub state: WorkerState,
    /// Whether teardown has reclaimed the worker's thread.
    pub joined: bool,
}

impl WorkerModel {
    /// A worker as it is made: waiting, with its thread not reclaimed.
    pub open spec fn new() -> Self {
        WorkerModel { state: WorkerState::Waiting, joined: false }
    }

    /// Only a worker that has left its loop can have been reclaimed.
    pub open spec fn inv(self) -> bool {
        self.joined ==> self.state is Terminated
    }

    /// The worker after a receive attempt that yielded `receipt`: a job sets
    /// it executing, an empty open queue leaves it waiting, and the closure
    /// signal terminates it.
    pub open spec fn after_receipt<T>(self, receipt: Receipt<T>) -> Self {
        match receipt {
            Receipt::Job(_) => WorkerModel { state: WorkerState::Executing, ..self },
            Receipt::Empty => self,
            Receipt::Closed => WorkerModel { state: WorkerState::Terminated, ..self },
        }
    }

    /// The worker after the job it was running returned.
    pub open spec fn finish(self) -> Self {
        WorkerModel { state: WorkerState::Waiting, ..self }
    }

    /// The worker after teardown reclaimed its thread.
    pub open spec fn reclaim(self) -> Self {
        WorkerModel { joined: true, ..self }
    }
}

/// The pool's record of one worker: its identifier, where it stands in its
/// loop, and whether its thread has been reclaimed.
#[derive(Clone, Copy, Debug)]
pub struct Worker {
    id: usize,
    state: WorkerState,
    joined: bool,
}

impl View for Worker {
    type V = WorkerModel;

    closed spec fn view(&self) -> WorkerModel {
        WorkerModel { state: self.state, joined: self.joined }
    }
}

impl Worker {
    /// The worker's identifier, for use in contracts.
    pub closed spec fn spec_id(&self) -> usize {
        self.id
    }

    /// Makes the record of a worker that has just started: it is waiting.
    pub fn new(id: usize) -> (worker: Worker)
        ensures
            worker.spec_id() == id,
            worker@ == WorkerModel::new(),
    {
        Worker { id, state: WorkerState::Waiting, joined: false }
    }

    /// The worker's identifier: its index among the pool's workers.
    #[verifier::when_used_as_spec(spec_id)]
    pub fn id(&self) -> (id: usize)
        ensures
            id == self.spec_id(),
    {
        self.id
    }

    /// Where the worker stands in its run loop.
    pub fn state(&self) -> (state: WorkerState)
        ensures
            state == self@.state,
    {
        self.state
    }

    /// Whether teardown has reclaimed the worker's thread.
    pub fn is_joined(&self) -> (joined: bool)
        ensures
            joined == self@.joined,
    {
        self.joined
    }

    /// One pass of the run loop: the waiting worker makes one receive attempt
    /// on `queue`. On a job it starts executing and the job is handed out for
    /// it to run; on the closure signal it terminates; otherwise it goes on
    /// waiting and nothing changes.
    pub fn step<T>(&mut self, queue: &mut SharedQueue<T>) -> (receipt: Receipt<T>)
        requires
            old(self)@.state is Waiting,
            old(queue).wf(),
        ensures
            final(queue).wf(),
            receipt == old(queue)@.receipt(),
            final(queue)@ =~= old(queue)@.receive(),
            final(self)@ == old(self)@.after_receipt(receipt),
            final(self).id() == old(self).id(),
    {
        let receipt = queue.receive();
        match receipt {
            Receipt::Job(_) => {
                self.state = WorkerState::Executing;
            },
            Receipt::Empty => {},
            Receipt::Closed => {
                self.state = WorkerState::Terminated;
            },
        }
        receipt
    }

    /// The job that the worker was running has returned: it waits again.
    pub fn finish(&mut self)
        requires
            old(self)@.state is Executing,
        ensures
            final(self)@ == old(self)@.finish(),
            final(self).id() == old(self).id(),
    {
        self.state = WorkerState::Waiting;
    }

    /// Teardown has joined the terminated worker's thread.
    pub fn reclaim(&mut self)
        requires
            old(self)@.state is Terminated,
        ensures
            final(self)@ == old(self)@.reclaim(),
            final(self).id() == old(self).id(),
    {
        self.joined = true;
    }
}

} // verus!
