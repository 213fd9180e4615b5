//! The pool as a state machine over mathematical values: its states, the
//! events that move it, and the invariant that every reachable state keeps.
use crate::queue::QueueModel;
use crate::worker::{WorkerModel, WorkerState};
use vstd::prelude::*;

verus! {

/// Something that happens to the pool.
pub enum Event<T> {
    /// A caller submits a job.
    Submit(T),
    /// The worker with this identifier makes a receive attempt.
    Receive(int),
    /// The job that this worker was running returned.
    Complete(int),
    /// The pool's sending side is released: teardown begins.
    Close,
    /// Teardown has joined this worker's thread.
    Reclaim(int),
}

/// The jobs that `schedule` submits, in the order of submission.
pub open spec fn submitted<T>(schedule: Seq<Event<T>>) -> Seq<T>
    decreases schedule.len(),
{
    if schedule.len() == 0 {
        Seq::empty()
    } else {
        match schedule.last() {
            Event::Submit(job) => submitted(schedule.drop_last()).push(job),
            _ => submitted(schedule.drop_last()),
        }
    }
}

/// How many jobs run to completion in `schedule`.
pub open spec fn completions<T>(schedule: Seq<Event<T>>) -> nat
    decreases schedule.len(),
{
    if schedule.len() == 0 {
        0
    } else {
        completions(schedule.drop_last()) + if schedule.last() is Complete {
            1nat
        } else {
            0nat
        }
    }
}

/// The schedule in which the workers `ids` make one receive attempt each,
/// in that order, and nothing else happens.
pub open spec fn receive_each<T>(ids: Seq<int>) -> Seq<Event<T>> {
    Seq::new(ids.len(), |k: int| Event::Receive(ids[k]))
}

/// The pool as a mathematical value.
#[verifier::ext_equal]
pub struct PoolModel<T> {
    /// The shared queue, with its record of what was sent and received.
    pub queue: QueueModel<T>,
    /// The workers, each at the index that is its identifier.
    pub workers: Seq<WorkerModel>,
    /// How many jobs have run to completion.
    pub completed: nat,
}

impl<T> PoolModel<T> {
    /// The pool as it is made for `nthreads` workers: an open, empty queue and
    /// every worker waiting.
    pub open spec fn init(nthreads: nat) -> Self {
        PoolModel {
            queue: QueueModel::new(),
            workers: Seq::new(nthreads, |i: int| WorkerModel::new()),
            completed: 0,
        }
    }

    /// Whether `id` identifies a worker of this pool.
    pub open spec fn has_worker(self, id: int) -> bool {
        0 <= id < self.workers.len()
    }

    /// How many workers are waiting for a job.
    pub open spec fn waiting(self) -> nat {
        count_in_state(self.workers, WorkerState::Waiting)
    }

    /// How many workers are running a job.
    pub open spec fn executing(self) -> nat {
        count_in_state(self.workers, WorkerState::Executing)
    }

    /// How many workers have left their loop.
    pub open spec fn terminated(self) -> nat {
        count_in_state(self.workers, WorkerState::Terminated)
    }

    /// How many workers teardown has reclaimed.
    pub open spec fn joined(self) -> nat {
        count_joined(self.workers)
    }

    /// The queue is closed and nothing is pending.
    pub open spec fn drained(self) -> bool {
        !self.queue.open && self.queue.pending.len() == 0
    }

    /// Whether `id` is the worker that teardown reclaims next: the first, in
    /// the order of construction, that has not been reclaimed.
    pub open spec fn is_next_join(self, id: int) -> bool {
        &&& self.has_worker(id)
        &&& !self.workers[id].joined
        &&& forall|i: int| 0 <= i < id ==> (#[trigger] self.workers[i]).joined
    }

    /// Teardown is over: every worker has been reclaimed.
    pub open spec fn torn_down(self) -> bool {
        forall|i: int| self.has_worker(i) ==> (#[trigger] self.workers[i]).joined
    }

    /// The pool after `job` was submitted.
    pub open spec fn submit(self, job: T) -> Self {
        PoolModel { queue: self.queue.send(job), ..self }
    }

    /// The pool after worker `id` made a receive attempt.
    pub open spec fn receive(self, id: int) -> Self {
        PoolModel {
            queue: self.queue.receive(),
            workers: self.workers.update(
                id,
                self.workers[id].after_receipt(self.queue.receipt()),
            ),
            ..self
        }
    }

    /// The pool after the job that worker `id` was running returned.
    pub open spec fn complete(self, id: int) -> Self {
        PoolModel {
            workers: self.workers.update(id, self.workers[id].finish()),
            completed: self.completed + 1,
            ..self
        }
    }

    /// The pool after its sending side was released.
    pub open spec fn close(self) -> Self {
        PoolModel { queue: self.queue.close(), ..self }
    }

    /// The pool after teardown reclaimed worker `id`.
    pub open spec fn reclaim(self, id: int) -> Self {
        PoolModel { workers: self.workers.update(id, self.workers[id].reclaim()), ..self }
    }

    /// Whether `event` can happen in this state. A job can be submitted while
    /// the pool is open; a worker attempts a receive while it waits, whatever
    /// the other workers do; a job completes on the worker that runs it; the
    /// sending side can be released at any time, once with effect; and
    /// teardown reclaims terminated workers in the order of construction.
    pub open spec fn enabled(self, event: Event<T>) -> bool {
        match event {
            Event::Submit(_) => self.queue.open,
            Event::Receive(id) => self.has_worker(id) && self.workers[id].state is Waiting,
            Event::Complete(id) => self.has_worker(id) && self.workers[id].state is Executing,
            Event::Close => true,
            Event::Reclaim(id) => self.is_next_join(id) && self.workers[id].state is Terminated,
        }
    }

    /// The pool after `event`.
    pub open spec fn step(self, event: Event<T>) -> Self {
        match event {
            Event::Submit(job) => self.submit(job),
            Event::Receive(id) => self.receive(id),
            Event::Complete(id) => self.complete(id),
            Event::Close => self.close(),
            Event::Reclaim(id) => self.reclaim(id),
        }
    }

    /// Whether the events of `schedule` can happen one after the other,
    /// starting in this state.
    pub open spec fn admits(self, schedule: Seq<Event<T>>) -> bool
        decreases schedule.len(),
    {
        schedule.len() > 0 ==> {
            &&& self.admits(schedule.drop_last())
            &&& self.run(schedule.drop_last()).enabled(schedule.last())
        }
    }

    /// The pool after the events of `schedule` happened one after the other.
    pub open spec fn run(self, schedule: Seq<Event<T>>) -> Self
        decreases schedule.len(),
    {
        if schedule.len() == 0 {
            self
        } else {
            self.run(schedule.drop_last()).step(schedule.last())
        }
    }

    /// What holds of every state that a pool can reach.
    ///
    /// The queue has lost and duplicated nothing; there is at least one
    /// worker; every job that was received has either completed or is running
    /// on a worker right now; a worker has terminated only if the queue is
    /// closed and empty; a worker has been reclaimed only after it terminated;
    /// and the reclaimed workers are the first ones in the order of
    /// construction.
    pub open spec fn inv(self) -> bool {
        &&& self.queue.inv()
        &&& self.workers.len() > 0
        &&& self.queue.received.len() == self.completed + self.executing()
        &&& forall|i: int| self.has_worker(i) ==> (#[trigger] self.workers[i]).inv()
        &&& forall|i: int|
            self.has_worker(i) && (#[trigger] self.workers[i]).state is Terminated
                ==> self.drained()
        &&& forall|i: int, j: int|
            0 <= i < j < self.workers.len() && (#[trigger] self.workers[j]).joined ==> (
            #[trigger] self.workers[i]).joined
    }

    /// How much is left to do before a closed pool is torn down: a bound on
    /// the number of receive attempts, completions and reclaims that can
    /// still happen.
    pub open spec fn work_left(self) -> nat {
        3 * self.queue.pending.len() + 2 * self.executing() + self.waiting() + (
        self.workers.len() - self.joined()) as nat
    }
}

/// How many of `workers` are in state `state`.
pub open spec fn count_in_state(workers: Seq<WorkerModel>, state: WorkerState) -> nat
    decreases workers.len(),
{
    if workers.len() == 0 {
        0
    } else {
        count_in_state(workers.drop_last(), state) + if workers.last().state == state {
            1nat
        } else {
            0nat
        }
    }
}

/// How many of `workers` have been reclaimed.
pub open spec fn count_joined(workers: Seq<WorkerModel>) -> nat
    decreases workers.len(),
{
    if workers.len() == 0 {
        0
    } else {
        count_joined(workers.drop_last()) + if workers.last().joined {
            1nat
        } else {
            0nat
        }
    }
}

/// No more workers are in a state than there are workers.
pub proof fn lemma_count_in_state_bounded(workers: Seq<WorkerModel>, state: WorkerState)
    ensures
        count_in_state(workers, state) <= workers.len(),
    decreases workers.len(),
{
    if workers.len() > 0 {
        lemma_count_in_state_bounded(workers.drop_last(), state);
    }
}

/// Where no worker is in a state, the count for that state is zero.
pub proof fn lemma_count_in_state_none(workers: Seq<WorkerModel>, state: WorkerState)
    requires
        forall|i: int| 0 <= i < workers.len() ==> (#[trigger] workers[i]).state != state,
    ensures
        count_in_state(workers, state) == 0,
    decreases workers.len(),
{
    if workers.len() > 0 {
        lemma_count_in_state_none(workers.drop_last(), state);
    }
}

/// Where every worker is in a state, the count for that state is the number
/// of workers.
pub proof fn lemma_count_in_state_all(workers: Seq<WorkerModel>, state: WorkerState)
    requires
        forall|i: int| 0 <= i < workers.len() ==> (#[trigger] workers[i]).state == state,
    ensures
        count_in_state(workers, state) == workers.len(),
    decreases workers.len(),
{
    if workers.len() > 0 {
        lemma_count_in_state_all(workers.drop_last(), state);
    }
}

/// Replacing one worker moves the count for a state by that worker alone.
pub proof fn lemma_count_in_state_update(
    workers: Seq<WorkerModel>,
    id: int,
    worker: WorkerModel,
    state: WorkerState,
)
    requires
        0 <= id < workers.len(),
    ensures
        count_in_state(workers.update(id, worker), state) + (if workers[id].state == state {
            1nat
        } else {
            0nat
        }) == count_in_state(workers, state) + (if worker.state == state {
            1nat
        } else {
            0nat
        }),
    decreases workers.len(),
{
    let updated = workers.update(id, worker);
    if id == workers.len() - 1 {
        assert(updated.drop_last() =~= workers.drop_last());
    } else {
        assert(updated.drop_last() =~= workers.drop_last().update(id, worker));
        lemma_count_in_state_update(workers.drop_last(), id, worker, state);
    }
}

/// No more workers have been reclaimed than there are workers.
pub proof fn lemma_count_joined_bounded(workers: Seq<WorkerModel>)
    ensures
        count_joined(workers) <= workers.len(),
    decreases workers.len(),
{
    if workers.len() > 0 {
        lemma_count_joined_bounded(workers.drop_last());
    }
}

/// Where every worker has been reclaimed, the count of reclaimed workers is
/// the number of workers.
pub proof fn lemma_count_joined_all(workers: Seq<WorkerModel>)
    requires
        forall|i: int| 0 <= i < workers.len() ==> (#[trigger] workers[i]).joined,
    ensures
        count_joined(workers) == workers.len(),
    decreases workers.len(),
{
    if workers.len() > 0 {
        lemma_count_joined_all(workers.drop_last());
    }
}

/// Replacing one worker moves the count of reclaimed workers by that worker
/// alone.
pub proof fn lemma_count_joined_update(workers: Seq<WorkerModel>, id: int, worker: WorkerModel)
    requires
        0 <= id < workers.len(),
    ensures
        count_joined(workers.update(id, worker)) + (if workers[id].joined {
            1nat
        } else {
            0nat
        }) == count_joined(workers) + (if worker.joined {
            1nat
        } else {
            0nat
        }),
    decreases workers.len(),
{
    let updated = workers.update(id, worker);
    if id == workers.len() - 1 {
        assert(updated.drop_last() =~= workers.drop_last());
    } else {
        assert(updated.drop_last() =~= workers.drop_last().update(id, worker));
        lemma_count_joined_update(workers.drop_last(), id, worker);
    }
}

} // verus!
