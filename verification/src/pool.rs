//! The pool: the owner of the queue's sending side and of the workers.
use crate::error::PoolError;
use crate::laws::{lemma_init, lemma_step_keeps_inv};
use crate::model::{count_in_state, Event, PoolModel};
use crate::queue::{Receipt, SharedQueue};
use crate::worker::{Worker, WorkerModel, WorkerState};
use vstd::prelude::*;

verus! {

/// A pool of a fixed number of workers around one shared queue of jobs.
///
/// A job is a callable that runs once, takes and returns nothing, can move
/// to another thread and may run for as long as it likes. The pool never
/// runs a job itself: [`ThreadPool::receive`] hands it to the worker whose
/// turn it is, and [`ThreadPool::complete`] records that it returned.
///
/// Teardown is [`ThreadPool::close`], after which the workers drain the queue
/// and terminate, followed by [`ThreadPool::reclaim`] for each worker in the
/// order that [`ThreadPool::next_join`] gives.
pub struct ThreadPool<F: FnOnce() + Send + 'static> {
    queue: SharedQueue<F>,
    workers: Vec<Worker>,
    completed: Ghost<nat>,
}

impl<F: FnOnce() + Send + 'static> View for ThreadPool<F> {
    type V = PoolModel<F>;

    closed spec fn view(&self) -> PoolModel<F> {
        PoolModel {
            queue: self.queue@,
            workers: self.workers@.map_values(|worker: Worker| worker@),
            completed: self.completed@,
        }
    }
}

impl<F: FnOnce() + Send + 'static> ThreadPool<F> {
    /// Every worker's record carries the worker's index as its identifier.
    pub closed spec fn ids_in_order(&self) -> bool {
        forall|i: int| 0 <= i < self.workers.len() ==> (#[trigger] self.workers[i]).id() == i
    }

    /// The pool is in a state that a pool can reach.
    pub open spec fn wf(&self) -> bool {
        self@.inv() && self.ids_in_order()
    }

    /// Makes a pool of `nthreads` workers, numbered from 0 in the order of
    /// construction, all of them waiting on an open, empty queue.
    pub fn new(nthreads: usize) -> (pool: Self)
        requires
            nthreads > 0,
        ensures
            pool.wf(),
            pool@ =~= PoolModel::<F>::init(nthreads as nat),
    {
        let mut workers: Vec<Worker> = Vec::with_capacity(nthreads);
        for id in 0..nthreads
            invariant
                workers.len() == id,
                forall|i: int|
                    0 <= i < id ==> (#[trigger] workers[i]).id() == i && workers[i]@
                        == WorkerModel::new(),
        {
            workers.push(Worker::new(id));
        }
        let pool = ThreadPool { queue: SharedQueue::new(), workers, completed: Ghost(0) };
        proof {
            lemma_init::<F>(nthreads as nat);
            assert(pool@.workers =~= PoolModel::<F>::init(nthreads as nat).workers);
        }
        pool
    }

    /// Makes a pool of `nthreads` workers, or refuses where `nthreads` is
    /// zero.
    pub fn try_new(nthreads: usize) -> (result: Result<Self, PoolError<F>>)
        ensures
            nthreads == 0 ==> result == Err::<Self, PoolError<F>>(PoolError::InvalidConfiguration),
            nthreads > 0 ==> result is Ok && result->Ok_0.wf() && result->Ok_0@
                =~= PoolModel::<F>::init(nthreads as nat),
    {
        if nthreads == 0 {
            Err(PoolError::InvalidConfiguration)
        } else {
            Ok(ThreadPool::new(nthreads))
        }
    }

    /// The number of workers. It is fixed when the pool is made.
    pub fn worker_count(&self) -> (count: usize)
        ensures
            count == self@.workers.len(),
    {
        self.workers.len()
    }

    /// Whether the pool still takes jobs: teardown has not begun.
    pub fn is_open(&self) -> (open: bool)
        ensures
            open == self@.queue.open,
    {
        self.queue.is_open()
    }

    /// The number of jobs submitted and not yet received by a worker.
    pub fn pending(&self) -> (pending: usize)
        ensures
            pending == self@.queue.pending.len(),
    {
        self.queue.len()
    }

    /// The record of worker `id`.
    pub fn worker(&self, id: usize) -> (worker: Worker)
        requires
            self.wf(),
            self@.has_worker(id as int),
        ensures
            worker.id() == id,
            worker@ == self@.workers[id as int],
    {
        proof {
            self.lemma_worker_view(id as int);
        }
        self.workers[id]
    }

    /// The number of workers that are running a job right now.
    pub fn executing(&self) -> (count: usize)
        ensures
            count == self@.executing(),
    {
        let mut count: usize = 0;
        let mut id: usize = 0;
        while id < self.workers.len()
            invariant
                id <= self.workers.len(),
                count <= id,
                count == count_in_state(self@.workers.take(id as int), WorkerState::Executing),
            decreases self.workers.len() - id,
        {
            proof {
                self.lemma_worker_view(id as int);
                assert(self@.workers.take(id as int + 1).drop_last() =~= self@.workers.take(
                    id as int,
                ));
            }
            match self.workers[id].state() {
                WorkerState::Executing => {
                    count += 1;
                },
                _ => {},
            }
            id += 1;
        }
        proof {
            assert(self@.workers.take(id as int) =~= self@.workers);
        }
        count
    }

    /// Submits a job: it joins the queue behind the jobs already pending, and
    /// the call returns without waiting for it to run.
    pub fn spawn(&mut self, f: F)
        requires
            old(self).wf(),
            old(self)@.queue.open,
        ensures
            final(self).wf(),
            final(self)@ =~= old(self)@.submit(f),
    {
        proof {
            lemma_step_keeps_inv(self@, Event::Submit(f));
        }
        // An open queue takes every job.
        let _ = self.queue.send(f);
    }

    /// Submits a job if the pool is open. Once teardown has begun nothing
    /// changes and the job comes back inside the error.
    pub fn try_spawn(&mut self, f: F) -> (result: Result<(), PoolError<F>>)
        requires
            old(self).wf(),
        ensures
            final(self).wf(),
            old(self)@.queue.open ==> result == Ok::<(), PoolError<F>>(()) && final(self)@
                =~= old(self)@.submit(f),
            !old(self)@.queue.open ==> result == Err::<(), PoolError<F>>(PoolError::Closed(f))
                && final(self)@ =~= old(self)@,
    {
        proof {
            if self@.queue.open {
                lemma_step_keeps_inv(self@, Event::Submit(f));
            }
        }
        match self.queue.send(f) {
            Ok(()) => Ok(()),
            Err(job) => Err(PoolError::Closed(job)),
        }
    }

    /// The waiting worker `id` makes one receive attempt. On
    /// [`Receipt::Job`] the worker is now executing and the caller runs the
    /// job, outside any access to the pool, then calls
    /// [`ThreadPool::complete`]. On [`Receipt::Empty`] nothing has changed
    /// and the caller blocks until a job is submitted or the pool is closed,
    /// then tries again. On [`Receipt::Closed`] the worker has terminated and
    /// its thread returns.
    pub fn receive(&mut self, id: usize) -> (receipt: Receipt<F>)
        requires
            old(self).wf(),
            old(self)@.enabled(Event::Receive(id as int)),
        ensures
            final(self).wf(),
            receipt == old(self)@.queue.receipt(),
            final(self)@ =~= old(self)@.receive(id as int),
    {
        proof {
            lemma_step_keeps_inv(self@, Event::Receive(id as int));
            self.lemma_worker_view(id as int);
        }
        let mut worker = self.workers[id];
        let receipt = worker.step(&mut self.queue);
        self.workers.set(id, worker);
        proof {
            assert(self@.workers =~= old(self)@.receive(id as int).workers);
        }
        receipt
    }

    /// The job that worker `id` was running has returned: the worker waits
    /// for the next one.
    pub fn complete(&mut self, id: usize)
        requires
            old(self).wf(),
            old(self)@.enabled(Event::Complete(id as int)),
        ensures
            final(self).wf(),
            final(self)@ =~= old(self)@.complete(id as int),
    {
        proof {
            lemma_step_keeps_inv(self@, Event::Complete(id as int));
            self.lemma_worker_view(id as int);
        }
        let mut worker = self.workers[id];
        worker.finish();
        self.workers.set(id, worker);
        self.completed = Ghost(self.completed@ + 1);
        proof {
            assert(self@.workers =~= old(self)@.complete(id as int).workers);
        }
    }

    /// Begins teardown: releases the queue's sending side, so that no job is
    /// accepted any more and every worker that finds nothing pending
    /// terminates. Returns whether this call began teardown; a later call
    /// changes nothing.
    pub fn close(&mut self) -> (was_open: bool)
        requires
            old(self).wf(),
        ensures
            final(self).wf(),
            was_open == old(self)@.queue.open,
            final(self)@ =~= old(self)@.close(),
    {
        proof {
            lemma_step_keeps_inv(self@, Event::Close);
        }
        self.queue.close()
    }

    /// The worker whose thread teardown joins next: the first, in the order
    /// of construction, that has not been reclaimed. `None` once every worker
    /// has been reclaimed.
    pub fn next_join(&self) -> (next: Option<usize>)
        ensures
            match next {
                Some(id) => self@.is_next_join(id as int),
                None => self@.torn_down(),
            },
    {
        let mut id: usize = 0;
        while id < self.workers.len()
            invariant
                id <= self.workers.len(),
                forall|i: int| 0 <= i < id ==> (#[trigger] self@.workers[i]).joined,
            decreases self.workers.len() - id,
        {
            proof {
                self.lemma_worker_view(id as int);
            }
            if !self.workers[id].is_joined() {
                return Some(id);
            }
            id += 1;
        }
        None
    }

    /// Whether teardown is over: every worker has been reclaimed.
    pub fn is_torn_down(&self) -> (torn_down: bool)
        ensures
            torn_down == self@.torn_down(),
    {
        self.next_join().is_none()
    }

    /// Teardown has joined the thread of worker `id`, which had terminated
    /// and was next in the order of construction.
    pub fn reclaim(&mut self, id: usize)
        requires
            old(self).wf(),
            old(self)@.enabled(Event::Reclaim(id as int)),
        ensures
            final(self).wf(),
            final(self)@ =~= old(self)@.reclaim(id as int),
    {
        proof {
            lemma_step_keeps_inv(self@, Event::Reclaim(id as int));
            self.lemma_worker_view(id as int);
        }
        let mut worker = self.workers[id];
        worker.reclaim();
        self.workers.set(id, worker);
        proof {
            assert(self@.workers =~= old(self)@.reclaim(id as int).workers);
        }
    }

    /// The pool's value holds, at each index, the value of the worker record
    /// at that index.
    proof fn lemma_worker_view(&self, id: int)
        requires
            0 <= id < self.workers.len(),
        ensures
            self@.workers.len() == self.workers.len(),
            self@.workers[id] == self.workers[id]@,
    {
    }
}

} // verus!
