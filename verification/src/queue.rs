//! The shared queue: one ordered channel of jobs, sent in at one end and
//! received, each by exactly one receiver, at the other.
use std::collections::VecDeque;
use vstd::prelude::*;

verus! {

/// What one receive attempt on the queue yields.
#[derive(Debug)]
pub enum Receipt<T> {
    /// The job that was sent first among those pending. It now belongs to the
    /// receiver alone.
    Job(T),
    /// Nothing is pending and the queue is open: the receiver goes on waiting.
    Empty,
    /// Nothing is pending and the queue is closed: no job will ever come.
    Closed,
}

/// The queue as a mathematical value: what is pending, and the record of
/// everything that went in and came out.
#[verifier::ext_equal]
pub struct QueueModel<T> {
    /// Whether the sending side is still held.
    pub open: bool,
    /// The jobs sent and not yet received, oldest first.
    pub pending: Seq<T>,
    /// Every job ever sent, in the order of sending.
    pub sent: Seq<T>,
    /// Every job ever received, in the order of receipt.
    pub received: Seq<T>,
}

impl<T> QueueModel<T> {
    /// The queue as it is made: open, with nothing in it and no past.
    pub open spec fn new() -> Self {
        QueueModel {
            open: true,
            pending: Seq::empty(),
            sent: Seq::empty(),
            received: Seq::empty(),
        }
    }

    /// Nothing is lost and nothing is duplicated: what was sent is what was
    /// received followed by what is pending.
    pub open spec fn inv(self) -> bool {
        self.sent =~= self.received + self.pending
    }

    /// The queue after `job` was sent into it.
    pub open spec fn send(self, job: T) -> Self {
        QueueModel { pending: self.pending.push(job), sent: self.sent.push(job), ..self }
    }

    /// What a receive attempt yields in this state.
    pub open spec fn receipt(self) -> Receipt<T> {
        if self.pending.len() > 0 {
            Receipt::Job(self.pending[0])
        } else if self.open {
            Receipt::Empty
        } else {
            Receipt::Closed
        }
    }

    /// The queue after a receive attempt: the oldest pending job, if there is
    /// one, has moved to the record of received jobs.
    pub open spec fn receive(self) -> Self {
        if self.pending.len() > 0 {
            QueueModel {
                pending: self.pending.skip(1),
                received: self.received.push(self.pending[0]),
                ..self
            }
        } else {
            self
        }
    }

    /// The queue after its sending side was released.
    pub open spec fn close(self) -> Self {
        QueueModel { open: false, ..self }
    }
}

/// A FIFO queue of jobs with a sending side that can be released once.
///
/// Jobs that are pending when the queue is closed are still handed out; the
/// closure signal comes only when nothing is left.
pub struct SharedQueue<T> {
    pending: VecDeque<T>,
    open: bool,
    sent: Ghost<Seq<T>>,
    received: Ghost<Seq<T>>,
}

impl<T> View for SharedQueue<T> {
    type V = QueueModel<T>;

    closed spec fn view(&self) -> QueueModel<T> {
        QueueModel {
            open: self.open,
            pending: self.pending@,
            sent: self.sent@,
            received: self.received@,
        }
    }
}

impl<T> SharedQueue<T> {
    /// The queue's record of sent and received jobs is consistent with what
    /// it holds.
    pub open spec fn wf(&self) -> bool {
        self@.inv()
    }

    /// Makes an open, empty queue.
    pub fn new() -> (queue: Self)
        ensures
            queue.wf(),
            queue@ =~= QueueModel::<T>::new(),
    {
        SharedQueue {
            pending: VecDeque::new(),
            open: true,
            sent: Ghost(Seq::empty()),
            received: Ghost(Seq::empty()),
        }
    }

    /// Whether the sending side is still held.
    pub fn is_open(&self) -> (open: bool)
        ensures
            open == self@.open,
    {
        self.open
    }

    /// The number of pending jobs.
    pub fn len(&self) -> (len: usize)
        ensures
            len == self@.pending.len(),
    {
        self.pending.len()
    }

    /// Whether no job is pending.
    pub fn is_empty(&self) -> (empty: bool)
        ensures
            empty <==> self@.pending.len() == 0,
    {
        self.pending.len() == 0
    }

    /// Sends `job` into the queue. A closed queue takes nothing and hands the
    /// job back.
    pub fn send(&mut self, job: T) -> (result: Result<(), T>)
        requires
            old(self).wf(),
        ensures
            final(self).wf(),
            old(self)@.open ==> result == Ok::<(), T>(()) && final(self)@ =~= old(self)@.send(job),
            !old(self)@.open ==> result == Err::<(), T>(job) && final(self)@ =~= old(self)@,
    {
        if self.open {
            self.pending.push_back(job);
            self.sent = Ghost(self.sent@.push(job));
            Ok(())
        } else {
            Err(job)
        }
    }

    /// Makes one receive attempt. The oldest pending job, if any, leaves the
    /// queue for good and goes to the caller.
    pub fn receive(&mut self) -> (receipt: Receipt<T>)
        requires
            old(self).wf(),
        ensures
            final(self).wf(),
            receipt == old(self)@.receipt(),
            final(self)@ =~= old(self)@.receive(),
    {
        match self.pending.pop_front() {
            Some(job) => {
                self.received = Ghost(self.received@.push(job));
                Receipt::Job(job)
            },
            None => {
                if self.open {
                    Receipt::Empty
                } else {
                    Receipt::Closed
                }
            },
        }
    }

    /// Releases the sending side. Returns whether this call released it, that
    /// is, whether the queue was open until now.
    pub fn close(&mut self) -> (was_open: bool)
        requires
            old(self).wf(),
        ensures
            final(self).wf(),
            was_open == old(self)@.open,
            final(self)@ =~= old(self)@.close(),
    {
        let was_open = self.open;
        self.open = false;
        was_open
    }
}

} // verus!
