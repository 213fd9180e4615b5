//! What holds of the pool under every schedule of events.
use crate::model::{
    completions, lemma_count_in_state_all, lemma_count_in_state_bounded, lemma_count_in_state_none,
    lemma_count_in_state_update, lemma_count_joined_all, lemma_count_joined_bounded,
    lemma_count_joined_update, receive_each, submitted, Event, PoolModel,
};
use crate::queue::Receipt;
use crate::worker::{WorkerModel, WorkerState};
use vstd::prelude::*;

verus! {

// Reachable states

/// A pool made for a positive number of workers starts in a state that keeps
/// the invariant, with that many workers, all of them waiting, nothing
/// pending and the queue open.
pub proof fn lemma_init<T>(nthreads: nat)
    requires
        nthreads > 0,
    ensures
        PoolModel::<T>::init(nthreads).inv(),
        PoolModel::<T>::init(nthreads).workers.len() == nthreads,
        PoolModel::<T>::init(nthreads).waiting() == nthreads,
        PoolModel::<T>::init(nthreads).executing() == 0,
        PoolModel::<T>::init(nthreads).queue.open,
        PoolModel::<T>::init(nthreads).queue.pending.len() == 0,
        forall|i: int|
            0 <= i < nthreads ==> (#[trigger] PoolModel::<T>::init(nthreads).workers[i])
                == WorkerModel::new(),
{
    let pool = PoolModel::<T>::init(nthreads);
    lemma_count_in_state_all(pool.workers, WorkerState::Waiting);
    lemma_count_in_state_none(pool.workers, WorkerState::Executing);
}

/// Every event that can happen keeps the invariant.
pub proof fn lemma_step_keeps_inv<T>(pool: PoolModel<T>, event: Event<T>)
    requires
        pool.inv(),
        pool.enabled(event),
    ensures
        pool.step(event).inv(),
        pool.step(event).workers.len() == pool.workers.len(),
{
    // Only the worker that the event names changes, and the count of
    // executing workers moves with it.
    match event {
        Event::Receive(id) => {
            let worker = pool.workers[id].after_receipt(pool.queue.receipt());
            lemma_count_in_state_update(pool.workers, id, worker, WorkerState::Executing);
        },
        Event::Complete(id) => {
            let worker = pool.workers[id].finish();
            lemma_count_in_state_update(pool.workers, id, worker, WorkerState::Executing);
        },
        Event::Reclaim(id) => {
            let worker = pool.workers[id].reclaim();
            lemma_count_in_state_update(pool.workers, id, worker, WorkerState::Executing);
        },
        Event::Submit(_) | Event::Close => {},
    }
}

/// Every schedule that can happen keeps the invariant and the number of
/// workers.
pub proof fn lemma_schedule_keeps_inv<T>(pool: PoolModel<T>, schedule: Seq<Event<T>>)
    requires
        pool.inv(),
        pool.admits(schedule),
    ensures
        pool.run(schedule).inv(),
        pool.run(schedule).workers.len() == pool.workers.len(),
    decreases schedule.len(),
{
    if schedule.len() > 0 {
        lemma_schedule_keeps_inv(pool, schedule.drop_last());
        lemma_step_keeps_inv(pool.run(schedule.drop_last()), schedule.last());
    }
}

/// Every state that a pool of a positive number of workers can reach keeps
/// the invariant, and the pool has as many workers as it was made with.
pub proof fn lemma_reachable_keeps_inv<T>(nthreads: nat, schedule: Seq<Event<T>>)
    requires
        nthreads > 0,
        PoolModel::<T>::init(nthreads).admits(schedule),
    ensures
        PoolModel::<T>::init(nthreads).run(schedule).inv(),
        PoolModel::<T>::init(nthreads).run(schedule).workers.len() == nthreads,
{
    lemma_init::<T>(nthreads);
    lemma_schedule_keeps_inv(PoolModel::<T>::init(nthreads), schedule);
}

/// While the pool is open and nothing is pending, a receive attempt changes
/// nothing: an idle worker stays waiting.
pub proof fn lemma_idle_worker_stays_waiting<T>(pool: PoolModel<T>, id: int)
    requires
        pool.has_worker(id),
        pool.queue.open,
        pool.queue.pending.len() == 0,
    ensures
        pool.queue.receipt() == Receipt::<T>::Empty,
        pool.receive(id) =~= pool,
{
}

/// Workers wait while there is nothing to do: as long as no job is submitted
/// and teardown does not begin, whatever else happens leaves a new pool as it
/// was made, with every worker waiting.
pub proof fn lemma_idle_pool_stays_idle<T>(nthreads: nat, schedule: Seq<Event<T>>)
    requires
        nthreads > 0,
        PoolModel::<T>::init(nthreads).admits(schedule),
        forall|k: int|
            0 <= k < schedule.len() ==> !(#[trigger] schedule[k] is Submit) && !(schedule[k]
                is Close),
    ensures
        PoolModel::<T>::init(nthreads).run(schedule) =~= PoolModel::<T>::init(nthreads),
    decreases schedule.len(),
{
    if schedule.len() > 0 {
        lemma_idle_pool_stays_idle::<T>(nthreads, schedule.drop_last());
        // Neither a completion nor a reclaim can happen in the initial state,
        // so the last event is a receive attempt on an empty, open queue.
        if let Event::Receive(id) = schedule.last() {
            lemma_idle_worker_stays_waiting(PoolModel::<T>::init(nthreads), id);
        }
    }
}

// Delivery

/// Jobs leave the queue in the order in which they were submitted, each one
/// once: the jobs received so far are the first of those submitted, and the
/// pending ones are the rest.
pub proof fn lemma_jobs_delivered_in_order<T>(pool: PoolModel<T>)
    requires
        pool.inv(),
    ensures
        pool.queue.received.len() + pool.queue.pending.len() == pool.queue.sent.len(),
        forall|k: int|
            0 <= k < pool.queue.received.len() ==> #[trigger] pool.queue.received[k]
                == pool.queue.sent[k],
        forall|k: int|
            0 <= k < pool.queue.pending.len() ==> #[trigger] pool.queue.pending[k]
                == pool.queue.sent[pool.queue.received.len() + k],
{
    // The record of sent jobs is the received ones followed by the pending
    // ones; index into that concatenation.
    let joint = pool.queue.received + pool.queue.pending;
    assert(joint =~= pool.queue.sent);
}

/// What has happened is never undone: under every schedule the record of
/// submitted jobs and the record of received jobs only grow at their ends,
/// and the number of completed jobs does not fall. A job that was received
/// is never queued again.
pub proof fn lemma_history_only_grows<T>(pool: PoolModel<T>, schedule: Seq<Event<T>>)
    requires
        pool.admits(schedule),
    ensures
        pool.queue.sent.is_prefix_of(pool.run(schedule).queue.sent),
        pool.queue.received.is_prefix_of(pool.run(schedule).queue.received),
        pool.completed <= pool.run(schedule).completed,
    decreases schedule.len(),
{
    if schedule.len() > 0 {
        lemma_history_only_grows(pool, schedule.drop_last());
    }
}

/// The pool's records say what its schedule did: the jobs sent are those
/// that the schedule submitted, in that order, behind those sent before, and
/// the count of completed jobs has risen by the completions in the schedule.
pub proof fn lemma_records_follow_schedule<T>(pool: PoolModel<T>, schedule: Seq<Event<T>>)
    requires
        pool.admits(schedule),
    ensures
        pool.run(schedule).queue.sent =~= pool.queue.sent + submitted(schedule),
        pool.run(schedule).completed == pool.completed + completions(schedule),
    decreases schedule.len(),
{
    if schedule.len() > 0 {
        lemma_records_follow_schedule(pool, schedule.drop_last());
    }
}

/// While a job is pending no worker has terminated: each of them can either
/// attempt a receive or complete the job it is running, so the pending job
/// is not stranded.
pub proof fn lemma_pending_job_not_stranded<T>(pool: PoolModel<T>, id: int)
    requires
        pool.inv(),
        pool.queue.pending.len() > 0,
        pool.has_worker(id),
    ensures
        pool.enabled(Event::Receive(id)) || pool.enabled(Event::Complete(id)),
        pool.enabled(Event::Receive(id)) ==> pool.receive(id).workers[id].state is Executing,
{
}

// Concurrency

/// Every job that a worker has received has either run to completion or is
/// running on a worker right now, and no more jobs run at once than there are
/// workers.
pub proof fn lemma_bounded_concurrency<T>(pool: PoolModel<T>)
    requires
        pool.inv(),
    ensures
        pool.queue.received.len() == pool.completed + pool.executing(),
        pool.executing() <= pool.workers.len(),
{
    lemma_count_in_state_bounded(pool.workers, WorkerState::Executing);
}

/// A worker's receive attempt depends on that worker alone: it can be made
/// whenever the worker waits, whatever the others are doing, and it leaves
/// the others as they are. Workers therefore run their jobs side by side.
pub proof fn lemma_receive_leaves_others<T>(pool: PoolModel<T>, id: int, other: int)
    requires
        pool.has_worker(id),
        pool.has_worker(other),
        other != id,
        pool.workers[id].state is Waiting,
    ensures
        pool.enabled(Event::Receive(id)),
        pool.receive(id).workers[other] == pool.workers[other],
{
}

/// Workers run their jobs side by side: where as many jobs are pending as
/// there are waiting workers in `ids`, each of those workers can take one,
/// one after the other and none waiting for another to finish, and then all
/// of them are executing at once, each the job that fell to it in the order
/// of submission.
pub proof fn lemma_waiting_workers_start_together<T>(pool: PoolModel<T>, ids: Seq<int>)
    requires
        ids.no_duplicates(),
        forall|k: int|
            0 <= k < ids.len() ==> pool.has_worker(#[trigger] ids[k])
                && pool.workers[ids[k]].state is Waiting,
        ids.len() <= pool.queue.pending.len(),
    ensures
        pool.admits(receive_each(ids)),
        forall|k: int|
            0 <= k < ids.len() ==> pool.run(receive_each(ids)).workers[#[trigger] ids[k]].state
                is Executing,
        forall|id: int|
            pool.has_worker(id) && !ids.contains(id) ==> #[trigger] pool.run(
                receive_each(ids),
            ).workers[id] == pool.workers[id],
        pool.run(receive_each(ids)).workers.len() == pool.workers.len(),
        pool.run(receive_each(ids)).executing() == pool.executing() + ids.len(),
        pool.run(receive_each(ids)).queue.pending =~= pool.queue.pending.skip(ids.len() as int),
        pool.run(receive_each(ids)).queue.received =~= pool.queue.received
            + pool.queue.pending.take(ids.len() as int),
    decreases ids.len(),
{
    if ids.len() > 0 {
        let front = ids.drop_last();
        let last = ids.last();
        assert(receive_each::<T>(ids).drop_last() =~= receive_each::<T>(front));
        lemma_waiting_workers_start_together(pool, front);
        // The last worker is none of the earlier ones, so it still waits, and
        // a job is left for it.
        assert(!front.contains(last));
        let before = pool.run(receive_each(front));
        lemma_count_in_state_update(
            before.workers,
            last,
            before.workers[last].after_receipt(before.queue.receipt()),
            WorkerState::Executing,
        );
        let after = pool.run(receive_each(ids));
        assert forall|k: int| 0 <= k < ids.len() implies after.workers[#[trigger] ids[k]].state
            is Executing by {
            if k < front.len() {
                assert(before.workers[front[k]].state is Executing);
            }
        }
    }
}

// Teardown

/// A closed pool stays closed and accepts nothing: whatever happens after
/// teardown has begun, no job is added to those submitted before.
pub proof fn lemma_closed_accepts_nothing<T>(pool: PoolModel<T>, schedule: Seq<Event<T>>)
    requires
        !pool.queue.open,
        pool.admits(schedule),
    ensures
        !pool.run(schedule).queue.open,
        pool.run(schedule).queue.sent == pool.queue.sent,
    decreases schedule.len(),
{
    if schedule.len() > 0 {
        lemma_closed_accepts_nothing(pool, schedule.drop_last());
    }
}

/// Once the queue is closed and empty it stays so: no receive attempt ever
/// yields a job again, and every one of them gets the closure signal.
pub proof fn lemma_drained_stays_drained<T>(pool: PoolModel<T>, schedule: Seq<Event<T>>)
    requires
        pool.drained(),
        pool.admits(schedule),
    ensures
        pool.run(schedule).drained(),
        pool.run(schedule).queue.receipt() == Receipt::<T>::Closed,
        pool.run(schedule).queue.received == pool.queue.received,
    decreases schedule.len(),
{
    if schedule.len() > 0 {
        lemma_drained_stays_drained(pool, schedule.drop_last());
    }
}

/// Once every worker has terminated, every job that was ever submitted has
/// run to completion, exactly once: the queue is closed and empty, what was
/// received is what was sent, and nothing is running any more.
pub proof fn lemma_all_terminated_means_all_done<T>(pool: PoolModel<T>)
    requires
        pool.inv(),
        forall|i: int| pool.has_worker(i) ==> (#[trigger] pool.workers[i]).state is Terminated,
    ensures
        !pool.queue.open,
        pool.queue.pending.len() == 0,
        pool.queue.received =~= pool.queue.sent,
        pool.executing() == 0,
        pool.waiting() == 0,
        pool.completed == pool.queue.sent.len(),
{
    lemma_count_in_state_none(pool.workers, WorkerState::Executing);
    lemma_count_in_state_none(pool.workers, WorkerState::Waiting);
}

/// When teardown is over, every job that was ever submitted has run to
/// completion, exactly once, every worker has terminated, and nothing is
/// left to do.
pub proof fn lemma_teardown_complete<T>(pool: PoolModel<T>)
    requires
        pool.inv(),
        pool.torn_down(),
    ensures
        forall|i: int| pool.has_worker(i) ==> (#[trigger] pool.workers[i]).state is Terminated,
        pool.terminated() == pool.workers.len(),
        !pool.queue.open,
        pool.queue.pending.len() == 0,
        pool.queue.received =~= pool.queue.sent,
        pool.executing() == 0,
        pool.completed == pool.queue.sent.len(),
        pool.work_left() == 0,
{
    // A worker is reclaimed only after it has terminated.
    lemma_all_terminated_means_all_done(pool);
    lemma_count_in_state_all(pool.workers, WorkerState::Terminated);
    lemma_count_joined_all(pool.workers);
}

/// Whatever the schedule, a pool that has been torn down has run every job
/// that was ever submitted to it, each one once: the jobs that its workers
/// received are the jobs submitted, in the order of submission, and there
/// are as many completions as submissions.
pub proof fn lemma_every_job_runs_once<T>(nthreads: nat, schedule: Seq<Event<T>>)
    requires
        nthreads > 0,
        PoolModel::<T>::init(nthreads).admits(schedule),
        PoolModel::<T>::init(nthreads).run(schedule).torn_down(),
    ensures
        PoolModel::<T>::init(nthreads).run(schedule).queue.received =~= submitted(schedule),
        PoolModel::<T>::init(nthreads).run(schedule).queue.pending.len() == 0,
        PoolModel::<T>::init(nthreads).run(schedule).executing() == 0,
        completions(schedule) == submitted(schedule).len(),
{
    let pool = PoolModel::<T>::init(nthreads);
    lemma_reachable_keeps_inv(nthreads, schedule);
    lemma_records_follow_schedule(pool, schedule);
    lemma_teardown_complete(pool.run(schedule));
}

/// Teardown is never stuck: as long as some worker has not been reclaimed,
/// the one that is to be reclaimed next can attempt a receive, complete its
/// job, or be reclaimed.
pub proof fn lemma_teardown_never_stuck<T>(pool: PoolModel<T>) -> (id: int)
    requires
        pool.inv(),
        !pool.torn_down(),
    ensures
        pool.is_next_join(id),
        pool.enabled(Event::Receive(id)) || pool.enabled(Event::Complete(id)) || pool.enabled(
            Event::Reclaim(id),
        ),
{
    let id = first_unjoined(pool.workers, 0);
    lemma_first_unjoined(pool.workers, 0);
    id
}

/// The first index from `from` on at which a worker has not been reclaimed,
/// or the number of workers if there is none.
spec fn first_unjoined(workers: Seq<WorkerModel>, from: int) -> int
    decreases workers.len() - from,
{
    if 0 <= from < workers.len() && workers[from].joined {
        first_unjoined(workers, from + 1)
    } else {
        from
    }
}

/// [`first_unjoined`] skips reclaimed workers only, and stops within the
/// sequence if any worker from `from` on has not been reclaimed.
proof fn lemma_first_unjoined(workers: Seq<WorkerModel>, from: int)
    requires
        0 <= from <= workers.len(),
    ensures
        from <= first_unjoined(workers, from) <= workers.len(),
        forall|i: int| from <= i < first_unjoined(workers, from) ==> (#[trigger] workers[i]).joined,
        first_unjoined(workers, from) < workers.len() ==> !workers[first_unjoined(
            workers,
            from,
        )].joined,
    decreases workers.len() - from,
{
    if from < workers.len() && workers[from].joined {
        lemma_first_unjoined(workers, from + 1);
    }
}

/// During teardown every receive attempt, completion and reclaim brings the
/// end nearer: it makes what is left to do strictly less.
pub proof fn lemma_teardown_step_decreases<T>(pool: PoolModel<T>, event: Event<T>)
    requires
        pool.inv(),
        !pool.queue.open,
        pool.enabled(event),
        !(event is Close),
    ensures
        pool.step(event).work_left() < pool.work_left(),
{
    // The event names one worker and replaces its record. Nothing is
    // submitted to a closed pool, and closing is left out.
    let (id, worker) = match event {
        Event::Receive(id) => (id, pool.workers[id].after_receipt(pool.queue.receipt())),
        Event::Complete(id) => (id, pool.workers[id].finish()),
        Event::Reclaim(id) => (id, pool.workers[id].reclaim()),
        Event::Submit(_) | Event::Close => (0, pool.workers[0]),
    };
    lemma_count_in_state_update(pool.workers, id, worker, WorkerState::Executing);
    lemma_count_in_state_update(pool.workers, id, worker, WorkerState::Waiting);
    lemma_count_joined_update(pool.workers, id, worker);
    lemma_count_joined_bounded(pool.workers);
    lemma_count_joined_bounded(pool.step(event).workers);
}

/// Teardown ends: once the pool is closed, no more receive attempts,
/// completions and reclaims can happen than [`PoolModel::work_left`] says,
/// however they are interleaved.
pub proof fn lemma_teardown_bounded<T>(pool: PoolModel<T>, schedule: Seq<Event<T>>)
    requires
        pool.inv(),
        !pool.queue.open,
        pool.admits(schedule),
        forall|k: int| 0 <= k < schedule.len() ==> !(#[trigger] schedule[k] is Close),
    ensures
        schedule.len() + pool.run(schedule).work_left() <= pool.work_left(),
    decreases schedule.len(),
{
    if schedule.len() > 0 {
        let front = schedule.drop_last();
        lemma_teardown_bounded(pool, front);
        lemma_schedule_keeps_inv(pool, front);
        lemma_closed_accepts_nothing(pool, front);
        lemma_teardown_step_decreases(pool.run(front), schedule.last());
    }
}

} // verus!
