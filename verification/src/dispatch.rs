//! How jobs reach workers: in the order of their submission, one worker
//! each, as many at once as there are workers, and whether or not the jobs
//! before them failed.

use crate::history::{accepted, completed, dispatched, replay, Event};
use crate::history::{
    lemma_busy_count_bound, lemma_busy_count_none, lemma_jobs_are_conserved, lemma_replay_concat,
    lemma_running_jobs_are_counted, lemma_workers_stay,
};
use crate::pool::PoolView;
use crate::worker::{Action, JobOutcome};
use vstd::prelude::*;

verus! {

/// Jobs start in the order in which they were accepted: whenever a worker of
/// a pool is handed a job, it is the oldest accepted job that no worker was
/// handed before.
pub proof fn lemma_jobs_start_in_order<J>(size: usize, events: Seq<Event<J>>, worker: int)
    requires
        replay(PoolView::<J>::fresh(size), events).poll_action(worker) is Run,
    ensures
        ({
            let start = PoolView::<J>::fresh(size);
            let started = dispatched(start, events).len() as int;
            &&& started < accepted(start, events).len()
            &&& replay(start, events).poll_action(worker) == Action::Run(
                accepted(start, events)[started],
            )
        }),
{
    let start = PoolView::<J>::fresh(size);
    lemma_jobs_are_conserved(start, events);
    assert(start.queue.pending + accepted(start, events) =~= accepted(start, events));
}

/// A worker runs its job to the end before it takes the next one: a turn of
/// a busy worker's loop hands it nothing and leaves the pool as it was.
pub proof fn lemma_busy_worker_takes_no_job<J>(pool: PoolView<J>, worker: int)
    requires
        pool.has_worker(worker),
        pool.workers[worker].state is Busy,
    ensures
        pool.poll_action(worker) is Wait,
        pool.poll(worker) == pool,
{
    assert(pool.workers.update(worker, pool.workers[worker]) =~= pool.workers);
}

/// A pool never runs more jobs at once than it has workers: the jobs that
/// were handed out and have not ended yet are at most `size`.
pub proof fn lemma_running_jobs_are_bounded<J>(size: usize, events: Seq<Event<J>>)
    ensures
        ({
            let start = PoolView::<J>::fresh(size);
            dispatched(start, events).len() <= completed(start, events) + size
        }),
{
    let start = PoolView::<J>::fresh(size);
    lemma_running_jobs_are_counted(start, events);
    lemma_workers_stay(start, events);
    lemma_busy_count_none(start.workers);
    lemma_busy_count_bound(replay(start, events).workers);
}

/// A pool of one worker runs its jobs one after the other: whenever the
/// worker is handed a job, the end of every job handed out before has been
/// reported. With the order in which jobs start, a job that was accepted
/// before another has ended before the other begins.
pub proof fn lemma_single_worker_runs_one_at_a_time<J>(events: Seq<Event<J>>, worker: int)
    requires
        replay(PoolView::<J>::fresh(1), events).poll_action(worker) is Run,
    ensures
        ({
            let start = PoolView::<J>::fresh(1);
            let ended = completed(start, events) as int;
            &&& ended == dispatched(start, events).len()
            &&& ended < accepted(start, events).len()
            &&& replay(start, events).poll_action(worker) == Action::Run(
                accepted(start, events)[ended],
            )
        }),
{
    let start = PoolView::<J>::fresh(1);
    let now = replay(start, events);
    lemma_jobs_start_in_order(1, events, worker);
    lemma_workers_stay(start, events);
    lemma_running_jobs_are_counted(start, events);
    assert(worker == 0);
    assert(now.workers[0].state is Idle);
    lemma_busy_count_none(start.workers);
    lemma_busy_count_none(now.workers);
}

/// A failed job costs the pool nothing but that job. The worker that ran it
/// is left exactly as after a job that returned: running, waiting, and next
/// in line for the oldest pending job. The queue and the number of workers
/// are untouched.
pub proof fn lemma_failure_is_contained<J>(pool: PoolView<J>, worker: int)
    requires
        pool.has_worker(worker),
        pool.workers[worker].state is Busy,
    ensures
        pool.complete(worker, JobOutcome::Failed) == pool.complete(worker, JobOutcome::Completed),
        pool.complete(worker, JobOutcome::Failed).workers[worker].state is Idle,
        pool.complete(worker, JobOutcome::Failed).workers.len() == pool.workers.len(),
        pool.complete(worker, JobOutcome::Failed).queue == pool.queue,
        pool.queue.pending.len() > 0 ==> pool.complete(worker, JobOutcome::Failed).poll_action(
            worker,
        ) == Action::Run(pool.queue.pending[0]),
{
}

/// The history in which each job of `jobs` is offered, in order.
pub open spec fn submissions<J>(jobs: Seq<J>) -> Seq<Event<J>> {
    Seq::new(jobs.len(), |i: int| Event::Execute(jobs[i]))
}

/// The history in which each of the first `count` workers takes one turn of
/// its loop, in construction order.
pub open spec fn polls<J>(count: nat) -> Seq<Event<J>> {
    Seq::new(count, |i: int| Event::Poll(i))
}

/// An open pool takes in every job that is offered, behind what is pending,
/// and offering jobs disturbs no worker.
pub proof fn lemma_submissions_are_queued<J>(pool: PoolView<J>, jobs: Seq<J>)
    requires
        pool.queue.open,
    ensures
        replay(pool, submissions(jobs)).queue.open,
        replay(pool, submissions(jobs)).queue.pending == pool.queue.pending + jobs,
        replay(pool, submissions(jobs)).workers == pool.workers,
        accepted(pool, submissions(jobs)) == jobs,
        dispatched(pool, submissions(jobs)) == Seq::<J>::empty(),
        completed(pool, submissions(jobs)) == 0,
    decreases jobs.len(),
{
    let events = submissions(jobs);
    if jobs.len() == 0 {
        assert(pool.queue.pending + jobs =~= pool.queue.pending);
        assert(accepted(pool, events) =~= jobs);
    } else {
        assert(events.drop_last() =~= submissions(jobs.drop_last()));
        assert(events.last() == Event::Execute(jobs.last()));
        lemma_submissions_are_queued(pool, jobs.drop_last());
        assert(pool.queue.pending + jobs =~= (pool.queue.pending + jobs.drop_last()).push(
            jobs.last(),
        ));
        assert(accepted(pool, events) =~= jobs);
        assert(dispatched(pool, events) =~= Seq::<J>::empty());
    }
}

/// Workers do not wait on one another. When the first `count` workers are
/// idle and as many jobs are pending, one turn of each worker's loop hands
/// each of them a job of its own: afterwards all of them are busy at once,
/// with the `count` oldest jobs, and no job had to end for another to begin.
pub proof fn lemma_idle_workers_start_together<J>(pool: PoolView<J>, count: nat)
    requires
        count <= pool.workers.len(),
        count <= pool.queue.pending.len(),
        forall|i: int| 0 <= i < count ==> (#[trigger] pool.workers[i]).state is Idle,
    ensures
        forall|i: int|
            0 <= i < count ==> (#[trigger] replay(pool, polls(count)).workers[i]).state is Busy,
        forall|i: int|
            count <= i < pool.workers.len() ==> #[trigger] replay(pool, polls(count)).workers[i]
                == pool.workers[i],
        replay(pool, polls(count)).workers.len() == pool.workers.len(),
        replay(pool, polls(count)).queue.pending == pool.queue.pending.skip(count as int),
        replay(pool, polls(count)).queue.open == pool.queue.open,
        dispatched(pool, polls(count)) == pool.queue.pending.take(count as int),
        accepted(pool, polls::<J>(count)) == Seq::<J>::empty(),
        completed(pool, polls::<J>(count)) == 0,
    decreases count,
{
    let events = polls::<J>(count);
    if count == 0 {
        assert(pool.queue.pending.skip(0) =~= pool.queue.pending);
        assert(pool.queue.pending.take(0) =~= Seq::<J>::empty());
    } else {
        let fewer = (count - 1) as nat;
        assert(events.drop_last() =~= polls::<J>(fewer));
        assert(events.last() == Event::<J>::Poll(fewer as int));
        lemma_idle_workers_start_together(pool, fewer);
        let before = replay(pool, polls::<J>(fewer));
        assert(before.workers[fewer as int] == pool.workers[fewer as int]);
        assert(before.queue.pending.len() > 0);
        assert(before.queue.pending[0] == pool.queue.pending[fewer as int]);
        assert(before.queue.pending.drop_first() =~= pool.queue.pending.skip(count as int));
        assert(pool.queue.pending.take(fewer as int).push(pool.queue.pending[fewer as int])
            =~= pool.queue.pending.take(count as int));
        assert(dispatched(pool, events) =~= pool.queue.pending.take(count as int));
        assert(accepted(pool, events) =~= Seq::<J>::empty());
    }
}

/// A pool of any positive size can run as many jobs at once as it has
/// workers: when `size` jobs are offered to a pool just made and each worker
/// takes one turn of its loop, every worker is busy with one of them.
pub proof fn lemma_fresh_pool_runs_a_job_per_worker<J>(size: usize, jobs: Seq<J>)
    requires
        size > 0,
        jobs.len() == size,
    ensures
        ({
            let start = PoolView::<J>::fresh(size);
            let events = submissions(jobs) + polls(size as nat);
            &&& replay(start, events).workers.len() == size
            &&& forall|i: int|
                0 <= i < size ==> (#[trigger] replay(start, events).workers[i]).state is Busy
            &&& dispatched(start, events) == jobs
            &&& completed(start, events) == 0
        }),
{
    let start = PoolView::<J>::fresh(size);
    let queued = replay(start, submissions(jobs));
    lemma_submissions_are_queued(start, jobs);
    lemma_idle_workers_start_together(queued, size as nat);
    lemma_replay_concat(start, submissions(jobs), polls(size as nat));
    assert(queued.queue.pending =~= jobs);
    assert(jobs.take(size as int) =~= jobs);
    assert(dispatched(start, submissions(jobs)) + jobs =~= jobs);
}

} // verus!
