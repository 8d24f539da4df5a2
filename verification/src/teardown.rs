//! How a pool ends: shutdown drains the queue, leaves no worker waiting,
//! cannot get stuck, and is over when every worker has been joined.

use crate::dispatch::polls;
use crate::history::{accepted, completed, dispatched, replay, Event};
use crate::history::{
    lemma_busy_count_none, lemma_fresh_inv, lemma_jobs_are_conserved, lemma_replay_concat,
    lemma_replay_inv, lemma_running_jobs_are_counted, lemma_workers_stay,
};
use crate::pool::PoolView;
use crate::worker::{JobOutcome, ThreadExit, Worker, WorkerState};
use vstd::prelude::*;

verus! {

/// Teardown drains the pool. When every worker of a pool has been joined,
/// nothing is pending, every job that the pool accepted in its life was
/// handed to a worker exactly once, in the order of acceptance, and the end
/// of every one of them was reported.
pub proof fn lemma_teardown_drains<J>(size: usize, events: Seq<Event<J>>)
    requires
        size > 0,
        replay(PoolView::<J>::fresh(size), events).is_torn_down(),
    ensures
        ({
            let start = PoolView::<J>::fresh(size);
            &&& replay(start, events).queue.pending.len() == 0
            &&& dispatched(start, events) == accepted(start, events)
            &&& completed(start, events) == accepted(start, events).len()
        }),
{
    let start = PoolView::<J>::fresh(size);
    let end = replay(start, events);
    lemma_fresh_inv::<J>(size);
    lemma_replay_inv(start, events);
    lemma_workers_stay(start, events);
    lemma_jobs_are_conserved(start, events);
    lemma_running_jobs_are_counted(start, events);
    assert(end.workers[0].state is Joined);
    assert(end.queue.pending =~= Seq::empty());
    assert(start.queue.pending + accepted(start, events) =~= accepted(start, events));
    assert(dispatched(start, events) + end.queue.pending =~= dispatched(start, events));
    lemma_busy_count_none(start.workers);
    lemma_busy_count_none(end.workers);
}

/// Once shutdown has begun no worker is left waiting: a turn of an idle
/// worker's loop hands it a job or ends the loop.
pub proof fn lemma_no_wait_after_shutdown<J>(pool: PoolView<J>, worker: int)
    requires
        !pool.queue.open,
        pool.has_worker(worker),
        pool.workers[worker].state is Idle,
    ensures
        !(pool.poll_action(worker) is Wait),
        pool.poll_action(worker) is Exit <==> pool.queue.pending.len() == 0,
{
}

/// The history in which the owner waits for each of the first `count`
/// workers, in construction order, and finds that its thread returned.
pub open spec fn joins<J>(count: nat) -> Seq<Event<J>> {
    Seq::new(count, |i: int| Event::Join(i, ThreadExit::Returned))
}

/// The history that tears a pool of `size` workers down: shutdown begins,
/// each worker takes one turn of its loop, and the owner waits for each
/// worker in construction order.
pub open spec fn teardown<J>(size: nat) -> Seq<Event<J>> {
    seq![Event::Shutdown] + polls(size) + joins(size)
}

/// Tearing down a pool at rest does not hang. With nothing pending and all
/// workers idle, the `2 * size + 1` operations of `teardown` leave every
/// worker joined: no worker is told to wait on the way.
pub proof fn lemma_idle_pool_tears_down<J>(pool: PoolView<J>)
    requires
        pool.queue.pending.len() == 0,
        forall|i: int| 0 <= i < pool.workers.len() ==> (#[trigger] pool.workers[i]).state is Idle,
    ensures
        teardown::<J>(pool.workers.len()).len() == 2 * pool.workers.len() + 1,
        replay(pool, teardown(pool.workers.len())).is_torn_down(),
        replay(pool, teardown(pool.workers.len())).workers.len() == pool.workers.len(),
{
    let size = pool.workers.len();
    let closed = replay(pool, seq![Event::<J>::Shutdown]);
    assert(closed == pool.shutdown()) by {
        assert(seq![Event::<J>::Shutdown].drop_last() =~= Seq::<Event<J>>::empty());
        assert(replay(pool, Seq::<Event<J>>::empty()) == pool);
    }
    lemma_polls_terminate(closed, size);
    let stopped = replay(closed, polls(size));
    lemma_joins_release(stopped, size);
    lemma_replay_concat(pool, seq![Event::<J>::Shutdown], polls(size));
    lemma_replay_concat(pool, seq![Event::<J>::Shutdown] + polls(size), joins(size));
}

/// With the queue closed and empty, one turn ends the loop of each idle
/// worker.
proof fn lemma_polls_terminate<J>(pool: PoolView<J>, count: nat)
    requires
        !pool.queue.open,
        pool.queue.pending.len() == 0,
        count <= pool.workers.len(),
        forall|i: int| 0 <= i < count ==> (#[trigger] pool.workers[i]).state is Idle,
    ensures
        replay(pool, polls(count)).queue == pool.queue,
        replay(pool, polls(count)).workers.len() == pool.workers.len(),
        forall|i: int|
            0 <= i < count ==> (#[trigger] replay(pool, polls(count)).workers[i]).state
                is Terminated,
        forall|i: int|
            count <= i < pool.workers.len() ==> #[trigger] replay(pool, polls(count)).workers[i]
                == pool.workers[i],
    decreases count,
{
    if count > 0 {
        let fewer = (count - 1) as nat;
        assert(polls::<J>(count).drop_last() =~= polls::<J>(fewer));
        assert(polls::<J>(count).last() == Event::<J>::Poll(fewer as int));
        lemma_polls_terminate(pool, fewer);
        let before = replay(pool, polls::<J>(fewer));
        assert(before.workers[fewer as int] == pool.workers[fewer as int]);
    }
}

/// Waiting for workers whose loops have ended, and whose threads returned,
/// leaves each of them joined.
proof fn lemma_joins_release<J>(pool: PoolView<J>, count: nat)
    requires
        count <= pool.workers.len(),
        forall|i: int| 0 <= i < count ==> (#[trigger] pool.workers[i]).state is Terminated,
    ensures
        replay(pool, joins(count)).queue == pool.queue,
        replay(pool, joins(count)).workers.len() == pool.workers.len(),
        forall|i: int|
            0 <= i < count ==> (#[trigger] replay(pool, joins(count)).workers[i]).state is Joined,
        forall|i: int|
            count <= i < pool.workers.len() ==> #[trigger] replay(pool, joins(count)).workers[i]
                == pool.workers[i],
    decreases count,
{
    if count > 0 {
        let fewer = (count - 1) as nat;
        assert(joins::<J>(count).drop_last() =~= joins::<J>(fewer));
        assert(joins::<J>(count).last() == Event::<J>::Join(fewer as int, ThreadExit::Returned));
        lemma_joins_release(pool, fewer);
        let before = replay(pool, joins::<J>(fewer));
        assert(before.workers[fewer as int] == pool.workers[fewer as int]);
    }
}

/// The number of operations that separate a worker in `state` from being
/// joined: the end of its job, the turn that ends its loop, and the join.
pub open spec fn steps_to_join(state: WorkerState) -> nat {
    match state {
        WorkerState::Busy => 3,
        WorkerState::Idle => 2,
        WorkerState::Terminated => 1,
        WorkerState::Joined => 0,
    }
}

/// The operations that separate `workers` from all being joined.
pub open spec fn steps_to_join_all(workers: Seq<Worker>) -> nat
    decreases workers.len(),
{
    if workers.len() == 0 {
        0
    } else {
        steps_to_join_all(workers.drop_last()) + steps_to_join(workers.last().state)
    }
}

/// The work that teardown has left once shutdown has begun: two operations
/// for each pending job, to hand it out and to end it, and for each worker
/// what separates it from being joined.
pub open spec fn teardown_left<J>(pool: PoolView<J>) -> nat {
    2 * pool.queue.pending.len() + steps_to_join_all(pool.workers)
}

/// The operation by which `worker` moves on during teardown: a busy worker
/// ends its job, an idle one takes a turn of its loop, a terminated one is
/// joined.
pub open spec fn teardown_move<J>(pool: PoolView<J>, worker: int) -> Event<J> {
    match pool.workers[worker].state {
        WorkerState::Busy => Event::Complete(worker, JobOutcome::Completed),
        WorkerState::Idle => Event::Poll(worker),
        _ => Event::Join(worker, ThreadExit::Returned),
    }
}

/// Once shutdown has begun nothing undoes progress: an operation either
/// leaves the pool as it was or brings teardown one step closer to its end.
pub proof fn lemma_teardown_never_goes_back<J>(pool: PoolView<J>, event: Event<J>)
    requires
        !pool.queue.open,
    ensures
        pool.step(event) == pool || teardown_left(pool.step(event)) + 1 == teardown_left(pool),
{
    match event {
        Event::Poll(worker) => {
            if pool.has_worker(worker) {
                let turned = pool.workers[worker].after_turn(pool.queue);
                lemma_steps_to_join_update(pool.workers, worker, turned);
                if turned == pool.workers[worker] {
                    assert(pool.workers.update(worker, turned) =~= pool.workers);
                }
            }
        },
        Event::Complete(worker, outcome) => {
            if pool.has_worker(worker) {
                let done = pool.workers[worker].after_job(outcome);
                lemma_steps_to_join_update(pool.workers, worker, done);
                if done == pool.workers[worker] {
                    assert(pool.workers.update(worker, done) =~= pool.workers);
                }
            }
        },
        Event::Join(worker, exit) => {
            if pool.has_worker(worker) {
                let joined = pool.workers[worker].after_join(exit);
                lemma_steps_to_join_update(pool.workers, worker, joined);
                if joined == pool.workers[worker] {
                    assert(pool.workers.update(worker, joined) =~= pool.workers);
                }
            }
        },
        _ => {},
    }
}

/// Teardown cannot get stuck: once shutdown has begun, every worker that is
/// not joined yet can move on, whatever the other workers do, and its move
/// brings teardown one step closer to its end.
pub proof fn lemma_teardown_can_go_on<J>(pool: PoolView<J>, worker: int)
    requires
        !pool.queue.open,
        pool.has_worker(worker),
        !(pool.workers[worker].state is Joined),
    ensures
        teardown_left(pool.step(teardown_move(pool, worker))) + 1 == teardown_left(pool),
{
    lemma_teardown_never_goes_back(pool, teardown_move(pool, worker));
    let after = pool.step(teardown_move(pool, worker));
    assert(after.workers[worker] != pool.workers[worker]);
}

/// Teardown has nothing left to do exactly when every worker is joined.
pub proof fn lemma_teardown_ends<J>(pool: PoolView<J>)
    requires
        pool.inv(),
    ensures
        teardown_left(pool) == 0 <==> pool.is_torn_down(),
{
    lemma_steps_to_join_none(pool.workers);
    if pool.is_torn_down() {
        assert(pool.workers[0].state is Joined);
    }
}

/// Teardown happens once: a pool whose workers are all joined is final. No
/// operation changes it, so tearing it down again does nothing, and a job
/// offered to it is refused.
pub proof fn lemma_torn_down_is_final<J>(pool: PoolView<J>, event: Event<J>)
    requires
        pool.inv(),
        pool.is_torn_down(),
    ensures
        pool.step(event) == pool,
        pool.accepts(event) == Seq::<J>::empty(),
        pool.dispatches(event) == Seq::<J>::empty(),
{
    assert(pool.workers[0].state is Joined);
    lemma_teardown_ends(pool);
    lemma_teardown_never_goes_back(pool, event);
    match event {
        Event::Poll(worker) => {
            if pool.has_worker(worker) {
                assert(pool.workers[worker].state is Joined);
            }
        },
        _ => {},
    }
}

/// Changing one worker changes the work that is left by that worker alone.
pub proof fn lemma_steps_to_join_update(workers: Seq<Worker>, i: int, worker: Worker)
    requires
        0 <= i < workers.len(),
    ensures
        steps_to_join_all(workers.update(i, worker)) + steps_to_join(workers[i].state)
            == steps_to_join_all(workers) + steps_to_join(worker.state),
    decreases workers.len(),
{
    let updated = workers.update(i, worker);
    if i == workers.len() - 1 {
        assert(updated.drop_last() =~= workers.drop_last());
    } else {
        assert(updated.drop_last() =~= workers.drop_last().update(i, worker));
        lemma_steps_to_join_update(workers.drop_last(), i, worker);
    }
}

/// No operation is left for workers exactly when all of them are joined.
pub proof fn lemma_steps_to_join_none(workers: Seq<Worker>)
    ensures
        steps_to_join_all(workers) == 0 <==> forall|i: int|
            0 <= i < workers.len() ==> (#[trigger] workers[i]).state is Joined,
    decreases workers.len(),
{
    if workers.len() > 0 {
        lemma_steps_to_join_none(workers.drop_last());
        if steps_to_join_all(workers) == 0 {
            assert forall|i: int| 0 <= i < workers.len() implies (
            #[trigger] workers[i]).state is Joined by {
                if i < workers.len() - 1 {
                    assert(workers.drop_last()[i] == workers[i]);
                }
            }
        }
        if forall|i: int| 0 <= i < workers.len() ==> (#[trigger] workers[i]).state is Joined {
            assert(workers[workers.len() - 1].state is Joined);
            assert forall|i: int| 0 <= i < workers.drop_last().len() implies (
            #[trigger] workers.drop_last()[i]).state is Joined by {
                assert(workers.drop_last()[i] == workers[i]);
            }
        }
    }
}

} // verus!
