//! Histories of a pool: what holds however callers, workers and the owner
//! take their turns.
//!
//! The operations of a [`ThreadPool`](crate::pool::ThreadPool) are defined on
//! every state, so any sequence of them is a history. The statements of this
//! module, and of [`dispatch`](crate::dispatch) and
//! [`teardown`](crate::teardown), are proved for all of them.

use crate::pool::PoolView;
use crate::worker::{Action, JobOutcome, ThreadExit, Worker};
use vstd::prelude::*;

verus! {

/// One operation on a pool.
pub ghost enum Event<J> {
    /// A caller offered a job.
    Execute(J),
    /// The worker with this ordinal took one turn of its loop.
    Poll(int),
    /// The worker with this ordinal reported how its job ended.
    Complete(int, JobOutcome),
    /// The owner began shutdown.
    Shutdown,
    /// The owner waited for the thread of the worker with this ordinal.
    Join(int, ThreadExit),
}

impl<J> PoolView<J> {
    /// The pool after `event`.
    pub open spec fn step(self, event: Event<J>) -> Self {
        match event {
            Event::Execute(job) => self.execute(job),
            Event::Poll(worker) => self.poll(worker),
            Event::Complete(worker, outcome) => self.complete(worker, outcome),
            Event::Shutdown => self.shutdown(),
            Event::Join(worker, exit) => self.join(worker, exit),
        }
    }

    /// The job that `event` brings into the queue, if it brings one.
    pub open spec fn accepts(self, event: Event<J>) -> Seq<J> {
        match event {
            Event::Execute(job) => if self.queue.open {
                seq![job]
            } else {
                Seq::empty()
            },
            _ => Seq::empty(),
        }
    }

    /// The job that `event` hands to a worker, if it hands one out.
    pub open spec fn dispatches(self, event: Event<J>) -> Seq<J> {
        match event {
            Event::Poll(worker) => match self.poll_action(worker) {
                Action::Run(job) => seq![job],
                _ => Seq::empty(),
            },
            _ => Seq::empty(),
        }
    }

    /// The number of running jobs that `event` ends: one or none.
    pub open spec fn completes(self, event: Event<J>) -> nat {
        match event {
            Event::Complete(worker, _) => if self.has_worker(worker) && self.workers[worker].state is Busy {
                1
            } else {
                0
            },
            _ => 0,
        }
    }
}

/// The number of workers that are running a job.
pub open spec fn busy_count(workers: Seq<Worker>) -> nat
    decreases workers.len(),
{
    if workers.len() == 0 {
        0
    } else {
        busy_count(workers.drop_last()) + if workers.last().state is Busy {
            1nat
        } else {
            0nat
        }
    }
}

/// The pool that `start` has become after `events`, in order.
pub open spec fn replay<J>(start: PoolView<J>, events: Seq<Event<J>>) -> PoolView<J>
    decreases events.len(),
{
    if events.len() == 0 {
        start
    } else {
        replay(start, events.drop_last()).step(events.last())
    }
}

/// The jobs that were accepted in the course of `events`, oldest first.
pub open spec fn accepted<J>(start: PoolView<J>, events: Seq<Event<J>>) -> Seq<J>
    decreases events.len(),
{
    if events.len() == 0 {
        Seq::empty()
    } else {
        accepted(start, events.drop_last()) + replay(start, events.drop_last()).accepts(events.last())
    }
}

/// The jobs that were handed to workers in the course of `events`, in the
/// order in which they were handed out.
pub open spec fn dispatched<J>(start: PoolView<J>, events: Seq<Event<J>>) -> Seq<J>
    decreases events.len(),
{
    if events.len() == 0 {
        Seq::empty()
    } else {
        dispatched(start, events.drop_last()) + replay(start, events.drop_last()).dispatches(
            events.last(),
        )
    }
}

/// The number of jobs whose end was reported in the course of `events`.
pub open spec fn completed<J>(start: PoolView<J>, events: Seq<Event<J>>) -> nat
    decreases events.len(),
{
    if events.len() == 0 {
        0
    } else {
        completed(start, events.drop_last()) + replay(start, events.drop_last()).completes(
            events.last(),
        )
    }
}

/// A history made of two parts is the second part played on what the first
/// part left.
pub proof fn lemma_replay_concat<J>(
    start: PoolView<J>,
    first: Seq<Event<J>>,
    second: Seq<Event<J>>,
)
    ensures
        replay(start, first + second) == replay(replay(start, first), second),
        accepted(start, first + second) == accepted(start, first) + accepted(
            replay(start, first),
            second,
        ),
        dispatched(start, first + second) == dispatched(start, first) + dispatched(
            replay(start, first),
            second,
        ),
        completed(start, first + second) == completed(start, first) + completed(
            replay(start, first),
            second,
        ),
    decreases second.len(),
{
    let middle = replay(start, first);
    if second.len() == 0 {
        assert(first + second =~= first);
        assert(accepted(start, first) + accepted(middle, second) =~= accepted(start, first));
        assert(dispatched(start, first) + dispatched(middle, second) =~= dispatched(start, first));
    } else {
        let whole = first + second;
        assert(whole.drop_last() =~= first + second.drop_last());
        assert(whole.last() == second.last());
        lemma_replay_concat(start, first, second.drop_last());
        let before = replay(middle, second.drop_last());
        assert(accepted(start, whole) =~= accepted(start, first) + (accepted(
            middle,
            second.drop_last(),
        ) + before.accepts(second.last())));
        assert(dispatched(start, whole) =~= dispatched(start, first) + (dispatched(
            middle,
            second.drop_last(),
        ) + before.dispatches(second.last())));
    }
}

/// Changing one worker changes the number of busy workers by that worker
/// alone.
pub proof fn lemma_busy_count_update(workers: Seq<Worker>, i: int, worker: Worker)
    requires
        0 <= i < workers.len(),
    ensures
        busy_count(workers.update(i, worker)) + (if workers[i].state is Busy {
            1nat
        } else {
            0nat
        }) == busy_count(workers) + (if worker.state is Busy {
            1nat
        } else {
            0nat
        }),
    decreases workers.len(),
{
    let updated = workers.update(i, worker);
    if i == workers.len() - 1 {
        assert(updated.drop_last() =~= workers.drop_last());
    } else {
        assert(updated.drop_last() =~= workers.drop_last().update(i, worker));
        lemma_busy_count_update(workers.drop_last(), i, worker);
    }
}

/// Workers of which none is running a job make a busy count of zero.
pub proof fn lemma_busy_count_none(workers: Seq<Worker>)
    requires
        forall|i: int| 0 <= i < workers.len() ==> !((#[trigger] workers[i]).state is Busy),
    ensures
        busy_count(workers) == 0,
    decreases workers.len(),
{
    if workers.len() > 0 {
        assert(!(workers[workers.len() - 1].state is Busy));
        assert forall|i: int| 0 <= i < workers.drop_last().len() implies !((
        #[trigger] workers.drop_last()[i]).state is Busy) by {
            assert(workers.drop_last()[i] == workers[i]);
        }
        lemma_busy_count_none(workers.drop_last());
    }
}

/// No more workers are busy than there are workers.
pub proof fn lemma_busy_count_bound(workers: Seq<Worker>)
    ensures
        busy_count(workers) <= workers.len(),
    decreases workers.len(),
{
    if workers.len() > 0 {
        lemma_busy_count_bound(workers.drop_last());
    }
}

/// A pool as it was constructed satisfies the invariant.
pub proof fn lemma_fresh_inv<J>(size: usize)
    requires
        size > 0,
    ensures
        PoolView::<J>::fresh(size).inv(),
{
}

/// No operation breaks the invariant.
pub proof fn lemma_step_inv<J>(pool: PoolView<J>, event: Event<J>)
    requires
        pool.inv(),
    ensures
        pool.step(event).inv(),
{
}

/// The invariant holds throughout every history of a pool that satisfied it
/// at the start.
pub proof fn lemma_replay_inv<J>(start: PoolView<J>, events: Seq<Event<J>>)
    requires
        start.inv(),
    ensures
        replay(start, events).inv(),
    decreases events.len(),
{
    if events.len() > 0 {
        lemma_replay_inv(start, events.drop_last());
        lemma_step_inv(replay(start, events.drop_last()), events.last());
    }
}

/// The size of a pool is fixed: whatever happens to it, and however its
/// jobs end, it keeps the workers it was made with, each under its ordinal.
pub proof fn lemma_workers_stay<J>(start: PoolView<J>, events: Seq<Event<J>>)
    ensures
        replay(start, events).workers.len() == start.workers.len(),
        forall|i: int|
            0 <= i < start.workers.len() ==> (#[trigger] replay(start, events).workers[i]).id
                == start.workers[i].id,
    decreases events.len(),
{
    if events.len() > 0 {
        lemma_workers_stay(start, events.drop_last());
    }
}

/// One operation neither loses nor duplicates a job: what was pending and
/// what came in is what went out and what is pending now, in that order.
pub proof fn lemma_step_conserves_jobs<J>(pool: PoolView<J>, event: Event<J>)
    ensures
        pool.queue.pending + pool.accepts(event) == pool.dispatches(event) + pool.step(
            event,
        ).queue.pending,
{
}

/// Jobs leave the queue in the order in which they were accepted, each one
/// once: at every moment the accepted jobs are the jobs handed out so far,
/// in the order they were handed out, followed by the jobs still pending.
pub proof fn lemma_jobs_are_conserved<J>(start: PoolView<J>, events: Seq<Event<J>>)
    ensures
        start.queue.pending + accepted(start, events) == dispatched(start, events) + replay(
            start,
            events,
        ).queue.pending,
    decreases events.len(),
{
    if events.len() > 0 {
        let earlier = events.drop_last();
        let before = replay(start, earlier);
        lemma_jobs_are_conserved(start, earlier);
        lemma_step_conserves_jobs(before, events.last());
        let came_in = before.accepts(events.last());
        let went_out = before.dispatches(events.last());
        let after = before.step(events.last());
        assert(start.queue.pending + (accepted(start, earlier) + came_in) =~= (start.queue.pending
            + accepted(start, earlier)) + came_in);
        assert((dispatched(start, earlier) + before.queue.pending) + came_in =~= dispatched(
            start,
            earlier,
        ) + (before.queue.pending + came_in));
        assert(dispatched(start, earlier) + (went_out + after.queue.pending) =~= (dispatched(
            start,
            earlier,
        ) + went_out) + after.queue.pending);
    }
}

/// One operation keeps the books on running jobs: a job that is handed out
/// makes one more worker busy, a job whose end is reported one fewer.
pub proof fn lemma_step_counts_running_jobs<J>(pool: PoolView<J>, event: Event<J>)
    ensures
        busy_count(pool.workers) + pool.dispatches(event).len() == pool.completes(event)
            + busy_count(pool.step(event).workers),
{
    match event {
        Event::Poll(worker) => {
            if pool.has_worker(worker) {
                lemma_busy_count_update(
                    pool.workers,
                    worker,
                    pool.workers[worker].after_turn(pool.queue),
                );
            }
        },
        Event::Complete(worker, outcome) => {
            if pool.has_worker(worker) {
                lemma_busy_count_update(pool.workers, worker, pool.workers[worker].after_job(outcome));
            }
        },
        Event::Join(worker, exit) => {
            if pool.has_worker(worker) {
                lemma_busy_count_update(pool.workers, worker, pool.workers[worker].after_join(exit));
            }
        },
        _ => {},
    }
}

/// Every job that was handed out is either reported as ended or still
/// running on a worker of its own.
pub proof fn lemma_running_jobs_are_counted<J>(start: PoolView<J>, events: Seq<Event<J>>)
    ensures
        busy_count(start.workers) + dispatched(start, events).len() == completed(start, events)
            + busy_count(replay(start, events).workers),
    decreases events.len(),
{
    if events.len() > 0 {
        lemma_running_jobs_are_counted(start, events.drop_last());
        lemma_step_counts_running_jobs(replay(start, events.drop_last()), events.last());
    }
}

} // verus!
