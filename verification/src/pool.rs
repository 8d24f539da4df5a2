//! The pool: one job queue and a fixed set of workers.

use crate::error::PoolError;
use crate::queue::{JobQueue, QueueView};
use crate::worker::{Action, JobOutcome, ThreadExit, Worker, WorkerState};
use vstd::prelude::*;

verus! {

/// The mathematical content of a pool: its queue and its workers in
/// construction order.
pub ghost struct PoolView<J> {
    /// The job queue.
    pub queue: QueueView<J>,
    /// The workers.
    pub workers: Seq<Worker>,
}

impl<J> PoolView<J> {
    /// The pool as `size` workers start it: nothing queued, every worker
    /// running and waiting for its first job.
    pub open spec fn fresh(size: usize) -> Self {
        PoolView {
            queue: QueueView::empty(),
            workers: Seq::new(size as nat, |i: int| Worker { id: i as usize, state: WorkerState::Idle }),
        }
    }

    /// Whether `worker` is the ordinal of one of the pool's workers.
    pub open spec fn has_worker(self, worker: int) -> bool {
        0 <= worker < self.workers.len()
    }

    /// The pool after `job` was offered to it.
    pub open spec fn execute(self, job: J) -> Self {
        PoolView { queue: self.queue.send(job), workers: self.workers }
    }

    /// What a submitter is told: a job is accepted exactly while the pool
    /// has not begun to shut down.
    pub open spec fn execute_result(self) -> Result<(), PoolError> {
        if self.queue.open {
            Ok(())
        } else {
            Err(PoolError::Dispatch)
        }
    }

    /// The pool after `worker` took one turn of its loop.
    pub open spec fn poll(self, worker: int) -> Self {
        if self.has_worker(worker) {
            PoolView {
                queue: self.workers[worker].state.turn_queue(self.queue),
                workers: self.workers.update(worker, self.workers[worker].after_turn(self.queue)),
            }
        } else {
            self
        }
    }

    /// What `worker` is told to do by one turn of its loop.
    pub open spec fn poll_action(self, worker: int) -> Action<J> {
        if self.has_worker(worker) {
            self.workers[worker].state.turn_action(self.queue)
        } else {
            Action::Exit
        }
    }

    /// The pool after `worker` reported the end of its job.
    pub open spec fn complete(self, worker: int, outcome: JobOutcome) -> Self {
        if self.has_worker(worker) {
            PoolView {
                queue: self.queue,
                workers: self.workers.update(worker, self.workers[worker].after_job(outcome)),
            }
        } else {
            self
        }
    }

    /// The pool after shutdown has begun.
    pub open spec fn shutdown(self) -> Self {
        PoolView { queue: self.queue.close(), workers: self.workers }
    }

    /// Whether waiting for the thread of `worker`, found as `exit` says,
    /// shows a clean shutdown of that worker.
    pub open spec fn joins_cleanly(self, worker: int, exit: ThreadExit) -> bool {
        self.has_worker(worker) && self.workers[worker].state.joins_cleanly(exit)
    }

    /// The pool after it waited for the thread of `worker`.
    pub open spec fn join(self, worker: int, exit: ThreadExit) -> Self {
        if self.has_worker(worker) {
            PoolView {
                queue: self.queue,
                workers: self.workers.update(worker, self.workers[worker].after_join(exit)),
            }
        } else {
            self
        }
    }

    /// Every worker below `bound` has been joined.
    pub open spec fn joined_below(self, bound: int) -> bool {
        forall|i: int| 0 <= i < bound && i < self.workers.len() ==> (#[trigger] self.workers[i]).state is Joined
    }

    /// Every worker has been joined: teardown is complete.
    pub open spec fn is_torn_down(self) -> bool {
        self.joined_below(self.workers.len() as int)
    }

    /// What holds of a pool at every moment of its life: it has a worker,
    /// each worker's ordinal is its position, and a worker has left its loop
    /// only if shutdown has begun and nothing is pending.
    pub open spec fn inv(self) -> bool {
        &&& self.workers.len() > 0
        &&& forall|i: int| 0 <= i < self.workers.len() ==> (#[trigger] self.workers[i]).id == i
        &&& forall|i: int|
            0 <= i < self.workers.len() && !(#[trigger] self.workers[i]).state.is_running()
                ==> !self.queue.open && self.queue.pending.len() == 0
    }
}

/// The dispatch state of a fixed-size worker pool.
///
/// `J` is the type of a job. The pool never runs a job: it queues it, hands
/// it to exactly one worker, and is told when that worker is done with it.
pub struct ThreadPool<J> {
    queue: JobQueue<J>,
    workers: Vec<Worker>,
}

impl<J> View for ThreadPool<J> {
    type V = PoolView<J>;

    closed spec fn view(&self) -> PoolView<J> {
        PoolView { queue: self.queue@, workers: self.workers@ }
    }
}

impl<J> ThreadPool<J> {
    /// Creates a pool of `size` workers, each running and waiting for its
    /// first job, around an empty queue.
    ///
    /// The `size` is the number of workers, fixed for the life of the pool.
    /// A pool without workers is refused with a configuration error.
    pub fn new(size: usize) -> (result: Result<ThreadPool<J>, PoolError>)
        ensures
            match result {
                Ok(pool) => size > 0 && pool@ == PoolView::<J>::fresh(size) && pool@.inv(),
                Err(error) => size == 0 && error == PoolError::Configuration,
            },
    {
        if size == 0 {
            return Err(PoolError::Configuration);
        }
        let mut workers: Vec<Worker> = Vec::with_capacity(size);
        for i in 0..size
            invariant
                workers@.len() == i,
                forall|k: int| 0 <= k < i ==> workers@[k] == (Worker { id: k as usize, state: WorkerState::Idle }),
        {
            workers.push(Worker::new(i));
        }
        let pool = ThreadPool { queue: JobQueue::new(), workers };
        assert(pool@.workers =~= PoolView::<J>::fresh(size).workers);
        Ok(pool)
    }

    /// The number of workers.
    pub fn size(&self) -> (size: usize)
        ensures
            size == self@.workers.len(),
    {
        self.workers.len()
    }

    /// The number of jobs that are queued and not yet handed to a worker.
    pub fn pending(&self) -> (pending: usize)
        ensures
            pending == self@.queue.pending.len(),
    {
        self.queue.len()
    }

    /// Whether the pool still accepts jobs, that is, shutdown has not begun.
    pub fn is_open(&self) -> (open: bool)
        ensures
            open == self@.queue.open,
    {
        self.queue.is_open()
    }

    /// The worker with ordinal `worker`, if the pool has one.
    pub fn worker(&self, worker: usize) -> (found: Option<Worker>)
        ensures
            found == if self@.has_worker(worker as int) {
                Some(self@.workers[worker as int])
            } else {
                None
            },
    {
        if worker < self.workers.len() {
            Some(self.workers[worker])
        } else {
            None
        }
    }

    /// Offers `job` to the pool. While the pool has not begun to shut down
    /// the job is queued behind everything pending; afterwards it is refused.
    pub fn execute(&mut self, job: J) -> (result: Result<(), PoolError>)
        ensures
            final(self)@ == old(self)@.execute(job),
            result == old(self)@.execute_result(),
            old(self)@.inv() ==> final(self)@.inv(),
    {
        match self.queue.send(job) {
            Ok(()) => Ok(()),
            Err(_) => Err(PoolError::Dispatch),
        }
    }

    /// One turn of the loop of `worker`. An idle worker is handed the oldest
    /// pending job, or told to wait for one, or told to leave its loop
    /// because the pool is shutting down and nothing is pending. A worker
    /// that is still busy is told to wait, and one that has left its loop,
    /// or an ordinal that names no worker, is told to exit; for these nothing
    /// changes.
    pub fn poll(&mut self, worker: usize) -> (action: Action<J>)
        ensures
            final(self)@ == old(self)@.poll(worker as int),
            action == old(self)@.poll_action(worker as int),
            old(self)@.inv() ==> final(self)@.inv(),
    {
        if worker < self.workers.len() {
            let mut turned = self.workers[worker];
            let action = turned.turn(&mut self.queue);
            self.workers.set(worker, turned);
            action
        } else {
            Action::Exit
        }
    }

    /// Records that `worker` is done with the job it was handed. However the
    /// job ended, the worker is idle again and the pool is as large as it
    /// was. Nothing changes if `worker` was not running a job.
    pub fn complete(&mut self, worker: usize, outcome: JobOutcome)
        ensures
            final(self)@ == old(self)@.complete(worker as int, outcome),
            old(self)@.inv() ==> final(self)@.inv(),
    {
        if worker < self.workers.len() {
            let mut done = self.workers[worker];
            done.finish(outcome);
            self.workers.set(worker, done);
        }
    }

    /// Begins shutdown: from now on no job is accepted. What is pending
    /// stays queued and is still handed out.
    pub fn shutdown(&mut self)
        ensures
            final(self)@ == old(self)@.shutdown(),
            old(self)@.inv() ==> final(self)@.inv(),
    {
        self.queue.close();
    }

    /// The worker whose thread the owner has to wait for next: once shutdown
    /// has begun, the first in construction order that has not been joined.
    pub fn next_to_join(&self) -> (next: Option<usize>)
        ensures
            match next {
                Some(worker) => {
                    &&& !self@.queue.open
                    &&& self@.has_worker(worker as int)
                    &&& !(self@.workers[worker as int].state is Joined)
                    &&& self@.joined_below(worker as int)
                },
                None => self@.queue.open || self@.is_torn_down(),
            },
    {
        if self.queue.is_open() {
            return None;
        }
        let mut i: usize = 0;
        while i < self.workers.len()
            invariant
                i <= self.workers@.len(),
                !self@.queue.open,
                self@.joined_below(i as int),
            decreases self.workers@.len() - i,
        {
            match self.workers[i].state {
                WorkerState::Joined => {},
                _ => {
                    return Some(i);
                },
            }
            i += 1;
        }
        None
    }

    /// Records that the owner waited for the thread of `worker` and found it
    /// as `exit` says. The worker is joined if its loop had ended on the
    /// closed queue and its thread returned, and stays joined if it was
    /// joined before. Anything else is a teardown error and changes nothing:
    /// the thread ended by a path it should not have taken.
    pub fn join(&mut self, worker: usize, exit: ThreadExit) -> (result: Result<(), PoolError>)
        ensures
            final(self)@ == old(self)@.join(worker as int, exit),
            old(self)@.inv() ==> final(self)@.inv(),
            result == if old(self)@.joins_cleanly(worker as int, exit) {
                Ok::<(), PoolError>(())
            } else {
                Err::<(), PoolError>(PoolError::Teardown)
            },
    {
        if worker < self.workers.len() {
            let mut joined = self.workers[worker];
            let result = joined.join(exit);
            self.workers.set(worker, joined);
            result
        } else {
            Err(PoolError::Teardown)
        }
    }
}

} // verus!
