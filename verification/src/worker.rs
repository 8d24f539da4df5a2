//! One worker of the pool: an ordinal and the state of its loop.

use crate::error::PoolError;
use crate::queue::{JobQueue, QueueView, Received};
use vstd::prelude::*;

verus! {

/// Where a worker stands in its life.
///
/// `Idle` and `Busy` are the two halves of the running loop; a worker leaves
/// that loop only by seeing the queue closed and empty.
#[derive(Clone, Copy, Debug, PartialEq, Eq, Structural)]
pub enum WorkerState {
    /// Running, and waiting for the next job.
    Idle,
    /// Running, and executing a job.
    Busy,
    /// The loop has ended: the queue was closed and empty.
    Terminated,
    /// The pool has waited for the worker's thread and released it.
    Joined,
}

/// How the run of one job ended.
#[derive(Clone, Copy, Debug, PartialEq, Eq, Structural)]
pub enum JobOutcome {
    /// The job returned.
    Completed,
    /// The job failed part-way.
    Failed,
}

/// How a worker's thread was found when the pool waited for it.
#[derive(Clone, Copy, Debug, PartialEq, Eq, Structural)]
pub enum ThreadExit {
    /// The thread's function returned.
    Returned,
    /// The thread was torn down by a failure.
    Panicked,
}

/// What a worker has to do next.
#[derive(Debug, PartialEq, Eq)]
pub enum Action<J> {
    /// Run this job to completion, then report how it ended.
    Run(J),
    /// Nothing to do for now: block until the queue changes.
    Wait,
    /// Leave the loop and let the thread end.
    Exit,
}

impl WorkerState {
    /// A running worker is one that has not left its loop.
    pub open spec fn is_running(self) -> bool {
        self is Idle || self is Busy
    }

    /// The state after one turn of the loop against `queue`.
    pub open spec fn after_turn<J>(self, queue: QueueView<J>) -> WorkerState {
        if self is Idle {
            match queue.front() {
                Received::Job(_) => WorkerState::Busy,
                Received::Empty => WorkerState::Idle,
                Received::Closed => WorkerState::Terminated,
            }
        } else {
            self
        }
    }

    /// What one turn of the loop against `queue` tells the worker to do.
    pub open spec fn turn_action<J>(self, queue: QueueView<J>) -> Action<J> {
        match self {
            WorkerState::Idle => match queue.front() {
                Received::Job(job) => Action::Run(job),
                Received::Empty => Action::Wait,
                Received::Closed => Action::Exit,
            },
            WorkerState::Busy => Action::Wait,
            WorkerState::Terminated | WorkerState::Joined => Action::Exit,
        }
    }

    /// The queue after one turn of the loop: only an idle worker touches it.
    pub open spec fn turn_queue<J>(self, queue: QueueView<J>) -> QueueView<J> {
        if self is Idle {
            queue.receive()
        } else {
            queue
        }
    }

    /// The state after a job ended: however it ended, the worker goes back
    /// to waiting.
    pub open spec fn after_job(self, outcome: JobOutcome) -> WorkerState {
        if self is Busy {
            WorkerState::Idle
        } else {
            self
        }
    }

    /// Whether waiting for the thread of a worker in this state, which was
    /// found as `exit` says, shows a clean shutdown.
    pub open spec fn joins_cleanly(self, exit: ThreadExit) -> bool {
        self is Joined || (self is Terminated && exit is Returned)
    }

    /// The state after the pool waited for the worker's thread.
    pub open spec fn after_join(self, exit: ThreadExit) -> WorkerState {
        if self.joins_cleanly(exit) {
            WorkerState::Joined
        } else {
            self
        }
    }
}

/// A worker: its ordinal in the pool and the state of its loop.
#[derive(Clone, Copy, Debug, PartialEq, Eq, Structural)]
pub struct Worker {
    /// The ordinal, counted from zero in construction order.
    pub id: usize,
    /// Where the worker stands in its life.
    pub state: WorkerState,
}

impl Worker {
    /// The worker after one turn of its loop against `queue`.
    pub open spec fn after_turn<J>(self, queue: QueueView<J>) -> Worker {
        Worker { id: self.id, state: self.state.after_turn(queue) }
    }

    /// The worker after the job it was running ended.
    pub open spec fn after_job(self, outcome: JobOutcome) -> Worker {
        Worker { id: self.id, state: self.state.after_job(outcome) }
    }

    /// The worker after the pool waited for its thread.
    pub open spec fn after_join(self, exit: ThreadExit) -> Worker {
        Worker { id: self.id, state: self.state.after_join(exit) }
    }

    /// Creates the worker with ordinal `id`. It is running from the start,
    /// waiting for its first job.
    pub fn new(id: usize) -> (worker: Worker)
        ensures
            worker == (Worker { id, state: WorkerState::Idle }),
    {
        Worker { id, state: WorkerState::Idle }
    }

    /// One turn of the worker's loop. An idle worker asks `queue` for the
    /// oldest pending job: it takes the job and becomes busy, or is told to
    /// wait, or sees the queue closed and terminates. A busy worker is told
    /// to wait and a stopped one to exit, and neither touches the queue.
    pub fn turn<J>(&mut self, queue: &mut JobQueue<J>) -> (action: Action<J>)
        ensures
            action == old(self).state.turn_action(old(queue)@),
            *final(self) == old(self).after_turn(old(queue)@),
            final(queue)@ == old(self).state.turn_queue(old(queue)@),
    {
        match self.state {
            WorkerState::Idle => match queue.receive() {
                Received::Job(job) => {
                    self.state = WorkerState::Busy;
                    Action::Run(job)
                },
                Received::Empty => Action::Wait,
                Received::Closed => {
                    self.state = WorkerState::Terminated;
                    Action::Exit
                },
            },
            WorkerState::Busy => Action::Wait,
            WorkerState::Terminated | WorkerState::Joined => Action::Exit,
        }
    }

    /// Records that the job the worker was running has ended. A failed job
    /// costs the pool nothing but that job: the worker goes back to waiting
    /// whatever `outcome` says.
    pub fn finish(&mut self, outcome: JobOutcome)
        ensures
            *final(self) == old(self).after_job(outcome),
    {
        match self.state {
            WorkerState::Busy => {
                self.state = WorkerState::Idle;
            },
            _ => {},
        }
    }

    /// Records that the pool waited for the worker's thread and found it as
    /// `exit` says. Only a worker whose loop ended on the closed queue, and
    /// whose thread returned, has shut down cleanly; a worker that was joined
    /// before has nothing left to wait for.
    pub fn join(&mut self, exit: ThreadExit) -> (result: Result<(), PoolError>)
        ensures
            *final(self) == old(self).after_join(exit),
            result == if old(self).state.joins_cleanly(exit) {
                Ok::<(), PoolError>(())
            } else {
                Err::<(), PoolError>(PoolError::Teardown)
            },
    {
        match (self.state, exit) {
            (WorkerState::Joined, _) => Ok(()),
            (WorkerState::Terminated, ThreadExit::Returned) => {
                self.state = WorkerState::Joined;
                Ok(())
            },
            _ => Err(PoolError::Teardown),
        }
    }
}

} // verus!
