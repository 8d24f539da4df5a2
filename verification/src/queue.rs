//! The job queue: an unbounded first-in, first-out hand-off between the
//! callers that submit jobs and the workers that take them.

use std::collections::VecDeque;
use vstd::prelude::*;

verus! {

/// What a worker learns when it asks the queue for its next job.
#[derive(Debug, PartialEq, Eq)]
pub enum Received<J> {
    /// The oldest pending job, now owned by the receiver.
    Job(J),
    /// Nothing is pending but jobs may still arrive: the receiver has to wait.
    Empty,
    /// Nothing is pending and nothing will arrive any more.
    Closed,
}

/// The mathematical content of a queue.
pub ghost struct QueueView<J> {
    /// The jobs waiting to be taken, oldest first.
    pub pending: Seq<J>,
    /// Whether the sending end still exists.
    pub open: bool,
}

impl<J> QueueView<J> {
    /// The queue a pool starts with.
    pub open spec fn empty() -> Self {
        QueueView { pending: Seq::empty(), open: true }
    }

    /// The queue after `job` was offered to it.
    pub open spec fn send(self, job: J) -> Self {
        if self.open {
            QueueView { pending: self.pending.push(job), open: true }
        } else {
            self
        }
    }

    /// What a receiver is handed.
    pub open spec fn front(self) -> Received<J> {
        if self.pending.len() > 0 {
            Received::Job(self.pending[0])
        } else if self.open {
            Received::Empty
        } else {
            Received::Closed
        }
    }

    /// The queue after a receiver was served.
    pub open spec fn receive(self) -> Self {
        if self.pending.len() > 0 {
            QueueView { pending: self.pending.drop_first(), open: self.open }
        } else {
            self
        }
    }

    /// The queue after its sending end was dropped.
    pub open spec fn close(self) -> Self {
        QueueView { pending: self.pending, open: false }
    }
}

/// An unbounded FIFO queue of jobs with a sending end that can be closed.
pub struct JobQueue<J> {
    pending: VecDeque<J>,
    open: bool,
}

impl<J> View for JobQueue<J> {
    type V = QueueView<J>;

    closed spec fn view(&self) -> QueueView<J> {
        QueueView { pending: self.pending@, open: self.open }
    }
}

impl<J> JobQueue<J> {
    /// Creates an open queue with nothing pending.
    pub fn new() -> (queue: Self)
        ensures
            queue@ == QueueView::<J>::empty(),
    {
        JobQueue { pending: VecDeque::new(), open: true }
    }

    /// Appends `job` behind everything pending. A closed queue takes nothing
    /// and hands the job back.
    pub fn send(&mut self, job: J) -> (result: Result<(), J>)
        ensures
            final(self)@ == old(self)@.send(job),
            result == if old(self)@.open { Ok::<(), J>(()) } else { Err::<(), J>(job) },
    {
        if self.open {
            self.pending.push_back(job);
            Ok(())
        } else {
            Err(job)
        }
    }

    /// Takes the oldest pending job, or says why there is none.
    pub fn receive(&mut self) -> (message: Received<J>)
        ensures
            message == old(self)@.front(),
            final(self)@ == old(self)@.receive(),
    {
        match self.pending.pop_front() {
            Some(job) => Received::Job(job),
            None => if self.open { Received::Empty } else { Received::Closed },
        }
    }

    /// Drops the sending end: what is pending stays, nothing more is taken in.
    pub fn close(&mut self)
        ensures
            final(self)@ == old(self)@.close(),
    {
        self.open = false;
    }

    /// The number of pending jobs.
    pub fn len(&self) -> (n: usize)
        ensures
            n == self@.pending.len(),
    {
        self.pending.len()
    }

    /// Whether the sending end still exists.
    pub fn is_open(&self) -> (open: bool)
        ensures
            open == self@.open,
    {
        self.open
    }
}

} // verus!
