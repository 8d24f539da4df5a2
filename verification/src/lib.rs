//! The dispatch core of a fixed-size worker pool.
//!
//! A pool hands jobs submitted by any caller to a fixed set of long-lived
//! workers through one first-in, first-out queue, and shuts down by draining
//! that queue before the workers are joined. This crate holds every decision
//! of that mechanism as sequential, verified code: what is queued, which
//! worker is handed which job, when a worker stops, and in which order
//! workers are joined. Threads, locks and the running of a job are left to
//! the embedding program, which feeds what happened back as plain values.
//!
//! The embedding program keeps one [`ThreadPool`] behind a lock and drives it
//! like this:
//!
//! - a caller submits a job with [`ThreadPool::execute`];
//! - each worker thread calls [`ThreadPool::poll`] with its ordinal, and
//!   obeys the [`Action`] it gets: it runs the job outside the lock and
//!   reports its end with [`ThreadPool::complete`], or blocks until the pool
//!   changes and polls again, or returns;
//! - the owner ends the pool with [`ThreadPool::shutdown`], then waits for
//!   the threads in the order given by [`ThreadPool::next_to_join`] and
//!   reports each with [`ThreadPool::join`].
//!
//! Every operation is defined in every state, so the pool puts no obligation
//! on the program around it. What it guarantees for every interleaving of
//! these operations is stated and proved in [`history`], [`dispatch`] and
//! [`teardown`].

pub mod dispatch;
pub mod error;
pub mod history;
pub mod pool;
pub mod queue;
pub mod teardown;
pub mod worker;

pub use crate::error::PoolError;
pub use crate::pool::ThreadPool;
pub use crate::queue::{JobQueue, Received};
pub use crate::worker::{Action, JobOutcome, ThreadExit, Worker, WorkerState};
