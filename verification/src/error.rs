//! The failures a pool reports to its owner and its callers.

use vstd::prelude::*;

verus! {

/// Why an operation of the pool was refused.
///
/// A job that fails while it runs is not in this list: its failure ends
/// with that job and is reported as a [`JobOutcome`](crate::worker::JobOutcome).
#[derive(Clone, Copy, Debug, PartialEq, Eq, Structural)]
pub enum PoolError {
    /// The requested number of workers is not positive.
    Configuration,
    /// A job was offered after shutdown had begun.
    Dispatch,
    /// A worker's thread ended by another path than the closed-queue exit.
    Teardown,
}

impl PoolError {
    /// A one-line description for the owner of the pool.
    pub fn message(&self) -> (text: &'static str)
        ensures
            text@ == match *self {
                PoolError::Configuration => "Thread count should be greater than zero!"@,
                PoolError::Dispatch => "The pool is shutting down and takes no more jobs"@,
                PoolError::Teardown => "A worker did not shut down cleanly"@,
            },
    {
        match self {
            PoolError::Configuration => "Thread count should be greater than zero!",
            PoolError::Dispatch => "The pool is shutting down and takes no more jobs",
            PoolError::Teardown => "A worker did not shut down cleanly",
        }
    }
}

} // verus!
