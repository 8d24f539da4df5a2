use thread_pool::error::PoolError;
use thread_pool::pool::ThreadPool;
use thread_pool::worker::{Action, JobOutcome, ThreadExit, Worker, WorkerState};

fn pool_of(size: usize) -> ThreadPool<u32> {
    match ThreadPool::new(size) {
        Ok(pool) => pool,
        Err(error) => panic!("{}", error.message()),
    }
}

/// Runs the pool to the end of its life with every worker taking turns in
/// construction order, and returns the jobs in the order they were run.
fn tear_down(pool: &mut ThreadPool<u32>) -> Vec<u32> {
    let mut ran = Vec::new();
    pool.shutdown();
    let mut running = pool.size();
    while running > 0 {
        running = 0;
        for worker in 0..pool.size() {
            match pool.poll(worker) {
                Action::Run(job) => {
                    ran.push(job);
                    pool.complete(worker, JobOutcome::Completed);
                    running += 1;
                }
                Action::Wait => panic!("worker {} left waiting during shutdown", worker),
                Action::Exit => {}
            }
        }
    }
    while let Some(worker) = pool.next_to_join() {
        assert_eq!(pool.join(worker, ThreadExit::Returned), Ok(()));
    }
    ran
}

#[test]
fn new_creates_the_requested_number_of_idle_workers() {
    for size in 1..=8usize {
        let pool = pool_of(size);
        assert_eq!(pool.size(), size);
        assert_eq!(pool.pending(), 0);
        assert!(pool.is_open());
        for id in 0..size {
            assert_eq!(pool.worker(id), Some(Worker { id, state: WorkerState::Idle }));
        }
        assert_eq!(pool.worker(size), None);
    }
}

#[test]
fn new_refuses_a_pool_without_workers() {
    match ThreadPool::<u32>::new(0) {
        Ok(_) => panic!("a pool of size zero was built"),
        Err(error) => assert_eq!(error, PoolError::Configuration),
    }
}

#[test]
fn every_worker_of_a_fresh_pool_can_run_a_job_at_once() {
    for size in 1..=5usize {
        let mut pool = pool_of(size);
        for job in 0..size {
            assert_eq!(pool.execute(job as u32), Ok(()));
        }
        for worker in 0..size {
            assert_eq!(pool.poll(worker), Action::Run(worker as u32));
        }
        for worker in 0..size {
            assert_eq!(
                pool.worker(worker),
                Some(Worker { id: worker, state: WorkerState::Busy })
            );
        }
        assert_eq!(pool.pending(), 0);
    }
}

#[test]
fn execute_queues_jobs_in_order_of_submission() {
    let mut pool = pool_of(3);
    for job in [10, 20, 30, 40] {
        assert_eq!(pool.execute(job), Ok(()));
    }
    assert_eq!(pool.pending(), 4);
    assert_eq!(pool.poll(2), Action::Run(10));
    assert_eq!(pool.poll(0), Action::Run(20));
    assert_eq!(pool.poll(1), Action::Run(30));
    assert_eq!(pool.pending(), 1);
    pool.complete(0, JobOutcome::Completed);
    assert_eq!(pool.poll(0), Action::Run(40));
    assert_eq!(pool.pending(), 0);
}

#[test]
fn every_job_runs_exactly_once() {
    let mut pool = pool_of(3);
    let submitted: Vec<u32> = (0..25).collect();
    let mut counter = 0;
    let mut ran = Vec::new();
    for (turn, job) in submitted.iter().enumerate() {
        assert_eq!(pool.execute(*job), Ok(()));
        let worker = turn % 3;
        if let Action::Run(job) = pool.poll(worker) {
            ran.push(job);
            counter += 1;
            pool.complete(worker, JobOutcome::Completed);
        }
    }
    for job in tear_down(&mut pool) {
        ran.push(job);
        counter += 1;
    }
    assert_eq!(counter, 25);
    assert_eq!(ran, submitted);
}

#[test]
fn a_single_worker_finishes_a_job_before_it_starts_the_next() {
    let mut pool = pool_of(1);
    assert_eq!(pool.execute(1), Ok(()));
    assert_eq!(pool.execute(2), Ok(()));
    assert_eq!(pool.poll(0), Action::Run(1));
    // While the first job runs the second stays queued.
    assert_eq!(pool.poll(0), Action::Wait);
    assert_eq!(pool.pending(), 1);
    assert_eq!(pool.worker(0), Some(Worker { id: 0, state: WorkerState::Busy }));
    pool.complete(0, JobOutcome::Completed);
    assert_eq!(pool.poll(0), Action::Run(2));
    pool.complete(0, JobOutcome::Completed);
    assert_eq!(pool.poll(0), Action::Wait);
}

#[test]
fn a_failed_job_does_not_stop_later_jobs() {
    let mut pool = pool_of(1);
    assert_eq!(pool.execute(7), Ok(()));
    assert_eq!(pool.poll(0), Action::Run(7));
    pool.complete(0, JobOutcome::Failed);
    assert_eq!(pool.size(), 1);
    assert_eq!(pool.worker(0), Some(Worker { id: 0, state: WorkerState::Idle }));
    assert_eq!(pool.execute(8), Ok(()));
    assert_eq!(pool.poll(0), Action::Run(8));
    pool.complete(0, JobOutcome::Completed);
    assert_eq!(pool.worker(0), Some(Worker { id: 0, state: WorkerState::Idle }));
}

#[test]
fn teardown_drains_the_queue() {
    let mut pool = pool_of(2);
    let submitted: Vec<u32> = (100..117).collect();
    for job in &submitted {
        assert_eq!(pool.execute(*job), Ok(()));
    }
    let ran = tear_down(&mut pool);
    assert_eq!(ran, submitted);
    assert_eq!(pool.pending(), 0);
    assert_eq!(pool.next_to_join(), None);
    for id in 0..2 {
        assert_eq!(pool.worker(id), Some(Worker { id, state: WorkerState::Joined }));
    }
}

#[test]
fn teardown_of_an_idle_pool_is_immediate() {
    let mut pool = pool_of(4);
    pool.shutdown();
    let mut operations = 1;
    for worker in 0..4 {
        assert_eq!(pool.poll(worker), Action::Exit);
        operations += 1;
    }
    for worker in 0..4 {
        assert_eq!(pool.next_to_join(), Some(worker));
        assert_eq!(pool.join(worker, ThreadExit::Returned), Ok(()));
        operations += 1;
    }
    assert_eq!(pool.next_to_join(), None);
    assert_eq!(operations, 2 * 4 + 1);
}

#[test]
fn execute_after_shutdown_is_a_dispatch_error() {
    let mut pool = pool_of(2);
    assert_eq!(pool.execute(1), Ok(()));
    pool.shutdown();
    assert!(!pool.is_open());
    assert_eq!(pool.execute(2), Err(PoolError::Dispatch));
    assert_eq!(pool.pending(), 1);
    assert_eq!(tear_down(&mut pool), vec![1]);
    assert_eq!(pool.execute(3), Err(PoolError::Dispatch));
}

#[test]
fn joining_a_worker_that_did_not_stop_cleanly_is_a_teardown_error() {
    let mut pool = pool_of(3);
    // Still in its loop: the thread cannot have ended through the closed queue.
    assert_eq!(pool.join(0, ThreadExit::Returned), Err(PoolError::Teardown));
    pool.shutdown();
    assert_eq!(pool.poll(0), Action::Exit);
    assert_eq!(pool.poll(1), Action::Exit);
    // Stopped, but the thread was torn down by a failure.
    assert_eq!(pool.join(0, ThreadExit::Panicked), Err(PoolError::Teardown));
    assert_eq!(pool.worker(0), Some(Worker { id: 0, state: WorkerState::Terminated }));
    assert_eq!(pool.join(1, ThreadExit::Returned), Ok(()));
    // Joined once: nothing is left to wait for.
    assert_eq!(pool.join(1, ThreadExit::Returned), Ok(()));
    assert_eq!(pool.join(1, ThreadExit::Panicked), Ok(()));
    // No such worker.
    assert_eq!(pool.join(3, ThreadExit::Returned), Err(PoolError::Teardown));
    assert_eq!(pool.next_to_join(), Some(0));
}

#[test]
fn workers_are_joined_in_construction_order_once_shutdown_has_begun() {
    let mut pool = pool_of(3);
    assert_eq!(pool.next_to_join(), None);
    pool.shutdown();
    assert_eq!(pool.next_to_join(), Some(0));
    for worker in [2, 0, 1] {
        assert_eq!(pool.poll(worker), Action::Exit);
    }
    assert_eq!(pool.join(1, ThreadExit::Returned), Ok(()));
    assert_eq!(pool.next_to_join(), Some(0));
    assert_eq!(pool.join(0, ThreadExit::Returned), Ok(()));
    assert_eq!(pool.next_to_join(), Some(2));
    assert_eq!(pool.join(2, ThreadExit::Returned), Ok(()));
    assert_eq!(pool.next_to_join(), None);
}

#[test]
fn a_worker_waits_while_the_pool_is_open_and_empty() {
    let mut pool = pool_of(2);
    assert_eq!(pool.poll(0), Action::Wait);
    assert_eq!(pool.worker(0), Some(Worker { id: 0, state: WorkerState::Idle }));
    assert_eq!(pool.execute(5), Ok(()));
    assert_eq!(pool.poll(0), Action::Run(5));
}

#[test]
fn operations_on_unknown_or_stopped_workers_change_nothing() {
    let mut pool = pool_of(1);
    assert_eq!(pool.execute(9), Ok(()));
    assert_eq!(pool.poll(1), Action::Exit);
    pool.complete(1, JobOutcome::Completed);
    // Reporting the end of a job that was never handed out changes nothing.
    pool.complete(0, JobOutcome::Completed);
    assert_eq!(pool.worker(0), Some(Worker { id: 0, state: WorkerState::Idle }));
    assert_eq!(pool.pending(), 1);
    assert_eq!(pool.poll(0), Action::Run(9));
    pool.complete(0, JobOutcome::Completed);
    pool.shutdown();
    assert_eq!(pool.poll(0), Action::Exit);
    assert_eq!(pool.poll(0), Action::Exit);
    assert_eq!(pool.worker(0), Some(Worker { id: 0, state: WorkerState::Terminated }));
}

#[test]
fn shutdown_can_be_repeated() {
    let mut pool = pool_of(1);
    assert_eq!(pool.execute(1), Ok(()));
    pool.shutdown();
    pool.shutdown();
    assert!(!pool.is_open());
    assert_eq!(pool.pending(), 1);
    assert_eq!(tear_down(&mut pool), vec![1]);
    assert_eq!(tear_down(&mut pool), Vec::<u32>::new());
}

#[test]
fn jobs_need_not_be_numbers() {
    let mut pool: ThreadPool<String> = match ThreadPool::new(1) {
        Ok(pool) => pool,
        Err(error) => panic!("{}", error.message()),
    };
    assert_eq!(pool.execute(String::from("first")), Ok(()));
    assert_eq!(pool.execute(String::from("second")), Ok(()));
    assert_eq!(pool.poll(0), Action::Run(String::from("first")));
}

#[test]
fn error_messages() {
    assert_eq!(
        PoolError::Configuration.message(),
        "Thread count should be greater than zero!"
    );
    assert_eq!(
        PoolError::Dispatch.message(),
        "The pool is shutting down and takes no more jobs"
    );
    assert_eq!(PoolError::Teardown.message(), "A worker did not shut down cleanly");
}
