use thread_pool::error::PoolError;
use thread_pool::pool::ThreadPool;
use thread_pool::worker::{Action, JobOutcome, ThreadExit, WorkerState};

/// A small deterministic generator, so that every run takes the same turns.
struct Turns(u64);

impl Turns {
    fn next(&mut self, bound: u64) -> u64 {
        self.0 = self.0.wrapping_mul(6364136223846793005).wrapping_add(1442695040888963407);
        (self.0 >> 33) % bound
    }
}

/// What a history has shown so far, counted outside the pool.
struct Ledger {
    accepted: Vec<u64>,
    dispatched: Vec<u64>,
    completed: usize,
    failed: usize,
}

fn busy_workers(pool: &ThreadPool<u64>) -> usize {
    (0..pool.size())
        .filter(|id| matches!(pool.worker(*id), Some(worker) if worker.state == WorkerState::Busy))
        .count()
}

fn balance_books(pool: &ThreadPool<u64>, ledger: &Ledger) {
    // Jobs leave in the order they came in, none twice, none lost.
    assert_eq!(ledger.accepted.len(), ledger.dispatched.len() + pool.pending());
    assert_eq!(ledger.accepted[..ledger.dispatched.len()], ledger.dispatched[..]);
    // Every job handed out has ended or is running on a worker of its own.
    assert_eq!(ledger.dispatched.len(), ledger.completed + busy_workers(pool));
    // A worker has left its loop only when the pool is closed and drained.
    for id in 0..pool.size() {
        let state = pool.worker(id).map(|worker| worker.state);
        if state == Some(WorkerState::Terminated) || state == Some(WorkerState::Joined) {
            assert!(!pool.is_open());
            assert_eq!(pool.pending(), 0);
        }
        assert_eq!(pool.worker(id).map(|worker| worker.id), Some(id));
    }
}

fn wander(size: usize, seed: u64, steps: usize, shutdown_every: u64) {
    let mut pool: ThreadPool<u64> = match ThreadPool::new(size) {
        Ok(pool) => pool,
        Err(error) => panic!("{}", error.message()),
    };
    let mut turns = Turns(seed);
    let mut ledger = Ledger { accepted: Vec::new(), dispatched: Vec::new(), completed: 0, failed: 0 };
    let mut next_job = 0;
    for _ in 0..steps {
        let worker = turns.next(size as u64 + 1) as usize;
        match turns.next(4) {
            0 => {
                let open = pool.is_open();
                let result = pool.execute(next_job);
                if open {
                    assert_eq!(result, Ok(()));
                    ledger.accepted.push(next_job);
                } else {
                    assert_eq!(result, Err(PoolError::Dispatch));
                }
                next_job += 1;
            }
            1 => {
                let before = pool.worker(worker).map(|worker| worker.state);
                let pending = pool.pending();
                let open = pool.is_open();
                match pool.poll(worker) {
                    Action::Run(job) => {
                        assert_eq!(before, Some(WorkerState::Idle));
                        assert!(pending > 0);
                        ledger.dispatched.push(job);
                    }
                    Action::Wait => {
                        assert!(
                            before == Some(WorkerState::Busy)
                                || (before == Some(WorkerState::Idle) && pending == 0 && open)
                        );
                    }
                    Action::Exit => {
                        assert!(
                            before != Some(WorkerState::Busy)
                                && (before != Some(WorkerState::Idle) || (pending == 0 && !open))
                        );
                    }
                }
            }
            2 => {
                let was_busy =
                    pool.worker(worker).map(|worker| worker.state) == Some(WorkerState::Busy);
                let outcome = if turns.next(3) == 0 {
                    JobOutcome::Failed
                } else {
                    JobOutcome::Completed
                };
                pool.complete(worker, outcome);
                if was_busy {
                    ledger.completed += 1;
                    if outcome == JobOutcome::Failed {
                        ledger.failed += 1;
                    }
                    assert_eq!(
                        pool.worker(worker).map(|worker| worker.state),
                        Some(WorkerState::Idle)
                    );
                }
            }
            _ => {
                if turns.next(shutdown_every) == 0 {
                    pool.shutdown();
                } else {
                    let state = pool.worker(worker).map(|worker| worker.state);
                    let clean = matches!(
                        state,
                        Some(WorkerState::Terminated) | Some(WorkerState::Joined)
                    );
                    let result = pool.join(worker, ThreadExit::Returned);
                    assert_eq!(result.is_ok(), clean);
                }
            }
        }
        assert_eq!(pool.size(), size);
        balance_books(&pool, &ledger);
    }
    // Wind the pool down: finish what runs, drain what is queued, join everyone.
    pool.shutdown();
    let mut progress = true;
    while progress {
        progress = false;
        for worker in 0..size {
            pool.complete(worker, JobOutcome::Completed);
            if let Action::Run(job) = pool.poll(worker) {
                ledger.dispatched.push(job);
                progress = true;
            }
        }
    }
    ledger.completed = ledger.dispatched.len();
    while let Some(worker) = pool.next_to_join() {
        assert_eq!(pool.join(worker, ThreadExit::Returned), Ok(()));
    }
    balance_books(&pool, &ledger);
    assert_eq!(pool.pending(), 0);
    assert_eq!(ledger.dispatched, ledger.accepted);
    assert!(ledger.failed <= ledger.completed);
    for id in 0..size {
        assert_eq!(pool.worker(id).map(|worker| worker.state), Some(WorkerState::Joined));
    }
}

#[test]
fn long_histories_of_an_open_pool_keep_the_books() {
    for size in 1..=4 {
        for seed in 0..20 {
            wander(size, seed, 400, 1_000_000);
        }
    }
}

#[test]
fn histories_with_early_shutdown_keep_the_books() {
    for size in 1..=4 {
        for seed in 100..140 {
            wander(size, seed, 200, 12);
        }
    }
}

#[test]
fn single_worker_histories_never_overlap_jobs() {
    let mut pool: ThreadPool<u64> = match ThreadPool::new(1) {
        Ok(pool) => pool,
        Err(error) => panic!("{}", error.message()),
    };
    let mut turns = Turns(7);
    let mut started = Vec::new();
    let mut ended = 0;
    let mut submitted = 0;
    for _ in 0..500 {
        match turns.next(3) {
            0 => {
                assert_eq!(pool.execute(submitted), Ok(()));
                submitted += 1;
            }
            1 => {
                if let Action::Run(job) = pool.poll(0) {
                    // Everything started before has ended, and this is the next in line.
                    assert_eq!(ended, started.len());
                    assert_eq!(job, started.len() as u64);
                    started.push(job);
                }
            }
            _ => {
                if started.len() > ended {
                    pool.complete(0, JobOutcome::Completed);
                    ended += 1;
                }
            }
        }
    }
    assert!(started.len() > 50);
}
