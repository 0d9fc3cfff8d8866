use uno_game::pool::{Dispatch, PoolError, ThreadPool};

fn pool_of(size: usize) -> ThreadPool<u32> {
    match ThreadPool::build(size) {
        Ok(pool) => pool,
        Err(e) => panic!("pool refused: {:?}", e),
    }
}

fn run(d: Dispatch<u32>) -> u32 {
    match d {
        Dispatch::Run(job) => job,
        Dispatch::Wait => panic!("told to wait"),
        Dispatch::Stop => panic!("told to stop"),
    }
}

#[test]
fn pool_needs_a_worker() {
    assert!(matches!(ThreadPool::<u32>::build(0), Err(PoolError::NoWorkers)));
    assert_eq!(PoolError::NoWorkers.message(), "Tried to create a pool with 0 threads");
    assert_ne!(PoolError::ShutDown.message(), PoolError::NoWorkers.message());
}

#[test]
fn new_pool_is_idle() {
    let mut pool = pool_of(5);
    assert_eq!(pool.size(), 5);
    assert_eq!(pool.queued(), 0);
    assert!(!pool.is_stopped());
    assert!(matches!(pool.next_job(0), Dispatch::Wait));
    assert!(matches!(pool.next_job(4), Dispatch::Wait));
}

#[test]
fn jobs_are_handed_out_in_order() {
    let mut pool = pool_of(3);
    for job in [10, 20, 30] {
        assert_eq!(pool.execute(job), Ok(()));
    }
    assert_eq!(pool.queued(), 3);
    assert_eq!(run(pool.next_job(2)), 10);
    assert_eq!(run(pool.next_job(0)), 20);
    assert_eq!(run(pool.next_job(1)), 30);
    assert_eq!(pool.queued(), 0);
}

#[test]
fn excess_jobs_wait_for_a_free_worker() {
    let mut pool = pool_of(2);
    for job in 1..=5 {
        assert_eq!(pool.execute(job), Ok(()));
    }
    assert_eq!(run(pool.next_job(0)), 1);
    assert_eq!(run(pool.next_job(1)), 2);
    assert_eq!(pool.queued(), 3);
    assert!(matches!(pool.next_job(0), Dispatch::Wait));
    assert!(matches!(pool.next_job(1), Dispatch::Wait));
    assert_eq!(pool.queued(), 3);
    assert!(pool.finish(1));
    assert_eq!(run(pool.next_job(1)), 3);
    assert!(pool.finish(0));
    assert_eq!(run(pool.next_job(0)), 4);
    assert!(pool.finish(0));
    assert_eq!(run(pool.next_job(0)), 5);
    assert_eq!(pool.queued(), 0);
}

#[test]
fn every_job_runs_exactly_once() {
    let mut pool = pool_of(3);
    let mut ran: Vec<u32> = Vec::new();
    let mut next = 0;
    for round in 0..20 {
        for _ in 0..(round % 4) {
            assert_eq!(pool.execute(next), Ok(()));
            next += 1;
        }
        for worker in 0..3 {
            pool.finish(worker);
            if let Dispatch::Run(job) = pool.next_job(worker) {
                ran.push(job);
            }
        }
    }
    pool.shutdown();
    let mut stopped = 0;
    while stopped < 3 {
        stopped = 0;
        for worker in 0..3 {
            pool.finish(worker);
            match pool.next_job(worker) {
                Dispatch::Run(job) => ran.push(job),
                Dispatch::Stop => stopped += 1,
                Dispatch::Wait => panic!("nothing to wait for after shutdown"),
            }
        }
    }
    assert!(pool.is_stopped());
    assert_eq!(ran, (0..next).collect::<Vec<u32>>());
}

#[test]
fn finish_is_only_for_busy_workers() {
    let mut pool = pool_of(2);
    assert!(!pool.finish(0));
    assert!(!pool.finish(7));
    assert_eq!(pool.execute(1), Ok(()));
    assert_eq!(run(pool.next_job(0)), 1);
    assert!(!pool.finish(1));
    assert!(pool.finish(0));
    assert!(!pool.finish(0));
}

#[test]
fn no_jobs_are_taken_after_shutdown() {
    let mut pool = pool_of(2);
    assert_eq!(pool.execute(1), Ok(()));
    pool.shutdown();
    assert_eq!(pool.execute(2), Err(PoolError::ShutDown));
    assert_eq!(pool.queued(), 1);
    assert_eq!(run(pool.next_job(0)), 1);
    assert_eq!(pool.execute(3), Err(PoolError::ShutDown));
    assert_eq!(pool.queued(), 0);
}

#[test]
fn queued_jobs_are_run_before_the_pool_stops() {
    let mut pool = pool_of(2);
    for job in [1, 2, 3] {
        assert_eq!(pool.execute(job), Ok(()));
    }
    assert_eq!(run(pool.next_job(0)), 1);
    pool.shutdown();
    assert!(!pool.is_stopped());
    assert_eq!(run(pool.next_job(1)), 2);
    assert!(matches!(pool.next_job(0), Dispatch::Wait));
    assert!(pool.finish(0));
    assert_eq!(run(pool.next_job(0)), 3);
    assert!(pool.finish(1));
    assert!(matches!(pool.next_job(1), Dispatch::Stop));
    assert!(!pool.is_stopped());
    assert!(matches!(pool.next_job(0), Dispatch::Wait));
    assert!(pool.finish(0));
    assert!(matches!(pool.next_job(0), Dispatch::Stop));
    assert!(pool.is_stopped());
}

#[test]
fn stopped_workers_stay_stopped() {
    let mut pool = pool_of(1);
    pool.shutdown();
    assert!(matches!(pool.next_job(0), Dispatch::Stop));
    assert!(pool.is_stopped());
    assert!(matches!(pool.next_job(0), Dispatch::Stop));
    assert!(!pool.finish(0));
    assert!(pool.is_stopped());
}

#[test]
fn unknown_workers_are_told_to_stop() {
    let mut pool = pool_of(2);
    assert_eq!(pool.execute(1), Ok(()));
    assert!(matches!(pool.next_job(2), Dispatch::Stop));
    assert_eq!(pool.queued(), 1);
    assert!(!pool.is_stopped());
    assert_eq!(run(pool.next_job(1)), 1);
}

#[test]
fn jobs_need_not_be_numbers() {
    let mut pool: ThreadPool<String> = match ThreadPool::build(1) {
        Ok(pool) => pool,
        Err(e) => panic!("pool refused: {:?}", e),
    };
    assert_eq!(pool.execute("first".to_string()), Ok(()));
    assert_eq!(pool.execute("second".to_string()), Ok(()));
    match pool.next_job(0) {
        Dispatch::Run(job) => assert_eq!(job, "first"),
        _ => panic!("no job"),
    }
    match pool.next_job(0) {
        Dispatch::Wait => {}
        _ => panic!("a busy worker was given work"),
    }
}
