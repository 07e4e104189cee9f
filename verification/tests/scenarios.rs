use crossbeam_utils::thread::scope;
use rwlock_bench::aggregate::summarize;
use rwlock_bench::pool::{run_worker, LockPool};
use rwlock_bench::runner::{begin, step, RunAction, RunEvent};
use rwlock_bench::rwlocks::{LockCell, ParkingLot, SpinLock, Std};
use rwlock_bench::workload::{thread_roles, Options};
use std::sync::atomic::{AtomicU64, Ordering};
use std::sync::Barrier;
use std::time::{Duration, Instant};

fn pause(millis: u64) {
    let until = Instant::now() + Duration::from_millis(millis);
    while Instant::now() < until {
        std::hint::spin_loop();
    }
}

/// One run as the coordinator makes it: the duration it took, and the total
/// that its counters added up to.
fn run_once<M: LockCell>(options: &Options) -> (u64, u64) {
    let (mut state, action) = begin(options);
    let (n_locks, participants) = match action {
        RunAction::Spawn { n_locks, participants } => (n_locks, participants as usize),
        other => panic!("a run begins with the setup, not with {:?}", other),
    };
    let pool = &LockPool::<M>::new(n_locks);
    let start_barrier = &Barrier::new(participants);
    let end_barrier = &Barrier::new(participants);
    let seen = &AtomicU64::new(u64::MAX);
    let elapsed = scope(|threads| {
        for role in thread_roles(options) {
            threads.spawn(move |_| {
                start_barrier.wait();
                run_worker(pool, role, options).expect("a lock refused access");
                end_barrier.wait();
            });
        }
        let mut event = RunEvent::WorkersSpawned;
        loop {
            let (next, action) = step(state, event, options).expect("the run was given up");
            state = next;
            event = match action {
                RunAction::Spawn { .. } => unreachable!(),
                RunAction::WarmUp { millis } => {
                    pause(millis);
                    RunEvent::WarmUpOver
                }
                RunAction::MeasureWindow => {
                    start_barrier.wait();
                    let start = Instant::now();
                    end_barrier.wait();
                    RunEvent::WindowClosed { elapsed: start.elapsed().as_nanos() as u64 }
                }
                RunAction::ReadCounters => match pool.total() {
                    Ok(total) => {
                        seen.store(total, Ordering::SeqCst);
                        RunEvent::CountersRead { total }
                    }
                    Err(_) => RunEvent::LockPoisoned,
                },
                RunAction::Finish { elapsed } => return elapsed,
            };
        }
    })
    .expect("a worker gave up");
    (elapsed, seen.load(Ordering::SeqCst))
}

fn mixed_rounds<M: LockCell>() {
    let options =
        Options { n_readers: 4, n_reads: 1000, n_writers: 2, n_writes: 500, n_locks: 8, n_rounds: 5 };
    let mut samples = Vec::new();
    for _ in 0..options.n_rounds {
        let (elapsed, total) = run_once::<M>(&options);
        assert_eq!(total, 1000);
        samples.push(elapsed);
    }
    assert_eq!(samples.len(), 5);
    let summary = summarize(&mut samples);
    assert!(summary.min <= summary.avg && summary.avg <= summary.max);
    assert_eq!(summary.min, samples[0]);
    assert_eq!(summary.max, samples[4]);
    assert!(!M::label().is_empty());
}

fn single_write<M: LockCell>() {
    let options =
        Options { n_readers: 0, n_reads: 0, n_writers: 1, n_writes: 1, n_locks: 1, n_rounds: 1 };
    for _ in 0..3 {
        let (elapsed, total) = run_once::<M>(&options);
        assert_eq!(total, 1);
        assert!(elapsed < 5_000_000_000);
    }
}

fn single_lock<M: LockCell>() {
    let options =
        Options { n_readers: 4, n_reads: 2000, n_writers: 4, n_writes: 2000, n_locks: 1, n_rounds: 1 };
    let (_, total) = run_once::<M>(&options);
    assert_eq!(total, 8000);
}

fn readers_only<M: LockCell>() {
    let options =
        Options { n_readers: 3, n_reads: 500, n_writers: 0, n_writes: 500, n_locks: 4, n_rounds: 1 };
    let (_, total) = run_once::<M>(&options);
    assert_eq!(total, 0);
}

#[test]
fn mixed_workload_on_the_standard_lock() {
    mixed_rounds::<Std>();
}

#[test]
fn mixed_workload_on_the_parking_lot_lock() {
    mixed_rounds::<ParkingLot>();
}

#[test]
fn mixed_workload_on_the_spin_lock() {
    mixed_rounds::<SpinLock>();
}

#[test]
fn one_writer_one_write_one_lock() {
    single_write::<Std>();
    single_write::<ParkingLot>();
    single_write::<SpinLock>();
}

#[test]
fn all_threads_on_a_single_lock() {
    single_lock::<Std>();
    single_lock::<ParkingLot>();
    single_lock::<SpinLock>();
}

#[test]
fn no_writers_leave_every_counter_at_zero() {
    readers_only::<Std>();
    readers_only::<ParkingLot>();
    readers_only::<SpinLock>();
}

#[test]
fn a_run_without_workers_completes() {
    let options =
        Options { n_readers: 0, n_reads: 9, n_writers: 0, n_writes: 9, n_locks: 0, n_rounds: 1 };
    let (_, total) = run_once::<ParkingLot>(&options);
    assert_eq!(total, 0);
}
