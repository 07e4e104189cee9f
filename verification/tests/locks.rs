use crossbeam_utils::thread::scope;
use rwlock_bench::pool::{counter_total, increment, run_reader, run_worker, run_writer, LockPool};
use rwlock_bench::rwlocks::{LockCell, LockPoisoned, ParkingLot, SpinLock, Std};
use rwlock_bench::workload::{Options, ThreadRole};

fn a_fresh_cell_holds_zero<M: LockCell>() {
    let cell = M::fresh();
    assert_eq!(cell.read(), Ok(0));
    assert_eq!(cell.read(), Ok(0));
}

fn a_write_replaces_the_counter<M: LockCell>() {
    let cell = M::fresh();
    assert_eq!(cell.write(|counter| counter + 7), Ok(()));
    assert_eq!(cell.read(), Ok(7));
    assert_eq!(cell.write(|counter| counter * 3), Ok(()));
    assert_eq!(cell.read(), Ok(21));
    assert_eq!(cell.write(increment), Ok(()));
    assert_eq!(cell.read(), Ok(22));
    assert_eq!(cell.write(|_| u32::MAX), Ok(()));
    assert_eq!(cell.write(increment), Ok(()));
    assert_eq!(cell.read(), Ok(0));
}

fn writers_count_their_writes<M: LockCell>() {
    let pool = LockPool::<M>::new(8);
    assert_eq!(pool.snapshot(), Ok(vec![0; 8]));
    assert_eq!(run_writer(&pool, 443187529, 500), Ok(()));
    assert_eq!(run_writer(&pool, 1557696933, 500), Ok(()));
    assert_eq!(pool.snapshot(), Ok(vec![125, 132, 125, 110, 142, 113, 124, 129]));
    assert_eq!(pool.total(), Ok(1000));
}

fn readers_change_nothing<M: LockCell>() {
    let pool = LockPool::<M>::new(3);
    assert_eq!(run_writer(&pool, 5, 10), Ok(()));
    assert_eq!(pool.snapshot(), Ok(vec![2, 4, 4]));
    assert_eq!(run_reader(&pool, 5, 1000), Ok(()));
    assert_eq!(run_reader(&pool, 6, 1000), Ok(()));
    assert_eq!(pool.snapshot(), Ok(vec![2, 4, 4]));
    assert_eq!(pool.total(), Ok(10));
}

fn workers_do_what_their_role_says<M: LockCell>() {
    let options =
        Options { n_readers: 1, n_reads: 7, n_writers: 1, n_writes: 10, n_locks: 3, n_rounds: 1 };
    let pool = LockPool::<M>::new(3);
    assert_eq!(run_worker(&pool, ThreadRole::Reader { seed: 5 }, &options), Ok(()));
    assert_eq!(pool.snapshot(), Ok(vec![0, 0, 0]));
    assert_eq!(run_worker(&pool, ThreadRole::Writer { seed: 5 }, &options), Ok(()));
    assert_eq!(pool.snapshot(), Ok(vec![2, 4, 4]));
}

fn idle_workers_need_no_lock<M: LockCell>() {
    let pool = LockPool::<M>::new(0);
    assert_eq!(pool.len(), 0);
    assert_eq!(run_reader(&pool, 5, 0), Ok(()));
    assert_eq!(run_writer(&pool, 5, 0), Ok(()));
    assert_eq!(pool.snapshot(), Ok(vec![]));
    assert_eq!(pool.total(), Ok(0));
}

fn pool_cells_are_told_apart<M: LockCell>() {
    let pool = LockPool::<M>::new(4);
    assert_eq!(pool.len(), 4);
    assert_eq!(pool.write(2, |_| 9), Ok(()));
    assert_eq!(pool.write(0, increment), Ok(()));
    assert_eq!(pool.read(0), Ok(1));
    assert_eq!(pool.read(1), Ok(0));
    assert_eq!(pool.read(2), Ok(9));
    assert_eq!(pool.read(3), Ok(0));
    assert_eq!(pool.snapshot(), Ok(vec![1, 0, 9, 0]));
    assert_eq!(pool.total(), Ok(10));
}

#[test]
fn labels_name_the_variants() {
    assert_eq!(Std::label(), "std::sync::RwLock");
    assert_eq!(ParkingLot::label(), "parking_lot::RwLock");
    assert_eq!(SpinLock::label(), "spin::RwLock");
}

#[test]
fn fresh_cells_hold_zero() {
    a_fresh_cell_holds_zero::<Std>();
    a_fresh_cell_holds_zero::<ParkingLot>();
    a_fresh_cell_holds_zero::<SpinLock>();
}

#[test]
fn writes_replace_the_counter() {
    a_write_replaces_the_counter::<Std>();
    a_write_replaces_the_counter::<ParkingLot>();
    a_write_replaces_the_counter::<SpinLock>();
}

#[test]
fn increment_adds_one_and_wraps() {
    assert_eq!(increment(0), 1);
    assert_eq!(increment(41), 42);
    assert_eq!(increment(u32::MAX - 1), u32::MAX);
    assert_eq!(increment(u32::MAX), 0);
}

#[test]
fn counters_add_up() {
    assert_eq!(counter_total(&vec![]), 0);
    assert_eq!(counter_total(&vec![125, 132, 125, 110, 142, 113, 124, 129]), 1000);
    assert_eq!(counter_total(&vec![u32::MAX, u32::MAX, 2]), 8589934592);
}

#[test]
fn pool_writers_count_their_writes() {
    writers_count_their_writes::<Std>();
    writers_count_their_writes::<ParkingLot>();
    writers_count_their_writes::<SpinLock>();
}

#[test]
fn pool_readers_change_nothing() {
    readers_change_nothing::<Std>();
    readers_change_nothing::<ParkingLot>();
    readers_change_nothing::<SpinLock>();
}

#[test]
fn pool_workers_follow_their_role() {
    workers_do_what_their_role_says::<Std>();
    workers_do_what_their_role_says::<ParkingLot>();
    workers_do_what_their_role_says::<SpinLock>();
}

#[test]
fn an_empty_pool_serves_idle_workers() {
    idle_workers_need_no_lock::<Std>();
    idle_workers_need_no_lock::<ParkingLot>();
    idle_workers_need_no_lock::<SpinLock>();
}

#[test]
fn pool_cells_are_independent() {
    pool_cells_are_told_apart::<Std>();
    pool_cells_are_told_apart::<ParkingLot>();
    pool_cells_are_told_apart::<SpinLock>();
}

#[test]
fn a_poisoned_lock_refuses_access() {
    let pool = LockPool::<Std>::new(2);
    assert_eq!(pool.write(1, increment), Ok(()));
    let holder = scope(|threads| {
        threads.spawn(|_| pool.write(1, |_| panic!("the holder of the lock gives up")));
    });
    assert!(holder.is_err());
    assert_eq!(pool.read(0), Ok(0));
    assert_eq!(pool.read(1), Err(LockPoisoned));
    assert_eq!(pool.write(1, increment), Err(LockPoisoned));
    assert_eq!(pool.snapshot(), Err(LockPoisoned));
    assert_eq!(pool.total(), Err(LockPoisoned));
    assert_eq!(run_writer(&pool, 7, 100), Err(LockPoisoned));
    assert_eq!(run_reader(&pool, 7, 100), Err(LockPoisoned));
}

#[test]
fn locks_without_poisoning_survive_a_holder_that_gives_up() {
    let pool = LockPool::<ParkingLot>::new(1);
    let holder = scope(|threads| {
        threads.spawn(|_| pool.write(0, |_| panic!("the holder of the lock gives up")));
    });
    assert!(holder.is_err());
    assert_eq!(pool.write(0, increment), Ok(()));
    assert_eq!(pool.read(0), Ok(1));
}
