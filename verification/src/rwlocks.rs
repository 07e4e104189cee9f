//! The lock abstraction under measurement, and the three lock variants that
//! implement it.

use vstd::prelude::*;

verus! {

/// A lock refused access because an earlier holder of its exclusive access
/// ended abnormally. A run cannot go on after it.
#[derive(Clone, Copy, Debug, PartialEq, Eq)]
pub struct LockPoisoned;

/// What a lock variant must offer to be measured: a cell holding one 32-bit
/// counter, read under shared access and changed under exclusive access.
///
/// A cell is shared between threads, so no contract here speaks of the value
/// of the counter: what a `read` returns depends on the writes that other
/// threads have completed before it. What the contracts do fix is when an
/// operation may fail: only where the variant can poison. Which operations
/// took place on a cell, and how each ended, is told with `read_gave` and
/// `write_gave`.
pub trait LockCell: Sync + Send + Sized {
    /// The label under which the variant is reported.
    spec fn spec_label() -> Seq<char>;

    /// Whether the variant can refuse access with `LockPoisoned`.
    spec fn can_poison() -> bool;

    /// The label under which the variant is reported.
    fn label() -> (text: &'static str)
        ensures
            text@ == Self::spec_label(),
    ;

    /// An unlocked cell whose counter is zero.
    fn fresh() -> Self;

    /// Takes shared access, copies the counter, gives the access back.
    fn read(&self) -> (outcome: Result<u32, LockPoisoned>)
        ensures
            !Self::can_poison() ==> outcome is Ok,
    ;

    /// Takes exclusive access, replaces the counter by `mutate` of it, gives
    /// the access back. `mutate` runs while the access is held, so it must
    /// not reach for the same cell. It has to be `Copy` and `'static`: a
    /// function is, and so is a closure that captures nothing; a closure that
    /// borrows a cell for a time, or owns a counted share of one, is not.
    fn write<F: FnOnce(u32) -> u32 + Copy + 'static>(&self, mutate: F) -> (outcome: Result<
        (),
        LockPoisoned,
    >)
        requires
            forall|counter: u32| call_requires(mutate, (counter,)),
        ensures
            !Self::can_poison() ==> outcome is Ok,
    ;
}

/// Whether `outcome` is what a `read` of `cell` gave.
pub open spec fn read_gave<M: LockCell>(cell: &M, outcome: Result<u32, LockPoisoned>) -> bool {
    call_ensures(M::read, (cell,), outcome)
}

/// Whether `outcome` is what a `write` of `mutate` to `cell` gave.
pub open spec fn write_gave<M: LockCell, F: FnOnce(u32) -> u32 + Copy + 'static>(
    cell: &M,
    mutate: F,
    outcome: Result<(), LockPoisoned>,
) -> bool {
    call_ensures(M::write::<F>, (cell, mutate), outcome)
}

/// `std::sync::RwLock`, carried through as an opaque value.
#[verifier::external_type_specification]
#[verifier::external_body]
#[verifier::reject_recursive_types(T)]
pub struct ExStdRwLock<T: ?Sized>(std::sync::RwLock<T>);

/// `parking_lot::RawRwLock`, the raw lock inside a `parking_lot::RwLock`;
/// opaque.
#[verifier::external_type_specification]
#[verifier::external_body]
pub struct ExParkingLotRawRwLock(parking_lot::RawRwLock);

/// `lock_api::RwLock`, of which `parking_lot::RwLock` is an instance, carried
/// through as an opaque value.
#[verifier::external_type_specification]
#[verifier::external_body]
#[verifier::reject_recursive_types(R)]
#[verifier::reject_recursive_types(T)]
pub struct ExLockApiRwLock<R, T: ?Sized>(parking_lot::lock_api::RwLock<R, T>);

/// `spin::relax::Spin`, the way a `spin::RwLock` waits; opaque.
#[verifier::external_type_specification]
#[verifier::external_body]
pub struct ExSpinRelax(spin::relax::Spin);

/// `spin::rwlock::RwLock`, carried through as an opaque value.
#[verifier::external_type_specification]
#[verifier::external_body]
#[verifier::reject_recursive_types(T)]
#[verifier::reject_recursive_types(R)]
pub struct ExSpinRwLock<T: ?Sized, R>(spin::rwlock::RwLock<T, R>);

/// The blocking lock of the standard library.
pub type Std = std::sync::RwLock<u32>;

/// The adaptive lock of `parking_lot`.
pub type ParkingLot = parking_lot::RwLock<u32>;

/// The busy-waiting lock of `spin`.
pub type SpinLock = spin::RwLock<u32>;

/// `Default::default` of `std::sync::RwLock<u32>`: an unlocked lock around
/// the default `u32`, zero.
#[verifier::external_body]
fn std_default() -> (lock: std::sync::RwLock<u32>) {
    Default::default()
}

/// `std::sync::RwLock::read`, then the guard's value. The lock answers with
/// an error once it is poisoned; that error becomes `LockPoisoned`. Nothing is
/// claimed of the value: other threads decide it.
#[verifier::external_body]
fn std_read(lock: &std::sync::RwLock<u32>) -> (outcome: Result<u32, LockPoisoned>) {
    match lock.read() {
        Ok(guard) => Ok(*guard),
        Err(_) => Err(LockPoisoned),
    }
}

/// `std::sync::RwLock::write`, then `mutate` applied to the guarded value
/// through the guard. A poisoned lock gives `LockPoisoned` and leaves the
/// value alone. The call comes back only if `mutate` leaves this lock alone
/// while it runs; the bounds on `F` keep out a closure that borrows this
/// lock for a time or owns a counted share of it.
#[verifier::external_body]
fn std_write<F: FnOnce(u32) -> u32 + Copy + 'static>(
    lock: &std::sync::RwLock<u32>,
    mutate: F,
) -> (outcome: Result<(), LockPoisoned>)
    requires
        forall|counter: u32| call_requires(mutate, (counter,)),
{
    match lock.write() {
        Ok(mut guard) => {
            *guard = mutate(*guard);
            Ok(())
        },
        Err(_) => Err(LockPoisoned),
    }
}

/// `Default::default` of `parking_lot::RwLock<u32>`: an unlocked lock around
/// the default `u32`, zero.
#[verifier::external_body]
fn parking_lot_default() -> (lock: parking_lot::RwLock<u32>) {
    Default::default()
}

/// `parking_lot::RwLock::read`, then the guard's value. Nothing is claimed of
/// the value: other threads decide it.
#[verifier::external_body]
fn parking_lot_read(lock: &parking_lot::RwLock<u32>) -> (counter: u32) {
    let guard = lock.read();
    *guard
}

/// `parking_lot::RwLock::write`, then `mutate` applied to the guarded value
/// through the guard. The call comes back only if `mutate` leaves this lock
/// alone while it runs; the bounds on `F` keep out a closure that borrows
/// this lock for a time or owns a counted share of it.
#[verifier::external_body]
fn parking_lot_write<F: FnOnce(u32) -> u32 + Copy + 'static>(
    lock: &parking_lot::RwLock<u32>,
    mutate: F,
)
    requires
        forall|counter: u32| call_requires(mutate, (counter,)),
{
    let mut guard = lock.write();
    *guard = mutate(*guard);
}

/// `Default::default` of `spin::RwLock<u32>`: an unlocked lock around the
/// default `u32`, zero.
#[verifier::external_body]
fn spin_default() -> (lock: spin::RwLock<u32>) {
    Default::default()
}

/// `spin::RwLock::read`, then the guard's value. Nothing is claimed of the
/// value: other threads decide it.
#[verifier::external_body]
fn spin_read(lock: &spin::RwLock<u32>) -> (counter: u32) {
    let guard = lock.read();
    *guard
}

/// `spin::RwLock::write`, then `mutate` applied to the guarded value through
/// the guard. The call comes back only if `mutate` leaves this lock alone
/// while it runs; the bounds on `F` keep out a closure that borrows this
/// lock for a time or owns a counted share of it.
#[verifier::external_body]
fn spin_write<F: FnOnce(u32) -> u32 + Copy + 'static>(lock: &spin::RwLock<u32>, mutate: F)
    requires
        forall|counter: u32| call_requires(mutate, (counter,)),
{
    let mut guard = lock.write();
    *guard = mutate(*guard);
}

impl LockCell for Std {
    open spec fn spec_label() -> Seq<char> {
        "std::sync::RwLock"@
    }

    open spec fn can_poison() -> bool {
        true
    }

    fn label() -> (text: &'static str) {
        "std::sync::RwLock"
    }

    fn fresh() -> Self {
        std_default()
    }

    fn read(&self) -> (outcome: Result<u32, LockPoisoned>) {
        std_read(self)
    }

    fn write<F: FnOnce(u32) -> u32 + Copy + 'static>(&self, mutate: F) -> (outcome: Result<
        (),
        LockPoisoned,
    >) {
        std_write(self, mutate)
    }
}

impl LockCell for ParkingLot {
    open spec fn spec_label() -> Seq<char> {
        "parking_lot::RwLock"@
    }

    open spec fn can_poison() -> bool {
        false
    }

    fn label() -> (text: &'static str) {
        "parking_lot::RwLock"
    }

    fn fresh() -> Self {
        parking_lot_default()
    }

    fn read(&self) -> (outcome: Result<u32, LockPoisoned>) {
        Ok(parking_lot_read(self))
    }

    fn write<F: FnOnce(u32) -> u32 + Copy + 'static>(&self, mutate: F) -> (outcome: Result<
        (),
        LockPoisoned,
    >) {
        parking_lot_write(self, mutate);
        Ok(())
    }
}

impl LockCell for SpinLock {
    open spec fn spec_label() -> Seq<char> {
        "spin::RwLock"@
    }

    open spec fn can_poison() -> bool {
        false
    }

    fn label() -> (text: &'static str) {
        "spin::RwLock"
    }

    fn fresh() -> Self {
        spin_default()
    }

    fn read(&self) -> (outcome: Result<u32, LockPoisoned>) {
        Ok(spin_read(self))
    }

    fn write<F: FnOnce(u32) -> u32 + Copy + 'static>(&self, mutate: F) -> (outcome: Result<
        (),
        LockPoisoned,
    >) {
        spin_write(self, mutate);
        Ok(())
    }
}

} // verus!
