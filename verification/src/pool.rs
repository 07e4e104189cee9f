//! The pool of locks that the worker threads of one run share, and what each
//! worker does to it.

use vstd::prelude::*;
use crossbeam_utils::CachePadded;
use crate::rwlocks::{read_gave, write_gave, LockCell, LockPoisoned};
use crate::workload::{lock_indexes, planned_indexes, Options, ThreadRole};

verus! {

/// `crossbeam_utils::CachePadded`, carried through as an opaque value.
#[verifier::external_type_specification]
#[verifier::external_body]
#[verifier::reject_recursive_types(T)]
pub struct ExCachePadded<T>(crossbeam_utils::CachePadded<T>);

/// `CachePadded::new`: moves `cell` into a slot that is aligned to, and
/// padded out to, the length of a cache line. Nothing is claimed of the slot:
/// it holds a lock, of which no contract speaks.
#[verifier::external_body]
fn pad<M: LockCell>(cell: M) -> (slot: CachePadded<M>) {
    CachePadded::new(cell)
}

/// `Deref::deref` of `CachePadded`: a reference to the value that the slot
/// holds. Nothing is claimed of it, for the same reason.
#[verifier::external_body]
fn unpad<M: LockCell>(slot: &CachePadded<M>) -> (cell: &M) {
    &**slot
}

/// The locks of one run, each on a cache line of its own, so that threads
/// working on different locks do not disturb each other.
#[verifier::reject_recursive_types(M)]
pub struct LockPool<M: LockCell> {
    cells: Vec<CachePadded<M>>,
}

/// What a writer does to a counter: it adds one. A counter at the end of its
/// range starts over at zero.
pub open spec fn incremented(counter: u32) -> u32 {
    if counter == u32::MAX {
        0
    } else {
        (counter + 1) as u32
    }
}

/// Adds one to a counter.
pub fn increment(counter: u32) -> (next: u32)
    ensures
        next == incremented(counter),
{
    counter.wrapping_add(1)
}

/// The sum of `counters`.
pub open spec fn counter_sum(counters: Seq<u32>) -> nat
    decreases counters.len(),
{
    if counters.len() == 0 {
        0
    } else {
        counter_sum(counters.drop_last()) + counters.last() as nat
    }
}

/// No sum of counters exceeds the largest counter times their number.
pub proof fn lemma_counter_sum_bound(counters: Seq<u32>)
    ensures
        counter_sum(counters) <= counters.len() * u32::MAX,
    decreases counters.len(),
{
    if counters.len() > 0 {
        lemma_counter_sum_bound(counters.drop_last());
        assert((counters.len() - 1) * u32::MAX + u32::MAX == counters.len() * u32::MAX)
            by (nonlinear_arith);
    }
}

/// Counters that add up to zero are all zero.
pub proof fn lemma_zero_sum_zero_counters(counters: Seq<u32>)
    requires
        counter_sum(counters) == 0,
    ensures
        forall|index: int| 0 <= index < counters.len() ==> counters[index] == 0,
    decreases counters.len(),
{
    if counters.len() > 0 {
        lemma_zero_sum_zero_counters(counters.drop_last());
        assert forall|index: int| 0 <= index < counters.len() implies counters[index] == 0 by {
            if index < counters.len() - 1 {
                assert(counters.drop_last()[index] == counters[index]);
            }
        }
    }
}

/// The counters of a pool, which has no more locks than a `u32` counts, add
/// up to less than a `u64` holds.
pub proof fn lemma_counter_sum_fits(counters: Seq<u32>)
    requires
        counters.len() <= u32::MAX,
    ensures
        counter_sum(counters) <= u32::MAX * u32::MAX,
        counter_sum(counters) <= u64::MAX,
{
    lemma_counter_sum_bound(counters);
    assert(counters.len() * u32::MAX <= u32::MAX * u32::MAX) by (nonlinear_arith)
        requires
            counters.len() <= u32::MAX,
    ;
}

/// No counter exceeds the sum of all.
pub proof fn lemma_counter_within_sum(counters: Seq<u32>, index: int)
    requires
        0 <= index < counters.len(),
    ensures
        counters[index] <= counter_sum(counters),
    decreases counters.len(),
{
    if index < counters.len() - 1 {
        lemma_counter_within_sum(counters.drop_last(), index);
    }
}

/// Replacing one counter changes the sum by the difference of the two values.
pub proof fn lemma_counter_sum_update(counters: Seq<u32>, index: int, value: u32)
    requires
        0 <= index < counters.len(),
    ensures
        counter_sum(counters.update(index, value)) == counter_sum(counters) - counters[index]
            + value,
    decreases counters.len(),
{
    let updated = counters.update(index, value);
    if index == counters.len() - 1 {
        assert(updated.drop_last() =~= counters.drop_last());
    } else {
        assert(updated.drop_last() =~= counters.drop_last().update(index, value));
        lemma_counter_sum_update(counters.drop_last(), index, value);
    }
}

/// The counters of a pool after the writes at `indexes` have taken place one
/// after the other, each adding one to the counter at its index. This is
/// what exclusive access promises of writers that run side by side: the
/// outcome of some order of their writes.
pub open spec fn after_writes(counters: Seq<u32>, indexes: Seq<usize>) -> Seq<u32>
    decreases indexes.len(),
{
    if indexes.len() == 0 {
        counters
    } else {
        let before = after_writes(counters, indexes.drop_last());
        let at = indexes.last() as int;
        before.update(at, incremented(before[at]))
    }
}

/// Writes that take place one after the other are all counted, whatever
/// their order and whichever locks they fall on: the sum of the counters
/// grows by the number of writes, as long as it fits a counter.
pub proof fn lemma_serial_writes_add_up(counters: Seq<u32>, indexes: Seq<usize>)
    requires
        forall|k: int| 0 <= k < indexes.len() ==> #[trigger] indexes[k] < counters.len(),
        counter_sum(counters) + indexes.len() <= u32::MAX,
    ensures
        after_writes(counters, indexes).len() == counters.len(),
        counter_sum(after_writes(counters, indexes)) == counter_sum(counters) + indexes.len(),
    decreases indexes.len(),
{
    if indexes.len() > 0 {
        let earlier = indexes.drop_last();
        assert forall|k: int| 0 <= k < earlier.len() implies #[trigger] earlier[k]
            < counters.len() by {
            assert(earlier[k] == indexes[k]);
        }
        lemma_serial_writes_add_up(counters, earlier);
        let before = after_writes(counters, earlier);
        let at = indexes.last() as int;
        assert(indexes[indexes.len() - 1] < counters.len());
        lemma_counter_within_sum(before, at);
        lemma_counter_sum_update(before, at, incremented(before[at]));
    }
}

/// A pool of fresh locks: every counter is zero.
pub open spec fn fresh_counters(n_locks: nat) -> Seq<u32> {
    Seq::new(n_locks, |index: int| 0u32)
}

/// Fresh counters add up to zero.
pub proof fn lemma_fresh_counters_sum(n_locks: nat)
    ensures
        counter_sum(fresh_counters(n_locks)) == 0,
    decreases n_locks,
{
    if n_locks > 0 {
        assert(fresh_counters(n_locks).drop_last() =~= fresh_counters((n_locks - 1) as nat));
        lemma_fresh_counters_sum((n_locks - 1) as nat);
    }
}

/// Adds up the counters read from a pool.
pub fn counter_total(counters: &Vec<u32>) -> (total: u64)
    requires
        counters@.len() <= u32::MAX,
    ensures
        total == counter_sum(counters@),
{
    let mut total: u64 = 0;
    let mut index: usize = 0;
    while index < counters.len()
        invariant
            index <= counters@.len(),
            counters@.len() <= u32::MAX,
            total == counter_sum(counters@.take(index as int)),
        decreases counters@.len() - index,
    {
        proof {
            let longer = counters@.take(index + 1);
            assert(longer.drop_last() =~= counters@.take(index as int));
            lemma_counter_sum_fits(longer);
        }
        total = total + counters[index] as u64;
        index += 1;
    }
    assert(counters@.take(index as int) =~= counters@);
    total
}

impl<M: LockCell> LockPool<M> {
    #[verifier::type_invariant]
    spec fn well_formed(self) -> bool {
        self.cells@.len() <= u32::MAX
    }

    /// The number of locks in the pool.
    pub closed spec fn spec_len(&self) -> nat {
        self.cells@.len()
    }

    /// Whether `cell` is the lock that the pool holds at `index`.
    pub closed spec fn holds(&self, index: int, cell: &M) -> bool {
        0 <= index < self.cells@.len() && call_ensures(
            unpad::<M>,
            (&self.cells@[index],),
            cell,
        )
    }

    /// Whether `outcome` is what a `read` of the lock at `index` gave.
    pub open spec fn read_at_gave(&self, index: int, outcome: Result<u32, LockPoisoned>) -> bool {
        exists|cell: &M| #[trigger] self.holds(index, cell) && read_gave(cell, outcome)
    }

    /// Whether `outcome` is what a `write` of `mutate` to the lock at `index`
    /// gave.
    pub open spec fn write_at_gave<F: FnOnce(u32) -> u32 + Copy + 'static>(
        &self,
        index: int,
        mutate: F,
        outcome: Result<(), LockPoisoned>,
    ) -> bool {
        exists|cell: &M| #[trigger] self.holds(index, cell) && write_gave(cell, mutate, outcome)
    }

    /// Whether `counters` are what reads of the first locks of the pool gave:
    /// the counter at each index what a `read` of the lock at that index
    /// gave.
    pub open spec fn reads_from_start(&self, counters: Seq<u32>) -> bool {
        &&& counters.len() <= self.spec_len()
        &&& forall|k: int|
            0 <= k < counters.len() ==> self.read_at_gave(k, Ok(#[trigger] counters[k]))
    }

    /// Whether a walk over the pool that had read `counters` from the first
    /// locks was refused by the lock that follows them.
    pub open spec fn refused_after(&self, counters: Seq<u32>, poisoned: LockPoisoned) -> bool {
        &&& self.reads_from_start(counters)
        &&& counters.len() < self.spec_len()
        &&& self.read_at_gave(counters.len() as int, Err(poisoned))
    }

    /// Whether a walk over the pool from its first lock on was refused: the
    /// locks before some lock gave their counters, and that lock refused.
    pub open spec fn refused_from_start(&self, poisoned: LockPoisoned) -> bool {
        exists|counters: Seq<u32>| #[trigger] self.refused_after(counters, poisoned)
    }

    /// A pool of `n_locks` fresh locks.
    pub fn new(n_locks: u32) -> (pool: Self)
        ensures
            pool.spec_len() == n_locks,
    {
        let mut cells: Vec<CachePadded<M>> = Vec::new();
        let mut made: u32 = 0;
        while made < n_locks
            invariant
                made <= n_locks,
                cells@.len() == made,
            decreases n_locks - made,
        {
            cells.push(pad(M::fresh()));
            made += 1;
        }
        LockPool { cells }
    }

    /// The number of locks in the pool.
    pub fn len(&self) -> (len: u32)
        ensures
            len == self.spec_len(),
    {
        proof {
            use_type_invariant(self);
        }
        self.cells.len() as u32
    }

    /// Reads the counter of the lock at `index`.
    pub fn read(&self, index: usize) -> (outcome: Result<u32, LockPoisoned>)
        requires
            index < self.spec_len(),
        ensures
            self.read_at_gave(index as int, outcome),
            !M::can_poison() ==> outcome is Ok,
    {
        let cell = unpad(&self.cells[index]);
        assert(self.holds(index as int, cell));
        cell.read()
    }

    /// Replaces the counter of the lock at `index` by `mutate` of it.
    pub fn write<F: FnOnce(u32) -> u32 + Copy + 'static>(
        &self,
        index: usize,
        mutate: F,
    ) -> (outcome: Result<(), LockPoisoned>)
        requires
            index < self.spec_len(),
            forall|counter: u32| call_requires(mutate, (counter,)),
        ensures
            self.write_at_gave(index as int, mutate, outcome),
            !M::can_poison() ==> outcome is Ok,
    {
        let cell = unpad(&self.cells[index]);
        assert(self.holds(index as int, cell));
        cell.write(mutate)
    }

    /// Reads every counter once, in the order of the pool. The first lock that
    /// refuses ends the walk.
    pub fn snapshot(&self) -> (outcome: Result<Vec<u32>, LockPoisoned>)
        ensures
            !M::can_poison() ==> outcome is Ok,
            outcome matches Ok(counters) ==> counters@.len() == self.spec_len()
                && self.reads_from_start(counters@),
            outcome matches Err(poisoned) ==> self.refused_from_start(poisoned),
    {
        let mut counters: Vec<u32> = Vec::new();
        let mut index: usize = 0;
        while index < self.cells.len()
            invariant
                index <= self.cells@.len(),
                counters@.len() == index,
                self.reads_from_start(counters@),
            decreases self.cells@.len() - index,
        {
            match self.read(index) {
                Ok(counter) => counters.push(counter),
                Err(poisoned) => {
                    assert(self.refused_after(counters@, poisoned));
                    return Err(poisoned);
                },
            }
            index += 1;
        }
        Ok(counters)
    }

    /// Reads every counter once, in the order of the pool, and adds them up.
    /// The first lock that refuses ends the walk.
    pub fn total(&self) -> (outcome: Result<u64, LockPoisoned>)
        ensures
            !M::can_poison() ==> outcome is Ok,
            outcome matches Ok(total) ==> exists|counters: Seq<u32>|
                counters.len() == self.spec_len() && #[trigger] self.reads_from_start(counters)
                    && total == counter_sum(counters),
            outcome matches Err(poisoned) ==> self.refused_from_start(poisoned),
    {
        proof {
            use_type_invariant(self);
        }
        match self.snapshot() {
            Ok(counters) => Ok(counter_total(&counters)),
            Err(poisoned) => Err(poisoned),
        }
    }
}

/// How a walk over locks ends: with the refusal of the last lock it came to,
/// or well.
pub open spec fn walk_outcome<T>(outcomes: Seq<Result<T, LockPoisoned>>) -> Result<
    (),
    LockPoisoned,
> {
    if outcomes.len() > 0 && outcomes.last() is Err {
        Err(outcomes.last()->Err_0)
    } else {
        Ok(())
    }
}

/// Whether `outcomes` are what a walk over `steps` locks has seen: only the
/// last lock it came to may have refused, and it went on to the end unless
/// one did.
pub open spec fn walk_shape<T>(steps: nat, outcomes: Seq<Result<T, LockPoisoned>>) -> bool {
    &&& outcomes.len() <= steps
    &&& forall|k: int| 0 <= k < outcomes.len() - 1 ==> #[trigger] outcomes[k] is Ok
    &&& outcomes.len() < steps ==> outcomes.len() > 0 && outcomes.last() is Err
}

/// Whether `outcomes` are what reads of the locks at `indexes` gave, taken
/// one after the other from the first index on, up to the first refusal.
pub open spec fn reads_gave<M: LockCell>(
    pool: &LockPool<M>,
    indexes: Seq<usize>,
    outcomes: Seq<Result<u32, LockPoisoned>>,
) -> bool {
    &&& walk_shape(indexes.len(), outcomes)
    &&& forall|k: int|
        0 <= k < outcomes.len() ==> pool.read_at_gave(indexes[k] as int, #[trigger] outcomes[k])
}

/// Whether `outcomes` are what increments of the locks at `indexes` gave,
/// taken one after the other from the first index on, up to the first
/// refusal.
pub open spec fn increments_gave<M: LockCell>(
    pool: &LockPool<M>,
    indexes: Seq<usize>,
    outcomes: Seq<Result<(), LockPoisoned>>,
) -> bool {
    &&& walk_shape(indexes.len(), outcomes)
    &&& forall|k: int|
        0 <= k < outcomes.len() ==> pool.write_at_gave(
            indexes[k] as int,
            increment,
            #[trigger] outcomes[k],
        )
}

/// Whether `outcome` is how the work of a reader seeded with `seed` ended:
/// it read the locks that its access pattern names, one after the other,
/// `n_reads` of them unless one refused.
pub open spec fn reader_ran<M: LockCell>(
    pool: &LockPool<M>,
    seed: u32,
    n_reads: u32,
    outcome: Result<(), LockPoisoned>,
) -> bool {
    exists|outcomes: Seq<Result<u32, LockPoisoned>>|
        #[trigger] reads_gave(
            pool,
            planned_indexes(seed, pool.spec_len() as u32, n_reads as nat),
            outcomes,
        ) && outcome == walk_outcome(outcomes)
}

/// Whether `outcome` is how the work of a writer seeded with `seed` ended:
/// it incremented the locks that its access pattern names, one after the
/// other, `n_writes` of them unless one refused.
pub open spec fn writer_ran<M: LockCell>(
    pool: &LockPool<M>,
    seed: u32,
    n_writes: u32,
    outcome: Result<(), LockPoisoned>,
) -> bool {
    exists|outcomes: Seq<Result<(), LockPoisoned>>|
        #[trigger] increments_gave(
            pool,
            planned_indexes(seed, pool.spec_len() as u32, n_writes as nat),
            outcomes,
        ) && outcome == walk_outcome(outcomes)
}

/// The work of one reader: `n_reads` reads, each on the lock that the access
/// pattern of `seed` names next. Stops at the first lock that refuses.
pub fn run_reader<M: LockCell>(pool: &LockPool<M>, seed: u32, n_reads: u32) -> (outcome: Result<
    (),
    LockPoisoned,
>)
    requires
        n_reads > 0 ==> pool.spec_len() > 0,
    ensures
        reader_ran(pool, seed, n_reads, outcome),
        !M::can_poison() ==> outcome is Ok,
{
    let mut pattern = lock_indexes(seed, pool.len(), n_reads);
    let ghost indexes = pattern@;
    let ghost mut outcomes: Seq<Result<u32, LockPoisoned>> = Seq::empty();
    loop
        invariant
            pattern.pool_size() == pool.spec_len(),
            indexes == planned_indexes(seed, pool.spec_len() as u32, n_reads as nat),
            outcomes.len() <= indexes.len(),
            pattern@ == indexes.skip(outcomes.len() as int),
            forall|k: int| 0 <= k < outcomes.len() ==> #[trigger] outcomes[k] is Ok,
            forall|k: int|
                0 <= k < outcomes.len() ==> pool.read_at_gave(
                    indexes[k] as int,
                    #[trigger] outcomes[k],
                ),
        decreases pattern@.len(),
    {
        match pattern.next() {
            Some(index) => {
                let read = pool.read(index);
                proof {
                    assert(index == indexes[outcomes.len() as int]);
                    assert(indexes.skip(outcomes.len() as int).drop_first() =~= indexes.skip(
                        outcomes.len() as int + 1,
                    ));
                    outcomes = outcomes.push(read);
                }
                match read {
                    Ok(_) => {},
                    Err(poisoned) => {
                        assert(reads_gave(pool, indexes, outcomes));
                        return Err(poisoned);
                    },
                }
            },
            None => {
                assert(reads_gave(pool, indexes, outcomes));
                return Ok(());
            },
        }
    }
}

/// The work of one writer: `n_writes` increments, each on the lock that the
/// access pattern of `seed` names next. Stops at the first lock that refuses.
pub fn run_writer<M: LockCell>(pool: &LockPool<M>, seed: u32, n_writes: u32) -> (outcome: Result<
    (),
    LockPoisoned,
>)
    requires
        n_writes > 0 ==> pool.spec_len() > 0,
    ensures
        writer_ran(pool, seed, n_writes, outcome),
        !M::can_poison() ==> outcome is Ok,
{
    let mut pattern = lock_indexes(seed, pool.len(), n_writes);
    let ghost indexes = pattern@;
    let ghost mut outcomes: Seq<Result<(), LockPoisoned>> = Seq::empty();
    loop
        invariant
            pattern.pool_size() == pool.spec_len(),
            indexes == planned_indexes(seed, pool.spec_len() as u32, n_writes as nat),
            outcomes.len() <= indexes.len(),
            pattern@ == indexes.skip(outcomes.len() as int),
            forall|k: int| 0 <= k < outcomes.len() ==> #[trigger] outcomes[k] is Ok,
            forall|k: int|
                0 <= k < outcomes.len() ==> pool.write_at_gave(
                    indexes[k] as int,
                    increment,
                    #[trigger] outcomes[k],
                ),
        decreases pattern@.len(),
    {
        match pattern.next() {
            Some(index) => {
                let written = pool.write(index, increment);
                proof {
                    assert(index == indexes[outcomes.len() as int]);
                    assert(indexes.skip(outcomes.len() as int).drop_first() =~= indexes.skip(
                        outcomes.len() as int + 1,
                    ));
                    outcomes = outcomes.push(written);
                }
                match written {
                    Ok(_) => {},
                    Err(poisoned) => {
                        assert(increments_gave(pool, indexes, outcomes));
                        return Err(poisoned);
                    },
                }
            },
            None => {
                assert(increments_gave(pool, indexes, outcomes));
                return Ok(());
            },
        }
    }
}

/// The work of the thread with the given role, between the two barriers: that
/// of a reader with the configured number of reads, or that of a writer with
/// the configured number of writes.
pub fn run_worker<M: LockCell>(pool: &LockPool<M>, role: ThreadRole, options: &Options) -> (outcome:
    Result<(), LockPoisoned>)
    requires
        pool.spec_len() == options.n_locks,
        role is Reader && options.n_reads > 0 ==> options.n_locks > 0,
        role is Writer && options.n_writes > 0 ==> options.n_locks > 0,
    ensures
        role matches ThreadRole::Reader { seed } ==> reader_ran(
            pool,
            seed,
            options.n_reads,
            outcome,
        ),
        role matches ThreadRole::Writer { seed } ==> writer_ran(
            pool,
            seed,
            options.n_writes,
            outcome,
        ),
        !M::can_poison() ==> outcome is Ok,
{
    match role {
        ThreadRole::Reader { seed } => run_reader(pool, seed, options.n_reads),
        ThreadRole::Writer { seed } => run_writer(pool, seed, options.n_writes),
    }
}

} // verus!
