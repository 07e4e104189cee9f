//! The configuration of a benchmark and the deterministic workload derived
//! from it: one seed per thread, and each thread's sequence of lock indexes.

use vstd::prelude::*;
use crate::random::{lemma_first_step, lemma_steps_compose, nth_state, random_numbers, RandomStream};

verus! {

/// The seed of the stream from which every thread seed is folded.
pub const MASTER_SEED: u32 = 0x6F4A955E;

/// The value at which the fold over the master stream starts.
pub const FOLD_SEED: u32 = 0x9BA2BF27;

/// The number of positional arguments that make up a configuration.
pub const ARGUMENT_COUNT: usize = 6;

/// What one benchmark measures. Fixed at start-up and shared by all threads.
#[derive(Clone, Copy, Debug, PartialEq, Eq, Structural)]
pub struct Options {
    /// Reader threads per run.
    pub n_readers: u32,
    /// Reads that each reader issues.
    pub n_reads: u32,
    /// Writer threads per run.
    pub n_writers: u32,
    /// Writes that each writer issues.
    pub n_writes: u32,
    /// Locks in the pool.
    pub n_locks: u32,
    /// Runs per lock variant.
    pub n_rounds: u32,
}

/// Why a list of arguments is no configuration.
#[derive(Clone, Copy, Debug, PartialEq, Eq, Structural)]
pub enum ConfigurationError {
    /// The list ends before the argument at `position`.
    MissingArgument { position: usize },
    /// The argument at `position` is not a 32-bit unsigned integer.
    InvalidArgument { position: usize },
}

/// What is wrong with the argument at `position`, if anything.
pub open spec fn argument_fault(args: Seq<Option<u32>>, position: int) -> Option<
    ConfigurationError,
> {
    if position >= args.len() {
        Some(ConfigurationError::MissingArgument { position: position as usize })
    } else if args[position] is None {
        Some(ConfigurationError::InvalidArgument { position: position as usize })
    } else {
        None
    }
}

/// The configuration that `args` spell, or the fault of the first argument
/// that has one. Arguments beyond the sixth are not looked at.
pub open spec fn parse_options(args: Seq<Option<u32>>) -> Result<Options, ConfigurationError> {
    if argument_fault(args, 0) is Some {
        Err(argument_fault(args, 0)->0)
    } else if argument_fault(args, 1) is Some {
        Err(argument_fault(args, 1)->0)
    } else if argument_fault(args, 2) is Some {
        Err(argument_fault(args, 2)->0)
    } else if argument_fault(args, 3) is Some {
        Err(argument_fault(args, 3)->0)
    } else if argument_fault(args, 4) is Some {
        Err(argument_fault(args, 4)->0)
    } else if argument_fault(args, 5) is Some {
        Err(argument_fault(args, 5)->0)
    } else {
        Ok(
            Options {
                n_readers: args[0]->0,
                n_reads: args[1]->0,
                n_writers: args[2]->0,
                n_writes: args[3]->0,
                n_locks: args[4]->0,
                n_rounds: args[5]->0,
            },
        )
    }
}

impl Options {
    /// Builds a configuration from the positional arguments, each already
    /// read as a number (`None` where it is not one), in the order readers,
    /// reads per reader, writers, writes per writer, locks, rounds.
    pub fn from_args(args: &Vec<Option<u32>>) -> (outcome: Result<Options, ConfigurationError>)
        ensures
            outcome == parse_options(args@),
    {
        let mut values: Vec<u32> = Vec::new();
        let mut position: usize = 0;
        while position < ARGUMENT_COUNT
            invariant
                position <= ARGUMENT_COUNT,
                values.len() == position,
                forall|k: int| 0 <= k < position ==> argument_fault(args@, k) is None,
                forall|k: int| 0 <= k < position ==> args@[k] == Some(#[trigger] values@[k]),
            decreases ARGUMENT_COUNT - position,
        {
            if position >= args.len() {
                return Err(ConfigurationError::MissingArgument { position });
            }
            match args[position] {
                Some(value) => values.push(value),
                None => {
                    return Err(ConfigurationError::InvalidArgument { position });
                },
            }
            position += 1;
        }
        Ok(
            Options {
                n_readers: values[0],
                n_reads: values[1],
                n_writers: values[2],
                n_writes: values[3],
                n_locks: values[4],
                n_rounds: values[5],
            },
        )
    }
}

/// The seed of the thread at `index` among the readers, and equally among
/// the writers: the fold value after `index + 1` values of the master stream
/// have been xor-ed into it.
pub open spec fn derived_seed(master: u32, fold: u32, index: nat) -> u32
    decreases index,
{
    if index == 0 {
        fold ^ nth_state(master, 1)
    } else {
        derived_seed(master, fold, (index - 1) as nat) ^ nth_state(master, index + 1)
    }
}

/// The seeds of the first `count` threads of one kind.
pub open spec fn derived_seeds(master: u32, fold: u32, count: nat) -> Seq<u32> {
    Seq::new(count, |index: int| derived_seed(master, fold, index as nat))
}

/// Folds the stream of `master` into `fold`, one value per seed, and returns
/// the first `count` fold values.
pub fn thread_seeds(master: u32, fold: u32, count: u32) -> (seeds: Vec<u32>)
    ensures
        seeds@ == derived_seeds(master, fold, count as nat),
{
    let mut stream = random_numbers(master);
    let mut state: u32 = fold;
    let mut seeds: Vec<u32> = Vec::new();
    let mut index: u32 = 0;
    while index < count
        invariant
            index <= count,
            stream@ == nth_state(master, index as nat),
            index > 0 ==> state == derived_seed(master, fold, (index - 1) as nat),
            index == 0 ==> state == fold,
            seeds@ == derived_seeds(master, fold, index as nat),
        decreases count - index,
    {
        let value = stream.next();
        state ^= value;
        seeds.push(state);
        index += 1;
    }
    seeds
}

/// What a worker thread does, and the seed of its access pattern.
#[derive(Clone, Copy, Debug, PartialEq, Eq, Structural)]
pub enum ThreadRole {
    /// Reads the counters of pseudo-random locks.
    Reader { seed: u32 },
    /// Increments the counters of pseudo-random locks.
    Writer { seed: u32 },
}

/// The worker threads of one run: the readers, then the writers. The reader
/// and the writer at the same position get the same seed.
pub open spec fn planned_roles(options: Options) -> Seq<ThreadRole> {
    Seq::new(
        (options.n_readers + options.n_writers) as nat,
        |index: int|
            if index < options.n_readers {
                ThreadRole::Reader { seed: derived_seed(MASTER_SEED, FOLD_SEED, index as nat) }
            } else {
                ThreadRole::Writer {
                    seed: derived_seed(MASTER_SEED, FOLD_SEED, (index - options.n_readers) as nat),
                }
            },
    )
}

/// Derives the role of every worker thread of one run.
pub fn thread_roles(options: &Options) -> (roles: Vec<ThreadRole>)
    ensures
        roles@ == planned_roles(*options),
{
    let reader_seeds = thread_seeds(MASTER_SEED, FOLD_SEED, options.n_readers);
    let writer_seeds = thread_seeds(MASTER_SEED, FOLD_SEED, options.n_writers);
    let mut roles: Vec<ThreadRole> = Vec::new();
    let mut index: usize = 0;
    while index < reader_seeds.len()
        invariant
            index <= reader_seeds.len(),
            reader_seeds@ == derived_seeds(MASTER_SEED, FOLD_SEED, options.n_readers as nat),
            roles@.len() == index,
            forall|k: int| 0 <= k < index ==> roles@[k] == planned_roles(*options)[k],
        decreases reader_seeds.len() - index,
    {
        roles.push(ThreadRole::Reader { seed: reader_seeds[index] });
        index += 1;
    }
    let mut index: usize = 0;
    while index < writer_seeds.len()
        invariant
            index <= writer_seeds.len(),
            writer_seeds@ == derived_seeds(MASTER_SEED, FOLD_SEED, options.n_writers as nat),
            roles@.len() == options.n_readers + index,
            forall|k: int| 0 <= k < roles@.len() ==> roles@[k] == planned_roles(*options)[k],
        decreases writer_seeds.len() - index,
    {
        roles.push(ThreadRole::Writer { seed: writer_seeds[index] });
        index += 1;
    }
    roles
}

/// The lock that a thread seeded with `seed` touches at its access number
/// `step`, counted from zero, in a pool of `n_locks` locks.
pub open spec fn planned_index(seed: u32, n_locks: u32, step: nat) -> usize {
    (nth_state(seed, step + 1) % n_locks) as usize
}

/// The `count` locks that a thread seeded with `seed` touches, in order.
pub open spec fn planned_indexes(seed: u32, n_locks: u32, count: nat) -> Seq<usize> {
    Seq::new(count, |step: int| planned_index(seed, n_locks, step as nat))
}

/// The lock indexes that a thread has still to touch. The indexes are
/// computed one by one as they are asked for.
#[derive(Clone, Copy, Debug)]
pub struct AccessPattern {
    stream: RandomStream,
    n_locks: u32,
    remaining: u32,
}

impl View for AccessPattern {
    type V = Seq<usize>;

    closed spec fn view(&self) -> Seq<usize> {
        planned_indexes(self.stream@, self.n_locks, self.remaining as nat)
    }
}

impl AccessPattern {
    #[verifier::type_invariant]
    spec fn well_formed(self) -> bool {
        self.remaining > 0 ==> self.n_locks > 0
    }

    /// The size of the pool that the indexes address.
    pub closed spec fn pool_size(&self) -> nat {
        self.n_locks as nat
    }

    /// Hands out the next index, or `None` once the pattern is used up.
    pub fn next(&mut self) -> (index: Option<usize>)
        ensures
            final(self).pool_size() == old(self).pool_size(),
            old(self)@.len() == 0 ==> index is None && final(self)@ == old(self)@,
            old(self)@.len() > 0 ==> index == Some(old(self)@[0]) && final(self)@ == old(
                self,
            )@.drop_first() && old(self)@[0] < old(self).pool_size(),
    {
        proof {
            use_type_invariant(&*self);
        }
        if self.remaining == 0 {
            return None;
        }
        let ghost before = *self;
        let mut stream = self.stream;
        let value = stream.next();
        self.stream = stream;
        self.remaining = self.remaining - 1;
        let index = (value % self.n_locks) as usize;
        proof {
            lemma_first_step(before.stream@);
            assert(before@[0] == planned_index(before.stream@, before.n_locks, 0));
            assert forall|step: int| 0 <= step < self.remaining implies #[trigger] self@[step]
                == before@.drop_first()[step] by {
                lemma_steps_compose(before.stream@, 1, (step + 1) as nat);
                assert(before@.drop_first()[step] == planned_index(
                    before.stream@,
                    before.n_locks,
                    (step + 1) as nat,
                ));
            }
            assert(self@ =~= before@.drop_first());
        }
        Some(index)
    }
}

/// The access pattern of a thread seeded with `seed` that issues `count`
/// operations on a pool of `n_locks` locks. A pattern of no operations needs
/// no lock.
pub fn lock_indexes(seed: u32, n_locks: u32, count: u32) -> (pattern: AccessPattern)
    requires
        count > 0 ==> n_locks > 0,
    ensures
        pattern@ == planned_indexes(seed, n_locks, count as nat),
        pattern.pool_size() == n_locks,
{
    AccessPattern { stream: random_numbers(seed), n_locks, remaining: count }
}

} // verus!
