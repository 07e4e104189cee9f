//! One run, seen from the coordinating thread: the phases it goes through,
//! what it has to do in each, and the consistency oracle that ends it.
//!
//! The coordinator performs the actions (spawning, sleeping, waiting at the
//! barriers, reading the clock) and reports each outcome as an event; `step`
//! decides what comes next.

use vstd::prelude::*;
use crate::pool::{
    after_writes, counter_sum, fresh_counters, lemma_counter_sum_fits, lemma_fresh_counters_sum,
    lemma_serial_writes_add_up, lemma_zero_sum_zero_counters,
};
use crate::workload::Options;

verus! {

/// How long the coordinator waits, in milliseconds, for the workers to reach
/// the start barrier before it joins them there.
pub const WARM_UP_MILLIS: u64 = 100;

/// The counters of a finished run do not add up to the writes that were
/// issued: the lock variant lost or repeated an update.
#[derive(Clone, Copy, Debug, PartialEq, Eq, Structural)]
pub struct ConsistencyViolation {
    /// The writes that the run issued.
    pub expected: u64,
    /// The sum of the counters after the run.
    pub actual: u64,
}

/// The number of writes that one run issues.
pub open spec fn expected_total(options: Options) -> nat {
    (options.n_writers * options.n_writes) as nat
}

/// The number of threads that meet at each barrier: the workers and the
/// coordinator.
pub open spec fn participants(options: Options) -> nat {
    (options.n_readers + options.n_writers + 1) as nat
}

/// The number of writes that one run issues.
pub fn total_writes(options: &Options) -> (total: u64)
    ensures
        total == expected_total(*options),
{
    let writers: u64 = options.n_writers as u64;
    let writes: u64 = options.n_writes as u64;
    assert(writers * writes <= u64::MAX) by (nonlinear_arith)
        requires
            writers <= u32::MAX,
            writes <= u32::MAX,
    ;
    writers * writes
}

/// The number of threads that meet at each barrier.
pub fn participant_count(options: &Options) -> (count: u64)
    ensures
        count == participants(*options),
{
    options.n_readers as u64 + options.n_writers as u64 + 1
}

/// The oracle of a run: the counters must add up to the writes issued.
pub fn check_total(total: u64, options: &Options) -> (outcome: Result<(), ConsistencyViolation>)
    ensures
        outcome is Ok <==> total == expected_total(*options),
        outcome matches Err(violation) ==> violation.expected == expected_total(*options)
            && violation.actual == total,
{
    let expected = total_writes(options);
    if total == expected {
        Ok(())
    } else {
        Err(ConsistencyViolation { expected, actual: total })
    }
}

/// Where a run stands. Durations are in nanoseconds.
#[derive(Clone, Copy, Debug, PartialEq, Eq, Structural)]
pub enum RunState {
    /// The pool, the barriers and the workers are being made.
    Setup,
    /// The workers are on their way to the start barrier.
    WarmingUp,
    /// The timed window is open.
    Timing,
    /// The window took `elapsed`; the counters are being checked.
    Verifying { elapsed: u64 },
    /// The run is over and consistent; it took `elapsed`.
    Done { elapsed: u64 },
}

/// What the coordinator reports back. Durations are in nanoseconds.
#[derive(Clone, Copy, Debug, PartialEq, Eq, Structural)]
pub enum RunEvent {
    /// Every worker has been spawned.
    WorkersSpawned,
    /// The warm-up interval has passed.
    WarmUpOver,
    /// Both barriers were crossed, `elapsed` apart.
    WindowClosed { elapsed: u64 },
    /// The counters were read and add up to `total`.
    CountersRead { total: u64 },
    /// A lock refused access.
    LockPoisoned,
}

/// What the coordinator has to do next. Durations are in nanoseconds.
#[derive(Clone, Copy, Debug, PartialEq, Eq, Structural)]
pub enum RunAction {
    /// Make a pool of `n_locks` locks and two barriers for `participants`
    /// threads each, and spawn the workers, which wait at the start barrier.
    Spawn { n_locks: u32, participants: u64 },
    /// Sleep for `millis` milliseconds.
    WarmUp { millis: u64 },
    /// Cross the start barrier, note the time, cross the end barrier, and
    /// measure the time that has passed.
    MeasureWindow,
    /// Read every counter and add them up.
    ReadCounters,
    /// Discard pool and barriers and hand `elapsed` to the caller.
    Finish { elapsed: u64 },
}

/// Why a run was given up.
#[derive(Clone, Copy, Debug, PartialEq, Eq, Structural)]
pub enum RunError {
    /// A lock refused access.
    Poisoned,
    /// The counters do not add up.
    Inconsistent(ConsistencyViolation),
    /// The event does not belong to the phase that the run is in.
    OutOfOrder,
}

/// The phases in their order.
pub open spec fn phase_rank(state: RunState) -> nat {
    match state {
        RunState::Setup => 0,
        RunState::WarmingUp => 1,
        RunState::Timing => 2,
        RunState::Verifying { .. } => 3,
        RunState::Done { .. } => 4,
    }
}

/// The transition relation of a run, as a function.
pub open spec fn next_step(state: RunState, event: RunEvent, options: Options) -> Result<
    (RunState, RunAction),
    RunError,
> {
    match (state, event) {
        (RunState::Done { .. }, _) => Err(RunError::OutOfOrder),
        (_, RunEvent::LockPoisoned) => Err(RunError::Poisoned),
        (RunState::Setup, RunEvent::WorkersSpawned) => Ok(
            (RunState::WarmingUp, RunAction::WarmUp { millis: WARM_UP_MILLIS }),
        ),
        (RunState::WarmingUp, RunEvent::WarmUpOver) => Ok(
            (RunState::Timing, RunAction::MeasureWindow),
        ),
        (RunState::Timing, RunEvent::WindowClosed { elapsed }) => Ok(
            (RunState::Verifying { elapsed }, RunAction::ReadCounters),
        ),
        (RunState::Verifying { elapsed }, RunEvent::CountersRead { total }) => if total
            == expected_total(options) {
            Ok((RunState::Done { elapsed }, RunAction::Finish { elapsed }))
        } else {
            Err(
                RunError::Inconsistent(
                    ConsistencyViolation {
                        expected: expected_total(options) as u64,
                        actual: total,
                    },
                ),
            )
        },
        _ => Err(RunError::OutOfOrder),
    }
}

/// Opens a run: the phase it starts in and the first thing to do.
pub fn begin(options: &Options) -> (start: (RunState, RunAction))
    ensures
        start.0 == RunState::Setup,
        start.1 == (RunAction::Spawn {
            n_locks: options.n_locks,
            participants: participants(*options) as u64,
        }),
{
    (
        RunState::Setup,
        RunAction::Spawn { n_locks: options.n_locks, participants: participant_count(options) },
    )
}

/// Takes the run from `state` over `event`: the phase that follows and what
/// to do in it, or the reason why the run ends here.
pub fn step(state: RunState, event: RunEvent, options: &Options) -> (outcome: Result<
    (RunState, RunAction),
    RunError,
>)
    ensures
        outcome == next_step(state, event, *options),
{
    match state {
        RunState::Done { .. } => Err(RunError::OutOfOrder),
        RunState::Setup => match event {
            RunEvent::LockPoisoned => Err(RunError::Poisoned),
            RunEvent::WorkersSpawned => Ok(
                (RunState::WarmingUp, RunAction::WarmUp { millis: WARM_UP_MILLIS }),
            ),
            _ => Err(RunError::OutOfOrder),
        },
        RunState::WarmingUp => match event {
            RunEvent::LockPoisoned => Err(RunError::Poisoned),
            RunEvent::WarmUpOver => Ok((RunState::Timing, RunAction::MeasureWindow)),
            _ => Err(RunError::OutOfOrder),
        },
        RunState::Timing => match event {
            RunEvent::LockPoisoned => Err(RunError::Poisoned),
            RunEvent::WindowClosed { elapsed } => Ok(
                (RunState::Verifying { elapsed }, RunAction::ReadCounters),
            ),
            _ => Err(RunError::OutOfOrder),
        },
        RunState::Verifying { elapsed } => match event {
            RunEvent::LockPoisoned => Err(RunError::Poisoned),
            RunEvent::CountersRead { total } => match check_total(total, options) {
                Ok(_) => Ok((RunState::Done { elapsed }, RunAction::Finish { elapsed })),
                Err(violation) => Err(RunError::Inconsistent(violation)),
            },
            _ => Err(RunError::OutOfOrder),
        },
    }
}

/// A run goes through its phases in order, one at a time.
pub proof fn lemma_phases_in_order(state: RunState, event: RunEvent, options: Options)
    ensures
        next_step(state, event, options) matches Ok((next, _)) ==> phase_rank(next) == phase_rank(
            state,
        ) + 1,
{
}

/// A run completes only from the check of its counters, and only if they
/// add up to the writes it issued; it then hands back the duration that was
/// measured.
pub proof fn lemma_completion_is_consistent(state: RunState, event: RunEvent, options: Options)
    ensures
        next_step(state, event, options) matches Ok((RunState::Done { elapsed }, action)) ==> {
            &&& state == (RunState::Verifying { elapsed })
            &&& action == (RunAction::Finish { elapsed })
            &&& event matches RunEvent::CountersRead { total }
            &&& total == options.n_writers * options.n_writes
        },
{
}

/// The oracle asks for what exclusive access delivers: on a fresh pool, the
/// writes of a run, taken in any order one after the other, leave counters
/// that pass the check, as long as their number fits a counter.
pub proof fn lemma_serial_run_is_consistent(options: Options, writes: Seq<usize>)
    requires
        writes.len() == options.n_writers * options.n_writes,
        writes.len() <= u32::MAX,
        forall|k: int| 0 <= k < writes.len() ==> #[trigger] writes[k] < options.n_locks,
    ensures
        counter_sum(after_writes(fresh_counters(options.n_locks as nat), writes))
            == expected_total(options),
{
    lemma_fresh_counters_sum(options.n_locks as nat);
    lemma_serial_writes_add_up(fresh_counters(options.n_locks as nat), writes);
}

/// After a run that completes, the counters of the pool add up to the number
/// of writers times the writes of each.
pub proof fn lemma_no_update_lost(state: RunState, counters: Seq<u32>, options: Options)
    requires
        counters.len() <= u32::MAX,
        next_step(
            state,
            RunEvent::CountersRead { total: counter_sum(counters) as u64 },
            options,
        ) matches Ok((RunState::Done { .. }, _)),
    ensures
        counter_sum(counters) == options.n_writers * options.n_writes,
{
    lemma_counter_sum_fits(counters);
}

/// After a run without writers that completes, the counters of the pool add
/// up to zero: each of them is zero.
pub proof fn lemma_no_writers_no_counts(state: RunState, counters: Seq<u32>, options: Options)
    requires
        options.n_writers == 0,
        counters.len() <= u32::MAX,
        next_step(
            state,
            RunEvent::CountersRead { total: counter_sum(counters) as u64 },
            options,
        ) matches Ok((RunState::Done { .. }, _)),
    ensures
        counter_sum(counters) == 0,
        forall|index: int| 0 <= index < counters.len() ==> counters[index] == 0,
{
    lemma_no_update_lost(state, counters, options);
    assert(options.n_writers * options.n_writes == 0) by (nonlinear_arith)
        requires
            options.n_writers == 0,
    ;
    lemma_zero_sum_zero_counters(counters);
}

} // verus!
