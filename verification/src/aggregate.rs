//! The summary of repeated rounds: the samples in ascending order, and their
//! average, minimum and maximum.
//!
//! A sample is the duration of one run in nanoseconds.

use vstd::prelude::*;
use vstd::seq_lib::{commutative_foldl, lemma_fold_left_permutation};

verus! {

/// Average, minimum and maximum of the samples of one lock variant, in
/// nanoseconds.
#[derive(Clone, Copy, Debug, PartialEq, Eq, Structural)]
pub struct Summary {
    /// The sum of the samples divided by their number, rounded down.
    pub avg: u64,
    /// The smallest sample.
    pub min: u64,
    /// The largest sample.
    pub max: u64,
}

/// The sum of `samples`.
pub open spec fn sample_sum(samples: Seq<u64>) -> nat {
    samples.fold_left(0nat, |total: nat, sample: u64| total + sample as nat)
}

/// Whether no sample is followed by a smaller one.
pub open spec fn ascending(samples: Seq<u64>) -> bool {
    forall|i: int, j: int| 0 <= i <= j < samples.len() ==> samples[i] <= samples[j]
}

/// `sort` of slices, on a vector of integers: afterwards the vector holds the
/// values it held before, each as often as before, in ascending order.
#[verifier::external_body]
fn sort_samples(samples: &mut Vec<u64>)
    ensures
        ascending(final(samples)@),
        final(samples)@.to_multiset() == old(samples)@.to_multiset(),
{
    samples.sort();
}

/// The sum grows by each sample that is appended.
pub proof fn lemma_sum_push(samples: Seq<u64>, sample: u64)
    ensures
        sample_sum(samples.push(sample)) == sample_sum(samples) + sample,
{
    assert(samples.push(sample).drop_last() =~= samples);
}

/// The sum of samples does not depend on their order.
pub proof fn lemma_sum_any_order(first: Seq<u64>, second: Seq<u64>)
    requires
        first.to_multiset() == second.to_multiset(),
    ensures
        sample_sum(first) == sample_sum(second),
{
    let add = |total: nat, sample: u64| total + sample as nat;
    assert(commutative_foldl(add));
    lemma_fold_left_permutation(first, second, add, 0nat);
}

/// Lists that hold the same samples equally often have the same members.
pub proof fn lemma_same_members(first: Seq<u64>, second: Seq<u64>, sample: u64)
    requires
        first.to_multiset() == second.to_multiset(),
        first.contains(sample),
    ensures
        second.contains(sample),
{
    first.to_multiset_ensures();
    second.to_multiset_ensures();
    assert(first.to_multiset().count(sample) > 0);
    assert(second.to_multiset().count(sample) > 0);
}

/// The sum of samples lies between their number times a lower bound of them
/// and their number times an upper bound of them.
pub proof fn lemma_sum_between(samples: Seq<u64>, low: u64, high: u64)
    requires
        forall|i: int|
            0 <= i < samples.len() ==> low <= #[trigger] samples[i] && samples[i] <= high,
    ensures
        samples.len() * low <= sample_sum(samples) <= samples.len() * high,
    decreases samples.len(),
{
    if samples.len() > 0 {
        let shorter = samples.drop_last();
        lemma_sum_between(shorter, low, high);
        assert(shorter.push(samples.last()) =~= samples);
        lemma_sum_push(shorter, samples.last());
        assert((samples.len() - 1) * low + low == samples.len() * low) by (nonlinear_arith);
        assert((samples.len() - 1) * high + high == samples.len() * high) by (nonlinear_arith);
    }
}

/// The average of samples lies between any lower and any upper bound of them.
pub proof fn lemma_average_between(samples: Seq<u64>, low: u64, high: u64)
    requires
        samples.len() > 0,
        forall|i: int|
            0 <= i < samples.len() ==> low <= #[trigger] samples[i] && samples[i] <= high,
    ensures
        low <= sample_sum(samples) / samples.len() <= high,
{
    lemma_sum_between(samples, low, high);
    let sum = sample_sum(samples);
    let len = samples.len();
    assert(low <= sum / len <= high) by (nonlinear_arith)
        requires
            len > 0,
            len * low <= sum <= len * high,
    ;
}

/// Sorts the samples of the rounds of one lock variant and reports their
/// average, their minimum and their maximum.
pub fn summarize(samples: &mut Vec<u64>) -> (summary: Summary)
    requires
        old(samples)@.len() > 0,
    ensures
        ascending(final(samples)@),
        final(samples)@.to_multiset() == old(samples)@.to_multiset(),
        summary.min == final(samples)@.first(),
        summary.max == final(samples)@.last(),
        summary.avg == sample_sum(old(samples)@) / old(samples)@.len(),
        summary.min <= summary.avg <= summary.max,
        forall|i: int|
            0 <= i < old(samples)@.len() ==> summary.min <= #[trigger] old(samples)@[i]
                && old(samples)@[i] <= summary.max,
        old(samples)@.contains(summary.min),
        old(samples)@.contains(summary.max),
{
    sort_samples(samples);
    let len = samples.len();
    proof {
        old(samples)@.to_multiset_ensures();
        samples@.to_multiset_ensures();
        lemma_sum_any_order(old(samples)@, samples@);
    }
    let min = samples[0];
    let max = samples[len - 1];
    let mut total: u128 = 0;
    let mut index: usize = 0;
    while index < len
        invariant
            index <= len,
            len == samples@.len(),
            total == sample_sum(samples@.take(index as int)),
        decreases len - index,
    {
        proof {
            let longer = samples@.take(index + 1);
            assert(longer =~= samples@.take(index as int).push(samples@[index as int]));
            lemma_sum_push(samples@.take(index as int), samples@[index as int]);
            lemma_sum_between(longer, 0, u64::MAX);
            assert(longer.len() * u64::MAX <= u64::MAX * u64::MAX) by (nonlinear_arith)
                requires
                    longer.len() <= u64::MAX,
            ;
        }
        total = total + samples[index] as u128;
        index += 1;
    }
    proof {
        assert(samples@.take(index as int) =~= samples@);
        lemma_average_between(samples@, min, max);
        assert forall|i: int| 0 <= i < old(samples)@.len() implies min <= #[trigger] old(
            samples,
        )@[i] && old(samples)@[i] <= max by {
            let sample = old(samples)@[i];
            assert(old(samples)@.contains(sample));
            lemma_same_members(old(samples)@, samples@, sample);
            let j = choose|j: int| 0 <= j < samples@.len() && samples@[j] == sample;
            assert(samples@[0] <= samples@[j] <= samples@[len - 1]);
        }
        assert(samples@.contains(min));
        assert(samples@.contains(max));
        lemma_same_members(samples@, old(samples)@, min);
        lemma_same_members(samples@, old(samples)@, max);
    }
    let avg = (total / (len as u128)) as u64;
    Summary { avg, min, max }
}

} // verus!
