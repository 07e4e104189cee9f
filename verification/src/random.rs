//! Deterministic 32-bit pseudo-random streams (xorshift).

use vstd::prelude::*;

verus! {

/// One xorshift step: the value that follows `x` in every stream.
pub open spec fn xorshift(x: u32) -> u32 {
    let a = x ^ (x << 13);
    let b = a ^ (a >> 17);
    b ^ (b << 5)
}

/// The value a stream holds after `steps` steps from `seed`.
pub open spec fn nth_state(seed: u32, steps: nat) -> u32
    decreases steps,
{
    if steps == 0 {
        seed
    } else {
        xorshift(nth_state(seed, (steps - 1) as nat))
    }
}

/// The first `len` values that a stream holding `state` will yield.
pub open spec fn stream_prefix(state: u32, len: nat) -> Seq<u32> {
    Seq::new(len, |k: int| nth_state(state, (k + 1) as nat))
}

/// A lazy, endless stream of 32-bit values. Its only state is the value it
/// yielded last (the seed, before the first draw).
#[derive(Clone, Copy, Debug)]
pub struct RandomStream {
    state: u32,
}

impl View for RandomStream {
    type V = u32;

    closed spec fn view(&self) -> u32 {
        self.state
    }
}

impl RandomStream {
    /// Draws the next value.
    pub fn next(&mut self) -> (value: u32)
        ensures
            value == xorshift(old(self)@),
            final(self)@ == value,
    {
        let mut x: u32 = self.state;
        x ^= x << 13;
        x ^= x >> 17;
        x ^= x << 5;
        self.state = x;
        x
    }

    /// Draws the next `len` values, in order.
    pub fn take(&mut self, len: usize) -> (values: Vec<u32>)
        ensures
            values@ == stream_prefix(old(self)@, len as nat),
            final(self)@ == nth_state(old(self)@, len as nat),
    {
        let mut values: Vec<u32> = Vec::new();
        let mut drawn: usize = 0;
        while drawn < len
            invariant
                drawn <= len,
                values@ == stream_prefix(old(self)@, drawn as nat),
                self@ == nth_state(old(self)@, drawn as nat),
            decreases len - drawn,
        {
            let value = self.next();
            values.push(value);
            drawn += 1;
        }
        values
    }
}

/// Starts a stream at `seed`.
pub fn random_numbers(seed: u32) -> (stream: RandomStream)
    ensures
        stream@ == seed,
{
    RandomStream { state: seed }
}

/// The first value of a stream is one xorshift step from its seed.
pub proof fn lemma_first_step(seed: u32)
    ensures
        nth_state(seed, 1) == xorshift(seed),
{
    assert(nth_state(seed, 1) == xorshift(nth_state(seed, 0)));
}

/// Steps compose: `a + b` steps from `seed` are `b` steps from where `a`
/// steps lead.
pub proof fn lemma_steps_compose(seed: u32, a: nat, b: nat)
    ensures
        nth_state(seed, a + b) == nth_state(nth_state(seed, a), b),
    decreases b,
{
    if b > 0 {
        lemma_steps_compose(seed, a, (b - 1) as nat);
    }
}

/// Determinism: two streams started from the same seed yield the same values
/// over every prefix length, and stand at the same value afterwards.
pub proof fn lemma_same_seed_same_sequence(
    seed: u32,
    first: RandomStream,
    second: RandomStream,
    len: nat,
)
    requires
        first@ == seed,
        second@ == seed,
    ensures
        stream_prefix(first@, len) == stream_prefix(second@, len),
        stream_prefix(first@, len) == stream_prefix(seed, len),
        nth_state(first@, len) == nth_state(second@, len),
{
}

} // verus!
