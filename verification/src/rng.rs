//! Deterministic xorshift64* pseudo-random number generator.

use vstd::prelude::*;

verus! {

/// The state that `Rng::new` substitutes for a zero seed (xorshift fixes zero).
pub const ZERO_SEED_STATE: u64 = 0x9E3779B97F4A7C15;

/// The xorshift64* output multiplier.
pub const OUTPUT_MULTIPLIER: u64 = 0x2545F4914F6CDD1D;

/// One xorshift step on the generator state.
pub open spec fn xorshift(x: u64) -> u64 {
    let a = x ^ (x >> 12u64);
    let b = a ^ (a << 25u64);
    b ^ (b >> 27u64)
}

/// The 64-bit value emitted after the state has been advanced to `x`.
pub open spec fn scramble(x: u64) -> u64 {
    vstd::wrapping::u64_specs::wrapping_mul(x, OUTPUT_MULTIPLIER)
}

/// The next 64-bit value a generator in state `s` emits.
pub open spec fn draw(s: u64) -> u64 {
    scramble(xorshift(s))
}

/// The value `Rng::range(low, high)` yields from state `s`: uniform in `[low, high]`.
pub open spec fn range_value(s: u64, low: u32, high: u32) -> u32
    recommends
        low <= high,
{
    (low + (draw(s) as int) % ((high - low) + 1)) as u32
}

/// The value `Rng::chance(numerator, denominator)` yields from state `s`.
pub open spec fn chance_value(s: u64, numerator: u32, denominator: u32) -> bool
    recommends
        denominator > 0,
{
    range_value(s, 1, denominator) <= numerator
}

/// A seedable xorshift64* generator. Its view is the raw state.
#[derive(Debug, Clone, Copy)]
pub struct Rng {
    state: u64,
}

impl View for Rng {
    type V = u64;

    closed spec fn view(&self) -> u64 {
        self.state
    }
}

impl Rng {
    /// The state a generator seeded with `seed` starts in.
    pub open spec fn new_state(seed: u64) -> u64 {
        if seed == 0 {
            ZERO_SEED_STATE
        } else {
            seed
        }
    }

    /// A generator from a seed; a zero seed (on which xorshift would stay zero
    /// forever) is replaced by a nonzero constant.
    pub fn new(seed: u64) -> (r: Rng)
        ensures
            r@ == Rng::new_state(seed),
            r@ != 0,
    {
        let state = if seed == 0 { ZERO_SEED_STATE } else { seed };
        Rng { state }
    }

    /// The live state, for saving a game mid-sequence.
    pub fn state(&self) -> (s: u64)
        ensures
            s == self@,
    {
        self.state
    }

    /// Rebuild a generator from a saved state, with no zero substitution.
    pub fn from_state(state: u64) -> (r: Rng)
        ensures
            r@ == state,
    {
        Rng { state }
    }

    /// Advance the state by one xorshift step and emit the scrambled value.
    pub fn next_u64(&mut self) -> (v: u64)
        ensures
            final(self)@ == xorshift(old(self)@),
            v == scramble(xorshift(old(self)@)),
    {
        let mut x = self.state;
        x = x ^ (x >> 12u64);
        x = x ^ (x << 25u64);
        x = x ^ (x >> 27u64);
        self.state = x;
        x.wrapping_mul(OUTPUT_MULTIPLIER)
    }

    /// Uniform integer in `[low, high]`, inclusive on both ends.
    pub fn range(&mut self, low: u32, high: u32) -> (v: u32)
        requires
            low <= high,
        ensures
            final(self)@ == xorshift(old(self)@),
            v == range_value(old(self)@, low, high),
            low <= v <= high,
    {
        let span: u64 = (high - low) as u64 + 1;
        let r = self.next_u64();
        let off: u64 = r % span;
        assert(off <= high - low);
        low + off as u32
    }

    /// `true` with probability `numerator / denominator`.
    pub fn chance(&mut self, numerator: u32, denominator: u32) -> (b: bool)
        requires
            denominator > 0,
        ensures
            final(self)@ == xorshift(old(self)@),
            b == chance_value(old(self)@, numerator, denominator),
            numerator == 0 ==> !b,
            numerator >= denominator ==> b,
    {
        self.range(1, denominator) <= numerator
    }
}

/// A nonzero state stays nonzero under the xorshift step.
pub proof fn lemma_xorshift_nonzero(x: u64)
    requires
        x != 0,
    ensures
        xorshift(x) != 0,
{
    let a = x ^ (x >> 12u64);
    let b = a ^ (a << 25u64);
    assert(a != 0) by (bit_vector)
        requires x != 0u64, a == x ^ (x >> 12u64);
    assert(b != 0) by (bit_vector)
        requires a != 0u64, b == a ^ (a << 25u64);
    assert(b ^ (b >> 27u64) != 0) by (bit_vector)
        requires b != 0u64;
}

/// The generator state after `n` draws from state `s`.
pub open spec fn advanced(s: u64, n: nat) -> u64
    decreases n,
{
    if n == 0 {
        s
    } else {
        xorshift(advanced(s, (n - 1) as nat))
    }
}

/// A generator never falls into the all-zero state (on which xorshift would stay
/// forever), whatever its seed and however many values it has drawn.
pub proof fn law_never_collapses(seed: u64, n: nat)
    ensures
        advanced(Rng::new_state(seed), n) != 0,
    decreases n,
{
    if n > 0 {
        law_never_collapses(seed, (n - 1) as nat);
        lemma_xorshift_nonzero(advanced(Rng::new_state(seed), (n - 1) as nat));
    }
}

} // verus!
