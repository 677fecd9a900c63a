//! The seeded random source: a permuted congruential generator with 128 bits
//! of state and 64 bits of output per step.
//!
//! The whole stream is a function of the seed, so a draw call that is given a
//! seed yields the same path on every run and every machine.

use vstd::prelude::*;

verus! {

/// Multiplier of the 128-bit congruential step.
pub const STEP_MULTIPLIER: u128 = 0x2360_ED05_1FC6_5DA4_4385_DF64_9FCC_F645;

/// Multiplier of the 64-bit generator that spreads a seed over the state.
pub const SEED_MULTIPLIER: u64 = 6364136223846793005;

/// Increment of the 64-bit generator that spreads a seed over the state.
pub const SEED_INCREMENT: u64 = 11634580027462260723;

/// Largest amplitude that [`RoughRng::symmetric`] accepts.
pub const AMPLITUDE_MAX: i64 = 1073741824;

/// `x` rotated right by `r` bits, for `r` below 64.
pub open spec fn spec_rotr64(x: u64, r: u32) -> u64 {
    if r == 0 {
        x
    } else {
        (x >> r) | (x << ((64 - r) as u32))
    }
}

/// `x` rotated right by `r` bits, for `r` below 32.
pub open spec fn spec_rotr32(x: u32, r: u32) -> u32 {
    if r == 0 {
        x
    } else {
        (x >> r) | (x << ((32 - r) as u32))
    }
}

/// The seed generator's state after one step from `s`.
pub open spec fn spec_seed_step(s: u64) -> u64 {
    s.wrapping_mul(SEED_MULTIPLIER).wrapping_add(SEED_INCREMENT)
}

/// The 32 bits that the seed generator gives out in state `s`.
pub open spec fn spec_seed_word(s: u64) -> u32 {
    let mixed = (((s >> 18u32) ^ s) >> 27u32) & 0xFFFF_FFFFu64;
    spec_rotr32(mixed as u32, (s >> 59u32) as u32)
}

/// Two steps of the seed generator from `s`: the 64 bits given out (the first
/// word is the low half) and the state reached.
pub open spec fn spec_seed_pair(s: u64) -> (u64, u64) {
    let s1 = spec_seed_step(s);
    let s2 = spec_seed_step(s1);
    ((spec_seed_word(s1) as u64) | ((spec_seed_word(s2) as u64) << 32u32), s2)
}

/// State of the random source. A draw call makes one and threads it through
/// every generator it runs, in a fixed order.
#[derive(Clone, Copy, Debug, PartialEq, Eq, Structural)]
pub struct RoughRng {
    /// Current state of the congruential generator.
    pub state: u128,
    /// Increment of the congruential step; it selects the stream.
    pub increment: u128,
}

impl RoughRng {
    /// The source after one step.
    pub open spec fn spec_step(self) -> RoughRng {
        RoughRng {
            state: self.state.wrapping_mul(STEP_MULTIPLIER).wrapping_add(self.increment),
            increment: self.increment,
        }
    }

    /// The 64 bits that the source gives out in its current state.
    pub open spec fn spec_output(self) -> u64 {
        let high = (self.state >> 64u32) as u64;
        let low = (self.state & 0xFFFF_FFFF_FFFF_FFFFu128) as u64;
        spec_rotr64(high ^ low, (self.state >> 122u32) as u32)
    }

    /// The source that a seed stands for.
    pub open spec fn spec_from_seed(seed: u64) -> RoughRng {
        let (q0, s0) = spec_seed_pair(seed);
        let (q1, s1) = spec_seed_pair(s0);
        let (q2, s2) = spec_seed_pair(s1);
        let (q3, s3) = spec_seed_pair(s2);
        let state = (q0 as u128) | ((q1 as u128) << 64u32);
        let increment = ((q2 as u128) | ((q3 as u128) << 64u32)) | 1u128;
        (RoughRng { state: state.wrapping_add(increment), increment }).spec_step()
    }

    /// The next raw output and the source after it.
    pub open spec fn spec_next(self) -> (u64, RoughRng) {
        (self.spec_step().spec_output(), self.spec_step())
    }

    /// The next draw below `n` and the source after it.
    #[verifier::opaque]
    pub open spec fn spec_below(self, n: int) -> (int, RoughRng) {
        (self.spec_step().spec_output() as int % n, self.spec_step())
    }

    /// The next draw from `[-amplitude, amplitude]` and the source after it.
    #[verifier::opaque]
    pub open spec fn spec_symmetric(self, amplitude: int) -> (int, RoughRng) {
        (self.spec_step().spec_output() as int % (2 * amplitude + 1) - amplitude, self.spec_step())
    }

    /// The source after `n` steps.
    pub open spec fn spec_skip(self, n: nat) -> RoughRng
        decreases n,
    {
        if n == 0 {
            self
        } else {
            self.spec_step().spec_skip((n - 1) as nat)
        }
    }

    /// Builds the source that `seed` stands for.
    pub fn from_seed(seed: u64) -> (rng: RoughRng)
        ensures
            rng == Self::spec_from_seed(seed),
    {
        let (q0, s0) = seed_pair(seed);
        let (q1, s1) = seed_pair(s0);
        let (q2, s2) = seed_pair(s1);
        let (q3, s3) = seed_pair(s2);
        let state: u128 = (q0 as u128) | ((q1 as u128) << 64u32);
        let increment: u128 = ((q2 as u128) | ((q3 as u128) << 64u32)) | 1u128;
        let mut rng = RoughRng { state: state.wrapping_add(increment), increment };
        rng.step();
        rng
    }

    /// Advances the source by one step.
    fn step(&mut self)
        ensures
            *final(self) == old(self).spec_step(),
    {
        self.state = self.state.wrapping_mul(STEP_MULTIPLIER).wrapping_add(self.increment);
    }

    /// Draws the next 64 bits.
    pub fn next_u64(&mut self) -> (r: u64)
        ensures
            r == old(self).spec_next().0,
            *final(self) == old(self).spec_next().1,
    {
        self.step();
        let state: u128 = self.state;
        let shifted: u128 = state >> 64u32;
        let masked: u128 = state & 0xFFFF_FFFF_FFFF_FFFFu128;
        let top: u128 = state >> 122u32;
        assert(shifted <= 0xFFFF_FFFF_FFFF_FFFFu128) by (bit_vector)
            requires
                shifted == state >> 64u32,
        ;
        assert(masked <= 0xFFFF_FFFF_FFFF_FFFFu128) by (bit_vector)
            requires
                masked == state & 0xFFFF_FFFF_FFFF_FFFFu128,
        ;
        assert(top < 64u128) by (bit_vector)
            requires
                top == state >> 122u32,
        ;
        rotr64((shifted as u64) ^ (masked as u64), top as u32)
    }

    /// Draws a number below `n`.
    pub fn below(&mut self, n: u64) -> (r: u64)
        requires
            n > 0,
        ensures
            r == old(self).spec_below(n as int).0,
            *final(self) == old(self).spec_below(n as int).1,
            r < n,
    {
        proof {
            reveal(RoughRng::spec_below);
        }
        let raw: u64 = self.next_u64();
        raw % n
    }

    /// Draws a number from `[-amplitude, amplitude]`.
    pub fn symmetric(&mut self, amplitude: i64) -> (r: i64)
        requires
            0 <= amplitude <= AMPLITUDE_MAX,
        ensures
            r == old(self).spec_symmetric(amplitude as int).0,
            *final(self) == old(self).spec_symmetric(amplitude as int).1,
            -amplitude <= r <= amplitude,
    {
        proof {
            reveal(RoughRng::spec_symmetric);
        }
        let span: u64 = (2 * amplitude + 1) as u64;
        let raw: u64 = self.next_u64();
        let pick: u64 = raw % span;
        (pick as i64) - amplitude
    }
}

/// `x` rotated right by `r` bits.
fn rotr64(x: u64, r: u32) -> (out: u64)
    requires
        r < 64,
    ensures
        out == spec_rotr64(x, r),
{
    if r == 0 {
        x
    } else {
        (x >> r) | (x << (64 - r))
    }
}

/// `x` rotated right by `r` bits.
fn rotr32(x: u32, r: u32) -> (out: u32)
    requires
        r < 32,
    ensures
        out == spec_rotr32(x, r),
{
    if r == 0 {
        x
    } else {
        (x >> r) | (x << (32 - r))
    }
}

/// One step of the seed generator.
fn seed_step(s: u64) -> (out: u64)
    ensures
        out == spec_seed_step(s),
{
    s.wrapping_mul(SEED_MULTIPLIER).wrapping_add(SEED_INCREMENT)
}

/// The 32 bits that the seed generator gives out in state `s`.
fn seed_word(s: u64) -> (out: u32)
    ensures
        out == spec_seed_word(s),
{
    let mixed: u64 = (((s >> 18u32) ^ s) >> 27u32) & 0xFFFF_FFFFu64;
    let top: u64 = s >> 59u32;
    assert(mixed <= 0xFFFF_FFFFu64) by (bit_vector)
        requires
            mixed == (((s >> 18u32) ^ s) >> 27u32) & 0xFFFF_FFFFu64,
    ;
    assert(top < 32u64) by (bit_vector)
        requires
            top == s >> 59u32,
    ;
    rotr32(mixed as u32, top as u32)
}

/// Two steps of the seed generator: the 64 bits given out and the state reached.
fn seed_pair(s: u64) -> (out: (u64, u64))
    ensures
        out == spec_seed_pair(s),
{
    let s1: u64 = seed_step(s);
    let s2: u64 = seed_step(s1);
    let low: u32 = seed_word(s1);
    let high: u32 = seed_word(s2);
    ((low as u64) | ((high as u64) << 32u32), s2)
}

/// Makes the random source of one draw call: the one that `seed` stands for,
/// or, where no seed is set, the one that `entropy` stands for. The caller
/// takes `entropy` from the clock or the operating system.
pub fn new_rng(seed: Option<u64>, entropy: u64) -> (rng: RoughRng)
    ensures
        rng == spec_new_rng(seed, entropy),
{
    match seed {
        Some(s) => RoughRng::from_seed(s),
        None => RoughRng::from_seed(entropy),
    }
}

/// The random source of a draw call with the given seed and entropy.
pub open spec fn spec_new_rng(seed: Option<u64>, entropy: u64) -> RoughRng {
    match seed {
        Some(s) => RoughRng::spec_from_seed(s),
        None => RoughRng::spec_from_seed(entropy),
    }
}

/// A draw below `n` is a number from 0 up to, not including, `n`, and takes
/// one step of the source.
pub proof fn lemma_below_range(rng: RoughRng, n: int)
    requires
        0 < n,
    ensures
        0 <= rng.spec_below(n).0 < n,
        rng.spec_below(n).1 == rng.spec_step(),
{
    reveal(RoughRng::spec_below);
}

/// A draw from `[-amplitude, amplitude]` lies in that range and takes one
/// step of the source.
pub proof fn lemma_symmetric_range(rng: RoughRng, amplitude: int)
    requires
        0 <= amplitude,
    ensures
        -amplitude <= rng.spec_symmetric(amplitude).0 <= amplitude,
        amplitude == 0 ==> rng.spec_symmetric(amplitude).0 == 0,
        rng.spec_symmetric(amplitude).1 == rng.spec_step(),
{
    reveal(RoughRng::spec_symmetric);
}

/// A seeded source does not depend on the entropy that the caller supplies.
pub proof fn lemma_seeded_rng_ignores_entropy(seed: u64, first: u64, second: u64)
    ensures
        spec_new_rng(Some(seed), first) == spec_new_rng(Some(seed), second),
{
}

} // verus!
