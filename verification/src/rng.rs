//! The seeded pseudo-random source behind every generator.
//!
//! One 64-bit seed drives the whole run; the stream is a pure function of
//! that seed, so two runs with the same seed and configuration emit the
//! same geometry down to the last point.

use vstd::prelude::*;

verus! {

use crate::trig::TURN;

/// Per-step increment of the generator state (the 64-bit golden ratio).
pub const RNG_GAMMA: u64 = 0x9E37_79B9_7F4A_7C15;

pub const RNG_MIX_A: u64 = 0xBF58_476D_1CE4_E5B9;

pub const RNG_MIX_B: u64 = 0x94D0_49BB_1331_11EB;

/// The state after one draw.
pub open spec fn rng_next_state(s: u64) -> u64 {
    vstd::wrapping::u64_specs::wrapping_add(s, RNG_GAMMA)
}

/// The value mixed out of a state.
pub open spec fn rng_output(s: u64) -> u64 {
    let z0 = vstd::wrapping::u64_specs::wrapping_mul(s ^ (s >> 30u64), RNG_MIX_A);
    let z1 = vstd::wrapping::u64_specs::wrapping_mul(z0 ^ (z0 >> 27u64), RNG_MIX_B);
    z1 ^ (z1 >> 31u64)
}

/// The state after `k` draws.
pub open spec fn rng_state_after(s: u64, k: nat) -> u64
    decreases k,
{
    if k == 0 {
        s
    } else {
        rng_next_state(rng_state_after(s, (k - 1) as nat))
    }
}

/// A deterministic splittable-mix pseudo-random generator.
pub struct SpinRng {
    state: u64,
}

impl SpinRng {
    pub closed spec fn view(&self) -> u64 {
        self.state
    }

    /// Starts the stream that belongs to `seed`.
    pub fn new(seed: u64) -> (r: SpinRng)
        ensures
            r@ == seed,
    {
        SpinRng { state: seed }
    }

    /// Draws the next 64-bit value; state and value are pure functions
    /// of the old state.
    pub fn next_u64(&mut self) -> (r: u64)
        ensures
            final(self)@ == rng_next_state(old(self)@),
            r == rng_output(rng_next_state(old(self)@)),
    {
        self.state = self.state.wrapping_add(RNG_GAMMA);
        let s: u64 = self.state;
        let z0: u64 = (s ^ (s >> 30u64)).wrapping_mul(RNG_MIX_A);
        let z1: u64 = (z0 ^ (z0 >> 27u64)).wrapping_mul(RNG_MIX_B);
        z1 ^ (z1 >> 31u64)
    }

    /// Draws an angle, uniformly over the angle units of one turn.
    pub fn next_angle(&mut self) -> (r: u64)
        ensures
            final(self)@ == rng_next_state(old(self)@),
            r == rng_output(rng_next_state(old(self)@)) % TURN,
            r < TURN,
    {
        let v: u64 = self.next_u64();
        v % TURN
    }

    /// Draws a value below `bound`.
    pub fn next_below(&mut self, bound: u64) -> (r: u64)
        requires
            bound > 0,
        ensures
            final(self)@ == rng_next_state(old(self)@),
            r == rng_output(rng_next_state(old(self)@)) % bound,
            r < bound,
    {
        let v: u64 = self.next_u64();
        v % bound
    }
}

/// Relies on rand::random::<u64>: a seed drawn from the platform's
/// generator at process start. The value depends on the platform's
/// entropy, so nothing is promised of it.
#[verifier::external_body]
fn random_seed() -> u64 {
    rand::random()
}

/// The run's seed: the supplied one, or a fresh draw from the platform
/// where none was supplied.
pub fn seed_or_fresh(supplied: Option<u64>) -> (r: u64)
    ensures
        supplied is Some ==> r == supplied->0,
{
    match supplied {
        Some(s) => s,
        None => random_seed(),
    }
}

} // verus!
