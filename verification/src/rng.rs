//! A small generator of pseudo-random numbers. The game draws from it for
//! particle jitter and power-up drops, so that a game is a function of its
//! seed and its inputs.

use vstd::prelude::*;

verus! {

/// What a state is multiplied by in a step.
pub const MULTIPLIER: u64 = 6364136223846793005;

/// What is added to the product in a step.
pub const INCREMENT: u64 = 1442695040888963407;

/// The state that follows `state`: one step of a linear congruential
/// sequence modulo 2^64.
pub open spec fn next_state(state: u64) -> u64 {
    ((state as int * MULTIPLIER as int + INCREMENT as int) % 0x1_0000_0000_0000_0000) as u64
}

/// The number drawn from a state: its upper 31 bits.
pub open spec fn output_of(state: u64) -> u32 {
    (state as int / 0x2_0000_0000) as u32
}

/// A generator of pseudo-random numbers.
#[derive(Clone, Copy, Debug, PartialEq, Eq, Structural)]
pub struct Rng {
    pub state: u64,
}

impl Rng {
    /// A generator that starts from `seed`.
    pub fn new(seed: u64) -> (rng: Rng)
        ensures
            rng.state == seed,
    {
        Rng { state: seed }
    }

    /// Steps the generator and draws a number below 2^31 from the new state.
    pub fn next(&mut self) -> (drawn: u32)
        ensures
            final(self).state == next_state(old(self).state),
            drawn == output_of(final(self).state),
            drawn < 0x8000_0000,
    {
        let state: u64 = self.state;
        assert(state as int * MULTIPLIER as int <= 0xFFFF_FFFF_FFFF_FFFF * 0xFFFF_FFFF_FFFF_FFFF)
            by (nonlinear_arith)
            requires
                0 <= state <= 0xFFFF_FFFF_FFFF_FFFF,
                0 <= MULTIPLIER <= 0xFFFF_FFFF_FFFF_FFFF,
        ;
        let wide: u128 = state as u128 * MULTIPLIER as u128 + INCREMENT as u128;
        let stepped: u64 = (wide % 0x1_0000_0000_0000_0000) as u64;
        self.state = stepped;
        assert(stepped >> 33 == stepped / 0x2_0000_0000) by (bit_vector);
        assert(stepped >> 33 < 0x8000_0000) by (bit_vector);
        (stepped >> 33) as u32
    }
}

} // verus!
