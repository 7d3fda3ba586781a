//! Deterministic draw source for weighted selection and think-time pacing.
//!
//! A linear congruential generator: runs are reproducible from their seed,
//! which keeps bounded-concurrency traffic generation repeatable.

use vstd::prelude::*;

verus! {

/// Multiplier of the linear congruential step.
pub const LCG_MUL: u64 = 6364136223846793005;

/// Increment of the linear congruential step.
pub const LCG_INC: u64 = 1442695040888963407;

/// The successor state of the generator.
pub open spec fn lcg_next(s: u64) -> int {
    (s * LCG_MUL + LCG_INC) % 0x1_0000_0000_0000_0000
}

/// Stream of pseudo-random draws, reproducible from its seed.
pub struct DrawSource {
    pub state: u64,
}

impl DrawSource {
    pub fn new(seed: u64) -> (r: DrawSource)
        ensures
            r.state == seed,
    {
        DrawSource { state: seed }
    }

    /// Advances the generator and returns the new state as the draw.
    pub fn draw(&mut self) -> (d: u64)
        ensures
            final(self).state == lcg_next(old(self).state),
            d == final(self).state,
    {
        proof {
            let m = 0xffff_ffff_ffff_ffffint;
            assert((self.state as int) * (LCG_MUL as int) + (LCG_INC as int)
                < 0x1_0000_0000_0000_0000_0000_0000_0000_0000int) by (nonlinear_arith)
                requires
                    0 <= self.state as int <= m,
                    LCG_MUL as int <= m,
                    LCG_INC as int <= m,
                    m == 0xffff_ffff_ffff_ffffint,
                ;
        }
        let wide: u128 = (self.state as u128) * (LCG_MUL as u128) + (LCG_INC as u128);
        let next = (wide % 0x1_0000_0000_0000_0000u128) as u64;
        self.state = next;
        next
    }
}

} // verus!
