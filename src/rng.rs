use vstd::prelude::*;

verus! {

/// Multiplier of the 64-bit linear congruential generator.
pub const LCG_MULTIPLIER: u64 = 6364136223846793005;

/// Increment of the 64-bit linear congruential generator.
pub const LCG_INCREMENT: u64 = 1442695040888963407;

/// One step of the generator: `s * LCG_MULTIPLIER + LCG_INCREMENT` modulo 2^64.
pub open spec fn lcg_step(s: u64) -> u64 {
    vstd::wrapping::u64_specs::wrapping_add(
        vstd::wrapping::u64_specs::wrapping_mul(s, LCG_MULTIPLIER),
        LCG_INCREMENT,
    )
}

/// The value a draw below `n` yields once the state has advanced to `s`:
/// the high half of the state, reduced modulo `n`.
pub open spec fn draw_from(s: u64, n: u64) -> u64
    recommends
        n > 0,
{
    ((s as nat / 0x1_0000_0000) % (n as nat)) as u64
}

/// A seeded, fully reproducible source of pseudo-random draws.
#[derive(Clone, Copy, Debug, PartialEq, Eq, Structural)]
pub struct QuizRng {
    pub state: u64,
}

impl QuizRng {
    pub fn from_seed(seed: u64) -> (r: QuizRng)
        ensures
            r.state == seed,
    {
        QuizRng { state: seed }
    }

    /// Advances the generator and returns a value in `[0, n)`.
    pub fn below(&mut self, n: u64) -> (r: u64)
        requires
            n > 0,
        ensures
            final(self).state == lcg_step(old(self).state),
            r == draw_from(final(self).state, n),
            r < n,
    {
        self.state = self.state.wrapping_mul(LCG_MULTIPLIER).wrapping_add(LCG_INCREMENT);
        let high: u64 = self.state / 0x1_0000_0000;
        high % n
    }
}

} // verus!
