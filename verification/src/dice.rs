//! The world's dice: SplitMix64, so that a world can be replayed from a seed.
use vstd::prelude::*;

verus! {

/// What each roll adds to the state: the golden-ratio step of SplitMix64.
pub const GOLDEN_GAMMA: u64 = 0x9E37_79B9_7F4A_7C15;

/// How many of the mixed word's bits a roll keeps: the top 24, which is as many as an `f32`
/// between 0 and 1 can hold exactly.
pub const ROLL_BITS: u64 = 24;

/// The state after one more roll.
pub open spec fn next_state(state: u64) -> u64 {
    vstd::wrapping::u64_specs::wrapping_add(state, GOLDEN_GAMMA)
}

/// SplitMix64's finaliser: two multiply-xorshift rounds and a last xorshift.
pub open spec fn mix(z: u64) -> u64 {
    let a = vstd::wrapping::u64_specs::wrapping_mul(z ^ (z >> 30u64), 0xBF58_476D_1CE4_E5B9u64);
    let b = vstd::wrapping::u64_specs::wrapping_mul(a ^ (a >> 27u64), 0x94D0_49BB_1331_11EBu64);
    b ^ (b >> 31u64)
}

/// What a roll from this state shows: the top 24 bits of the mixed next state.
pub open spec fn roll_of(state: u64) -> u32 {
    (mix(next_state(state)) >> 40u64) as u32
}

/// The world's dice. The state is the whole of them: two dice with the same state roll the same
/// numbers for ever.
pub struct Dice(pub u64);

impl Dice {
    /// **One roll**, as the 24 bits the game divides by 2²⁴ to get a number in `0..1`.
    pub fn roll_bits(&mut self) -> (r: u32)
        ensures
            final(self).0 == next_state(old(self).0),
            r == roll_of(old(self).0),
            r < 0x100_0000,
    {
        self.0 = self.0.wrapping_add(GOLDEN_GAMMA);
        let mut z = self.0;
        z = (z ^ (z >> 30)).wrapping_mul(0xBF58_476D_1CE4_E5B9);
        z = (z ^ (z >> 27)).wrapping_mul(0x94D0_49BB_1331_11EB);
        z = z ^ (z >> 31);
        let top = z >> 40;
        assert(top < 0x100_0000) by (bit_vector)
            requires
                top == z >> 40u64,
        ;
        top as u32
    }
}

} // verus!
