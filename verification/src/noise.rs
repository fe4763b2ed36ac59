use vstd::prelude::*;

verus! {

/// Seed of the noise generator used for the built-in drum break.
pub const NOISE_SEED: u32 = 0x9e37_79b9;

/// One xorshift step (shifts 13, 17, 5) on a 32-bit state.
pub open spec fn xorshift32(s: u32) -> u32 {
    let a = s ^ (s << 13u32);
    let b = a ^ (a >> 17u32);
    b ^ (b << 5u32)
}

/// Advances the noise generator's state by one xorshift step. A non-zero
/// state never becomes zero, so the generator never gets stuck.
pub fn next_noise_state(seed: u32) -> (r: u32)
    ensures
        r == xorshift32(seed),
        seed != 0 ==> r != 0,
{
    let a = seed ^ (seed << 13u32);
    let b = a ^ (a >> 17u32);
    let r = b ^ (b << 5u32);
    assert(seed != 0 ==> {
        let a = seed ^ (seed << 13u32);
        let b = a ^ (a >> 17u32);
        b ^ (b << 5u32) != 0
    }) by (bit_vector);
    r
}

} // verus!
