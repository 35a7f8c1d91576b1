//! Pseudo-random number generator
//!
//! This module provides a pseudo-random number generator (PRNG) based on the
//! Xorshift32 algorithm by George Marsaglia.
//!
//! See: https://en.wikipedia.org/wiki/Xorshift
use vstd::prelude::*;

verus! {

/// The state that follows a state of the generator.
pub open spec fn xorshift(x: u32) -> u32 {
    let a = x ^ (x << 13);
    let b = a ^ (a >> 17);
    b ^ (b << 5)
}

/// Xorshift32 PRNG
pub struct XorShift32 {
    pub state: u32,
}

impl XorShift32 {
    /// Create a new XorShift32 PRNG
    pub fn new(seed: u32) -> (prng: Self)
        ensures
            prng.state == seed,
    {
        Self { state: seed }
    }

    /// Seed the PRNG
    pub fn seed(&mut self, seed: u32)
        ensures
            final(self).state == seed,
    {
        self.state = seed;
    }

    /// Get the current state
    pub fn get_state(&self) -> (state: u32)
        ensures
            state == self.state,
    {
        self.state
    }

    /// Get the next random number
    pub fn random(&mut self) -> (x: u32)
        ensures
            x == xorshift(old(self).state),
            final(self).state == x,
    {
        let mut x: u32 = self.state;
        x = x ^ (x << 13);
        x = x ^ (x >> 17);
        x = x ^ (x << 5);
        self.state = x;
        x
    }
}

/// Two different states never lead to the same one, so that the sequence of numbers
/// comes back to its seed.
pub proof fn law_xorshift_injective(x: u32, y: u32)
    ensures
        xorshift(x) == xorshift(y) ==> x == y,
{
    let (x1, y1) = (x ^ (x << 13), y ^ (y << 13));
    let (x2, y2) = (x1 ^ (x1 >> 17), y1 ^ (y1 >> 17));
    assert(x ^ (x << 13) == y ^ (y << 13) ==> x == y) by (bit_vector);
    assert(x1 ^ (x1 >> 17) == y1 ^ (y1 >> 17) ==> x1 == y1) by (bit_vector);
    assert(x2 ^ (x2 << 5) == y2 ^ (y2 << 5) ==> x2 == y2) by (bit_vector);
}

/// A generator gets stuck at zero only if its seed is zero.
pub proof fn law_xorshift_leaves_zero_alone(x: u32)
    ensures
        xorshift(x) == 0 <==> x == 0,
{
    assert(xorshift(0) == 0) by (bit_vector);
    law_xorshift_injective(x, 0);
}

/// The state before, got back from the one after by undoing the three shifts, the last one
/// first.
pub open spec fn undone(y: u32) -> u32 {
    let b = y ^ (y << 5) ^ (y << 10) ^ (y << 15) ^ (y << 20) ^ (y << 25) ^ (y << 30);
    let a = b ^ (b >> 17);
    a ^ (a << 13) ^ (a << 26)
}

/// Each number comes from the one before by the shifts of Xorshift32, and is the state that
/// the next one comes from: undoing the shifts gives the state before.
pub proof fn law_random_can_be_undone(prng: &mut XorShift32, x: u32)
    requires
        call_ensures(XorShift32::random, (prng,), x),
    ensures
        undone(x) == old(prng).state,
        final(prng).state == x,
{
    let s = old(prng).state;
    assert(undone(xorshift(s)) == s) by (bit_vector);
}

/// The seed is the state that the numbers start from.
pub proof fn law_seed_is_the_state(
    seed: u32,
    prng: XorShift32,
    state: u32,
    reseeded: &mut XorShift32,
)
    requires
        call_ensures(XorShift32::new, (seed,), prng),
        call_ensures(XorShift32::get_state, (&prng,), state),
        call_ensures(XorShift32::seed, (reseeded, seed), ()),
    ensures
        state == seed,
        final(reseeded).state == prng.state,
{
}

} // verus!
