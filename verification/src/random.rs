//! A xorshift generator of pseudo-random numbers.

use vstd::prelude::*;
use crate::server::unix_time_nanos;

verus! {

/// One step of xorshift64 with shifts 13, 7 and 17.
pub open spec fn xorshift_step(s: u64) -> u64 {
    let a = s ^ (s << 13u64);
    let b = a ^ (a >> 7u64);
    b ^ (b << 17u64)
}

/// The state a seed gives: the seed plus 0x9E3779B97F4A7C15, in 64 bits.
pub open spec fn seed_state(seed: u128) -> u64 {
    ((seed + 0x9E3779B97F4A7C15) % 0x1_0000_0000_0000_0000) as u64
}

/// A xorshift64 generator.
pub struct XorShift {
    state: u64,
}

impl View for XorShift {
    type V = u64;

    closed spec fn view(&self) -> u64 {
        self.state
    }
}

impl XorShift {
    /// A generator seeded with the current time in nanoseconds.
    pub fn new() -> (g: Self)
        ensures
            exists|nanos: u128| g@ == seed_state(nanos),
    {
        XorShift::from_seed(unix_time_nanos())
    }

    /// A generator seeded with `seed`.
    pub fn from_seed(seed: u128) -> (g: Self)
        ensures
            g@ == seed_state(seed),
    {
        let w = seed.wrapping_add(0x9E3779B97F4A7C15);
        proof {
            if seed + 0x9E3779B97F4A7C15 > u128::MAX {
                vstd::arithmetic::div_mod::lemma_mod_multiples_vanish(
                    -0x1_0000_0000_0000_0000int,
                    seed + 0x9E3779B97F4A7C15,
                    0x1_0000_0000_0000_0000int,
                );
            }
        }
        XorShift { state: (w % 0x1_0000_0000_0000_0000) as u64 }
    }

    /// The next number: the state after one step.
    pub fn next(&mut self) -> (r: u64)
        ensures
            r == xorshift_step(old(self)@),
            final(self)@ == r,
    {
        self.state = self.state ^ (self.state << 13u64);
        self.state = self.state ^ (self.state >> 7u64);
        self.state = self.state ^ (self.state << 17u64);
        self.state
    }

    /// A number from `min` to `max`: `min` plus the next number modulo the
    /// size of the range, all in wrapping 64-bit arithmetic; `min` itself,
    /// drawing nothing, when the range covers every `u64`.
    pub fn random_in_range(&mut self, min: u64, max: u64) -> (r: u64)
        ensures
            ({
                let range = ((max - min + 1) % 0x1_0000_0000_0000_0000) as u64;
                if range == 0 {
                    r == min && final(self)@ == old(self)@
                } else {
                    &&& final(self)@ == xorshift_step(old(self)@)
                    &&& r == ((min + xorshift_step(old(self)@) % range) % 0x1_0000_0000_0000_0000) as u64
                }
            }),
    {
        let range = max.wrapping_sub(min).wrapping_add(1);
        if range == 0 {
            return min;
        }
        min.wrapping_add(self.next() % range)
    }
}

} // verus!
