//! Pseudo-random number generation for oscillator phase jitter.
//!
//! The generator is a xoroshiro128+ step over two 64-bit words; the exec
//! code is proved to follow `spec_xoroshiro_*` bit for bit.

use vstd::prelude::*;

verus! {

/// Left rotation of a 64-bit word, written out with shifts.
pub open spec fn spec_rotl64(x: u64, k: u64) -> u64
    recommends 0 < k < 64,
{
    (x << k) | (x >> ((64 - k) as u64))
}

/// The sum the step returns: the two state words, wrapping.
pub open spec fn spec_xoroshiro_result(s0: u64, s1: u64) -> u64 {
    ((s0 + s1) % 0x1_0000_0000_0000_0000) as u64
}

/// The new first state word.
pub open spec fn spec_xoroshiro_s0(s0: u64, s1: u64) -> u64 {
    spec_rotl64(s0, 55) ^ (s1 ^ s0) ^ ((s1 ^ s0) << 14)
}

/// The new second state word.
pub open spec fn spec_xoroshiro_s1(s0: u64, s1: u64) -> u64 {
    spec_rotl64(s1 ^ s0, 36)
}

/// One xoroshiro128+ step: returns the sum of the state words and rotates
/// the state, exactly as the published algorithm does.
pub fn next_xoroshiro128(state: &mut [u64; 2]) -> (r: u64)
    ensures
        r == spec_xoroshiro_result(old(state)[0], old(state)[1]),
        final(state)[0] == spec_xoroshiro_s0(old(state)[0], old(state)[1]),
        final(state)[1] == spec_xoroshiro_s1(old(state)[0], old(state)[1]),
{
    let s0: u64 = state[0];
    let mut s1: u64 = state[1];
    let result: u64 = s0.wrapping_add(s1);

    s1 = s1 ^ s0;
    state[0] = ((s0 << 55u64) | (s0 >> 9u64)) ^ s1 ^ (s1 << 14u64);
    state[1] = (s1 << 36u64) | (s1 >> 28u64);

    result
}

/// Seconds since the Unix epoch, used only to scatter RNG seeds.
///
/// Relies on `std::time::SystemTime::now` and `duration_since`: the value
/// depends on the wall clock, so nothing is promised of it; a clock before
/// the epoch yields 0.
#[verifier::external_body]
pub fn some_now_timestamp() -> u64 {
    std::time::SystemTime::now()
        .duration_since(std::time::SystemTime::UNIX_EPOCH)
        .map(|d| d.as_secs())
        .unwrap_or(0)
}

/// A self-contained xoroshiro128+ generator.
#[derive(Debug, Copy, Clone, PartialEq)]
pub struct RandGen {
    pub r: [u64; 2],
}

impl RandGen {
    /// A generator with a fixed default seed.
    pub fn new() -> (s: Self)
        ensures
            s.r[0] == 0x193a6754a8a7d469u64,
            s.r[1] == 0x97830e05113ba7bbu64,
    {
        RandGen { r: [0x193a6754a8a7d469, 0x97830e05113ba7bb] }
    }

    /// A generator whose seed words are scattered by the wall clock.
    /// The resulting state is as unpredictable as the clock; nothing more
    /// is stated of it.
    pub fn new_with_time() -> Self {
        let mut s = Self::new();
        let t0 = some_now_timestamp();
        let t1 = some_now_timestamp();
        s.r[0] = s.r[0].wrapping_add(t0);
        s.r[1] = s.r[1].wrapping_add(t1);
        s
    }

    /// One generator step; the state advances by the xoroshiro128+ rule.
    pub fn next(&mut self) -> (r: u64)
        ensures
            r == spec_xoroshiro_result(old(self).r[0], old(self).r[1]),
            final(self).r[0] == spec_xoroshiro_s0(old(self).r[0], old(self).r[1]),
            final(self).r[1] == spec_xoroshiro_s1(old(self).r[0], old(self).r[1]),
    {
        next_xoroshiro128(&mut self.r)
    }
}

} // verus!
