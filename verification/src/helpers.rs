//! Control-value mappings between normalized parameters and engine units.
//!
//! A normalized parameter runs over `[0, FP_ONE]` in fixed point, standing
//! for the real range [0, 1]; the mappings below convert such parameters to
//! frequencies, Q factors, unisono counts and the like, and back.  Each
//! forward/backward pair is an inverse of its partner: exactly where the
//! mapping is discrete, and within a few fixed-point counts where a square
//! root is involved.

use vstd::prelude::*;
use crate::parameters::FP_ONE;

verus! {

/// Clamps a fixed-point value into `[min, max]`.
pub fn clamp(f: i64, min: i64, max: i64) -> (r: i64)
    requires
        min <= max,
    ensures
        r == (if f < min { min } else if f > max { max } else { f }),
{
    if f < min {
        min
    } else if f > max {
        max
    } else {
        f
    }
}

/// Linear blend of two fixed-point values: `v1` at `mix == 0`, `v2` at
/// `mix == FP_ONE`.
pub fn mix(v1: i64, v2: i64, amount: i64) -> (r: i64)
    requires
        0 <= amount <= FP_ONE,
        0 <= v1 <= 0x10_0000_0000,
        0 <= v2 <= 0x10_0000_0000,
    ensures
        r == (v1 * (FP_ONE - amount)) / (FP_ONE as int) + (v2 * amount) / (FP_ONE as int),
{
    proof {
        assert(v1 * (FP_ONE - amount) <= 0x10_0000_0000i64 * FP_ONE && v1 * (FP_ONE - amount) >= 0)
            by (nonlinear_arith)
            requires 0 <= v1 <= 0x10_0000_0000i64, 0 <= FP_ONE - amount <= FP_ONE;
        assert(v2 * amount <= 0x10_0000_0000i64 * FP_ONE && v2 * amount >= 0) by (nonlinear_arith)
            requires 0 <= v2 <= 0x10_0000_0000i64, 0 <= amount <= FP_ONE;
    }
    v1 * (FP_ONE - amount) / FP_ONE + v2 * amount / FP_ONE
}

/// A value clamped into the normalized parameter range.
pub open spec fn spec_clamp01(v: int) -> int {
    if v < 0 {
        0
    } else if v > FP_ONE {
        FP_ONE as int
    } else {
        v
    }
}

/// Division rounded toward zero, the rounding the engine's signed
/// fixed-point products use.
pub open spec fn spec_tdiv(a: int, b: int) -> int
    recommends b > 0,
{
    if a >= 0 {
        a / b
    } else {
        -((-a) / b)
    }
}

/// Executable division rounded toward zero.
pub fn tdiv(a: i64, b: i64) -> (r: i64)
    requires
        b > 0,
        -0x4000_0000_0000_0000 < a < 0x4000_0000_0000_0000,
    ensures
        r == spec_tdiv(a as int, b as int),
{
    if a >= 0 {
        a / b
    } else {
        proof {
            vstd::arithmetic::div_mod::lemma_div_pos_is_pos(-a as int, b as int);
            vstd::arithmetic::div_mod::lemma_div_is_ordered_by_denominator(-a as int, 1, b as int);
            assert((-a as int) / (b as int) <= (-a as int) / 1);
        }
        -((-a) / b)
    }
}

/// The integer square root: the greatest `r` with `r * r <= n`.
pub fn isqrt(n: u64) -> (r: u64)
    ensures
        r * r <= n,
        n < (r + 1) * (r + 1),
{
    let mut lo: u64 = 0;
    let mut hi: u64 = 0x1_0000_0000;
    assert(n < 0x1_0000_0000 * 0x1_0000_0000);
    // Binary search keeping lo * lo <= n < hi * hi.
    while hi - lo > 1
        invariant
            lo < hi <= 0x1_0000_0000,
            lo * lo <= n,
            n < hi * hi,
        decreases hi - lo,
    {
        let mid: u64 = lo + (hi - lo) / 2;
        proof {
            assert(mid < hi);
            assert(mid * mid < 0x1_0000_0000u64 * 0x1_0000_0000u64) by (nonlinear_arith)
                requires mid < 0x1_0000_0000u64;
        }
        if mid * mid <= n {
            lo = mid;
        } else {
            hi = mid;
        }
    }
    assert(hi == lo + 1);
    lo
}

/// Whether `r` is the integer square root of `n`.
pub open spec fn is_isqrt(n: int, r: int) -> bool {
    0 <= r && r * r <= n && n < (r + 1) * (r + 1)
}

/// The integer square root as a mathematical function.
pub open spec fn spec_isqrt(n: int) -> int {
    choose|r: int| is_isqrt(n, r)
}

/// Every non-negative integer has an integer square root.
pub proof fn lemma_isqrt_exists(n: int)
    requires
        n >= 0,
    ensures
        is_isqrt(n, spec_isqrt(n)),
    decreases n,
{
    if n == 0 {
        assert(is_isqrt(0, 0));
    } else {
        lemma_isqrt_exists(n - 1);
        let s = spec_isqrt(n - 1);
        if n < (s + 1) * (s + 1) {
            assert(is_isqrt(n, s));
        } else {
            assert(is_isqrt(n, s + 1)) by (nonlinear_arith)
                requires
                    0 <= s, s * s <= n - 1, n - 1 < (s + 1) * (s + 1),
                    n >= (s + 1) * (s + 1);
        }
    }
}

/// Any witness of `is_isqrt` is the one value `spec_isqrt` denotes.
pub proof fn lemma_isqrt_unique(n: int, r: int)
    requires
        is_isqrt(n, r),
    ensures
        spec_isqrt(n) == r,
{
    assert(is_isqrt(n, spec_isqrt(n)));
    let s = spec_isqrt(n);
    assert(s == r) by (nonlinear_arith)
        requires
            0 <= r, r * r <= n, n < (r + 1) * (r + 1),
            0 <= s, s * s <= n, n < (s + 1) * (s + 1);
}

/// `isqrt` computed over fixed-point: the square root of `x / FP_ONE`,
/// itself in fixed point, rounded down.
pub fn fp_sqrt(x: i64) -> (r: i64)
    requires
        0 <= x < 0x1_0000_0000_0000,
    ensures
        r == spec_isqrt(x * FP_ONE),
        0 <= r,
        r * r <= x * FP_ONE,
{
    proof {
        assert(x * (FP_ONE as int) < 0x1_0000_0000_0000i64 * 0x1_0000i64) by (nonlinear_arith)
            requires 0 <= x < 0x1_0000_0000_0000i64;
    }
    let n: u64 = (x as u64) * (FP_ONE as u64);
    let r: u64 = isqrt(n);
    proof {
        lemma_isqrt_unique(n as int, r as int);
        assert(r * r <= n ==> r < 0x1_0000_0000u64) by (nonlinear_arith);
    }
    r as i64
}

/// True when a normalized parameter is at least one half.
pub fn param_to_boolean(value: i64) -> (b: bool)
    ensures
        b == (value >= FP_ONE / 2),
{
    value >= FP_ONE / 2
}

/// 1.0 for true, 0.0 for false.
pub fn boolean_to_param(b: bool) -> (v: i64)
    ensures
        v == (if b { FP_ONE as i64 } else { 0i64 }),
{
    if b { FP_ONE } else { 0 }
}

/// Booleans survive the round trip through their parameter encoding.
pub proof fn lemma_boolean_round_trip(b: bool)
    ensures
        ((if b { FP_ONE as int } else { 0 }) >= FP_ONE / 2) == b,
{
}

/// The filter cutoff a parameter selects: 20 Hz at 0, 20 kHz at 1, with a
/// square-law curve between them.
pub open spec fn spec_param_to_frequency(p: int) -> int {
    20 * FP_ONE + (19980 * p * p) / (FP_ONE as int)
}

/// The parameter that selects a given cutoff: the inverse square-law curve.
pub open spec fn spec_frequency_to_param(f: int) -> int {
    spec_isqrt(((f - 20 * FP_ONE) / 19980) * FP_ONE + ((f - 20 * FP_ONE) % 19980) * FP_ONE / 19980)
}

/// Maps a normalized parameter to a filter cutoff in fixed-point Hz.
pub fn param_to_frequency(param: i64) -> (f: i64)
    requires
        0 <= param <= FP_ONE,
    ensures
        f == spec_param_to_frequency(param as int),
        20 * FP_ONE <= f <= 20000 * FP_ONE,
{
    proof {
        assert(19980 * param * param <= 19980i64 * 0x1_0000i64 * 0x1_0000i64
            && 0 <= 19980 * param * param) by (nonlinear_arith)
            requires 0 <= param <= 0x1_0000i64;
        assert((19980 * param * param) / (FP_ONE as int) <= 19980i64 * FP_ONE) by (nonlinear_arith)
            requires 0 <= 19980 * param * param <= 19980i64 * 0x1_0000i64 * 0x1_0000i64;
    }
    20 * FP_ONE + 19980 * param * param / FP_ONE
}

/// Maps a filter cutoff in fixed-point Hz back to the parameter selecting
/// it.
pub fn frequency_to_param(freq: i64) -> (p: i64)
    requires
        20 * FP_ONE <= freq <= 20000 * FP_ONE,
    ensures
        p == spec_frequency_to_param(freq as int),
        0 <= p,
{
    let off: i64 = freq - 20 * FP_ONE;
    let q: i64 = off / 19980;
    let r: i64 = off % 19980;
    proof {
        assert(0 <= q <= FP_ONE && 0 <= r < 19980) by (nonlinear_arith)
            requires 0 <= off <= 19980i64 * FP_ONE, q == off / 19980, r == off % 19980;
        assert(q * FP_ONE <= 0x1_0000i64 * FP_ONE) by (nonlinear_arith)
            requires 0 <= q <= 0x1_0000i64;
        assert(0 <= r * FP_ONE < 19980i64 * FP_ONE) by (nonlinear_arith)
            requires 0 <= r < 19980;
    }
    let x: i64 = q * FP_ONE + r * FP_ONE / 19980;
    let root: u64 = isqrt(x as u64);
    proof {
        lemma_isqrt_unique(x as int, root as int);
        assert(root < 0x2_0000u64) by (nonlinear_arith)
            requires root * root <= 0x1_0001_0000u64;
    }
    root as i64
}

/// Mapping a parameter to a cutoff and back loses at most three
/// fixed-point counts (about 5e-5 of the full range), and never
/// overshoots.
pub proof fn lemma_frequency_round_trip(p: int)
    requires
        0 <= p <= FP_ONE,
    ensures
        p - 3 <= spec_frequency_to_param(spec_param_to_frequency(p)) <= p,
{
    let fp = FP_ONE as int;
    let a = (19980 * p * p) / fp;
    assert(spec_param_to_frequency(p) - 20 * fp == a);
    let q = a / 19980;
    let r = a % 19980;
    let x = q * fp + (r * fp) / 19980;

    assert(0 <= 19980 * p * p) by (nonlinear_arith)
        requires 0 <= p;
    vstd::arithmetic::div_mod::lemma_fundamental_div_mod(19980 * p * p, fp);
    vstd::arithmetic::div_mod::lemma_mod_bound(19980 * p * p, fp);
    vstd::arithmetic::div_mod::lemma_div_pos_is_pos(19980 * p * p, fp);
    vstd::arithmetic::div_mod::lemma_fundamental_div_mod(a, 19980);
    vstd::arithmetic::div_mod::lemma_mod_bound(a, 19980);
    vstd::arithmetic::div_mod::lemma_div_pos_is_pos(a, 19980);
    vstd::arithmetic::div_mod::lemma_fundamental_div_mod(r * fp, 19980);
    vstd::arithmetic::div_mod::lemma_mod_bound(r * fp, 19980);
    vstd::arithmetic::div_mod::lemma_div_pos_is_pos(r * fp, 19980);

    // x is the scaled offset, within five counts below p squared.
    assert(p * p - 5 <= x <= p * p) by (nonlinear_arith)
        requires
            fp == 0x1_0000,
            19980 * p * p == fp * a + (19980 * p * p) % fp,
            0 <= (19980 * p * p) % fp < fp,
            a == 19980 * q + r,
            0 <= r < 19980,
            0 <= q,
            0 <= a,
            r * fp == 19980 * ((r * fp) / 19980) + (r * fp) % 19980,
            0 <= (r * fp) % 19980 < 19980,
            x == q * fp + (r * fp) / 19980;

    lemma_isqrt_exists(x);
    let s = spec_isqrt(x);
    assert(p - 3 <= s <= p) by (nonlinear_arith)
        requires
            0 <= s, s * s <= x, x < (s + 1) * (s + 1),
            p * p - 5 <= x <= p * p,
            0 <= p;
    assert(spec_frequency_to_param(spec_param_to_frequency(p)) == s);
}

/// The filter Q a parameter selects: 0.33..1 over the lower half of the
/// range, 1..12 over the upper half.
pub open spec fn spec_param_to_q(p: int) -> int {
    if p < FP_ONE / 2 {
        (p * 67) / 50 + (33 * FP_ONE) / 100
    } else {
        (p - FP_ONE / 2) * 22 + FP_ONE
    }
}

/// The parameter that selects a given Q.
pub open spec fn spec_q_to_param(q: int) -> int {
    if q < FP_ONE {
        ((q - (33 * FP_ONE) / 100) * 50) / 67
    } else {
        (q - FP_ONE) / 22 + FP_ONE / 2
    }
}

/// Maps a normalized parameter to a filter Q factor.
pub fn param_to_q(param: i64) -> (q: i64)
    requires
        0 <= param <= FP_ONE,
    ensures
        q == spec_param_to_q(param as int),
        0 <= q <= 12 * FP_ONE,
{
    if param < FP_ONE / 2 {
        proof {
            assert(0 <= param * 67 <= 0x1_0000i64 * 67) by (nonlinear_arith)
                requires 0 <= param <= 0x1_0000i64;
        }
        param * 67 / 50 + 33 * FP_ONE / 100
    } else {
        (param - FP_ONE / 2) * 22 + FP_ONE
    }
}

/// Maps a filter Q factor back to the parameter selecting it.
pub fn q_to_param(q: i64) -> (p: i64)
    requires
        (33 * FP_ONE) / 100 <= q <= 12 * FP_ONE,
    ensures
        p == spec_q_to_param(q as int),
{
    if q < FP_ONE {
        (q - 33 * FP_ONE / 100) * 50 / 67
    } else {
        (q - FP_ONE) / 22 + FP_ONE / 2
    }
}

/// Mapping a parameter to a Q and back is exact over the upper half of the
/// range and loses at most one count over the lower half.
pub proof fn lemma_q_round_trip(p: int)
    requires
        0 <= p <= FP_ONE,
    ensures
        p - 1 <= spec_q_to_param(spec_param_to_q(p)) <= p,
        p >= FP_ONE / 2 ==> spec_q_to_param(spec_param_to_q(p)) == p,
{
    let fp = FP_ONE as int;
    if p < fp / 2 {
        let a = (p * 67) / 50;
        vstd::arithmetic::div_mod::lemma_fundamental_div_mod(p * 67, 50);
        vstd::arithmetic::div_mod::lemma_mod_bound(p * 67, 50);
        vstd::arithmetic::div_mod::lemma_div_pos_is_pos(p * 67, 50);
        assert(spec_param_to_q(p) == a + (33 * fp) / 100);
        assert(a + (33 * fp) / 100 < fp) by (nonlinear_arith)
            requires 0 <= p < fp / 2, fp == 0x1_0000, p * 67 == 50 * a + (p * 67) % 50,
                0 <= (p * 67) % 50 < 50;
        let rt = (a * 50) / 67;
        vstd::arithmetic::div_mod::lemma_fundamental_div_mod(a * 50, 67);
        vstd::arithmetic::div_mod::lemma_mod_bound(a * 50, 67);
        assert(p - 1 <= rt <= p) by (nonlinear_arith)
            requires
                p * 67 == 50 * a + (p * 67) % 50,
                0 <= (p * 67) % 50 < 50,
                0 <= a,
                rt == (a * 50) / 67,
                a * 50 == 67 * rt + (a * 50) % 67,
                0 <= (a * 50) % 67 < 67,
                0 <= p,
        ;
    } else {
        let q = (p - fp / 2) * 22 + fp;
        assert(q >= fp) by (nonlinear_arith)
            requires p >= fp / 2, q == (p - fp / 2) * 22 + fp;
        assert((q - fp) / 22 == p - fp / 2) by (nonlinear_arith)
            requires q == (p - fp / 2) * 22 + fp, p >= fp / 2;
    }
}

/// The decibel offset a parameter selects over a symmetric range: minus
/// the full range at 0, zero at one half, the full range at 1.
pub open spec fn spec_param_to_db(p: int, range: int) -> int {
    if 2 * p >= FP_ONE {
        ((2 * p - FP_ONE) * range) / (FP_ONE as int)
    } else {
        -(((FP_ONE - 2 * p) * range) / (FP_ONE as int))
    }
}

/// The parameter that selects a given decibel offset.
pub open spec fn spec_db_to_param(db: int, range: int) -> int {
    if db >= 0 {
        ((db * FP_ONE) / range + FP_ONE) / 2
    } else {
        (FP_ONE - ((-db) * FP_ONE) / range) / 2
    }
}

/// Maps a normalized parameter to a decibel offset in the given range.
pub fn param_to_db(param: i64, range: i64) -> (db: i64)
    requires
        0 <= param <= FP_ONE,
        0 < range <= 0x7FFF_FFFF,
    ensures
        db == spec_param_to_db(param as int, range as int),
        -range <= db <= range,
{
    if 2 * param >= FP_ONE {
        proof {
            assert(0 <= (2 * param - FP_ONE) * range <= 0x1_0000i64 * 0x7FFF_FFFFi64)
                by (nonlinear_arith)
                requires 0 <= 2 * param - FP_ONE <= FP_ONE, 0 < range <= 0x7FFF_FFFFi64,
                    FP_ONE == 0x1_0000i64;
            vstd::arithmetic::div_mod::lemma_div_pos_is_pos(
                (2 * param - FP_ONE) as int * range as int, FP_ONE as int);
            assert((2 * param - FP_ONE) as int * range as int <= range as int * (
                FP_ONE as int)) by (nonlinear_arith)
                requires 0 <= 2 * param - FP_ONE <= FP_ONE, 0 < range,
                    FP_ONE == 0x1_0000i64;
            lemma_tdiv_quotient_bound((2 * param - FP_ONE) as int * range as int,
                range as int, FP_ONE as int);
        }
        (2 * param - FP_ONE) * range / FP_ONE
    } else {
        proof {
            assert(0 <= (FP_ONE - 2 * param) * range <= 0x1_0000i64 * 0x7FFF_FFFFi64)
                by (nonlinear_arith)
                requires 0 < FP_ONE - 2 * param <= FP_ONE, 0 < range <= 0x7FFF_FFFFi64,
                    FP_ONE == 0x1_0000i64;
            vstd::arithmetic::div_mod::lemma_div_pos_is_pos(
                (FP_ONE - 2 * param) as int * range as int, FP_ONE as int);
            assert((FP_ONE - 2 * param) as int * range as int <= range as int * (
                FP_ONE as int)) by (nonlinear_arith)
                requires 0 < FP_ONE - 2 * param <= FP_ONE, 0 < range,
                    FP_ONE == 0x1_0000i64;
            lemma_tdiv_quotient_bound((FP_ONE - 2 * param) as int * range as int,
                range as int, FP_ONE as int);
        }
        -((FP_ONE - 2 * param) * range / FP_ONE)
    }
}

/// Maps a decibel offset back to the parameter selecting it.
pub fn db_to_param(db: i64, range: i64) -> (p: i64)
    requires
        0 < range <= 0x7FFF_FFFF,
        -range <= db <= range,
    ensures
        p == spec_db_to_param(db as int, range as int),
        0 <= p <= FP_ONE,
{
    if db >= 0 {
        proof {
            assert(0 <= db * FP_ONE <= 0x7FFF_FFFFi64 * 0x1_0000i64) by (nonlinear_arith)
                requires 0 <= db <= 0x7FFF_FFFFi64, FP_ONE == 0x1_0000i64;
            vstd::arithmetic::div_mod::lemma_div_pos_is_pos(
                db as int * FP_ONE as int, range as int);
            assert(db as int * FP_ONE as int <= FP_ONE as int * range as int)
                by (nonlinear_arith)
                requires 0 <= db <= range, FP_ONE == 0x1_0000i64;
            lemma_tdiv_quotient_bound(db as int * FP_ONE as int, FP_ONE as int, range as int);
        }
        (db * FP_ONE / range + FP_ONE) / 2
    } else {
        proof {
            assert(0 <= (-db) * FP_ONE <= 0x7FFF_FFFFi64 * 0x1_0000i64) by (nonlinear_arith)
                requires 0 < -db <= 0x7FFF_FFFFi64, FP_ONE == 0x1_0000i64;
            vstd::arithmetic::div_mod::lemma_div_pos_is_pos(
                (-db) as int * FP_ONE as int, range as int);
            assert((-db) as int * FP_ONE as int <= FP_ONE as int * range as int)
                by (nonlinear_arith)
                requires 0 < -db <= range, FP_ONE == 0x1_0000i64;
            lemma_tdiv_quotient_bound((-db) as int * FP_ONE as int, FP_ONE as int,
                range as int);
        }
        (FP_ONE - (-db) * FP_ONE / range) / 2
    }
}

/// Mapping a parameter to a decibel offset and back loses at most one
/// count, for any range of at least one whole unit.
pub proof fn lemma_db_round_trip(p: int, range: int)
    requires
        0 <= p <= FP_ONE,
        FP_ONE <= range <= 0x7FFF_FFFF,
    ensures
        p - 1 <= spec_db_to_param(spec_param_to_db(p, range), range) <= p,
{
    let fp = FP_ONE as int;
    if 2 * p >= fp {
        let a = (2 * p - fp) * range;
        let db = a / fp;
        vstd::arithmetic::div_mod::lemma_fundamental_div_mod(a, fp);
        vstd::arithmetic::div_mod::lemma_mod_bound(a, fp);
        assert(0 <= a) by (nonlinear_arith)
            requires 0 <= 2 * p - fp, 0 < range, a == (2 * p - fp) * range;
        vstd::arithmetic::div_mod::lemma_div_pos_is_pos(a, fp);
        let q = (db * fp) / range;
        vstd::arithmetic::div_mod::lemma_fundamental_div_mod(db * fp, range);
        vstd::arithmetic::div_mod::lemma_mod_bound(db * fp, range);
        vstd::arithmetic::div_mod::lemma_div_pos_is_pos(db * fp, range);
        assert(2 * p - fp - 1 <= q <= 2 * p - fp) by (nonlinear_arith)
            requires
                fp == 0x1_0000,
                fp <= range,
                a == (2 * p - fp) * range,
                a == fp * db + a % fp,
                0 <= a % fp < fp,
                db >= 0,
                db * fp == range * q + (db * fp) % range,
                0 <= (db * fp) % range < range,
                q >= 0;
        assert(spec_db_to_param(spec_param_to_db(p, range), range) == (q + fp) / 2);
    } else {
        let b = (fp - 2 * p) * range;
        let nb = b / fp;
        vstd::arithmetic::div_mod::lemma_fundamental_div_mod(b, fp);
        vstd::arithmetic::div_mod::lemma_mod_bound(b, fp);
        assert(p <= fp / 2 - 1);
        assert(2 <= fp - 2 * p);
        assert(2 * fp <= b) by (nonlinear_arith)
            requires 2 <= fp - 2 * p, fp <= range, fp == 0x1_0000,
                b == (fp - 2 * p) * range;
        vstd::arithmetic::div_mod::lemma_div_pos_is_pos(b, fp);
        assert(nb >= 1) by (nonlinear_arith)
            requires b >= 2 * fp, fp == 0x1_0000, b == fp * nb + b % fp, 0 <= b % fp < fp;
        let q = (nb * fp) / range;
        vstd::arithmetic::div_mod::lemma_fundamental_div_mod(nb * fp, range);
        vstd::arithmetic::div_mod::lemma_mod_bound(nb * fp, range);
        vstd::arithmetic::div_mod::lemma_div_pos_is_pos(nb * fp, range);
        assert(fp - 2 * p - 1 <= q <= fp - 2 * p) by (nonlinear_arith)
            requires
                fp == 0x1_0000,
                fp <= range,
                b == (fp - 2 * p) * range,
                b == fp * nb + b % fp,
                0 <= b % fp < fp,
                nb >= 1,
                nb * fp == range * q + (nb * fp) % range,
                0 <= (nb * fp) % range < range,
                q >= 0;
        assert(spec_param_to_db(p, range) == -nb);
        assert(spec_db_to_param(-nb, range) == (fp - q) / 2);
    }
}

/// A product bounded by `b * d` has a truncating quotient bounded by `b`.
pub proof fn lemma_tdiv_quotient_bound(a: int, b: int, d: int)
    requires
        d >= 1,
        0 <= b,
        -(b * d) <= a <= b * d,
    ensures
        a >= 0 ==> 0 <= a / d <= b,
{
    if a >= 0 {
        vstd::arithmetic::div_mod::lemma_div_pos_is_pos(a, d);
        vstd::arithmetic::div_mod::lemma_fundamental_div_mod(a, d);
        vstd::arithmetic::div_mod::lemma_mod_bound(a, d);
        assert(a / d <= b) by (nonlinear_arith)
            requires
                d >= 1, 0 <= b, a <= b * d,
                a == d * (a / d) + a % d,
                0 <= a % d < d,
                a / d >= 0;
    }
}

/// The resonance value a parameter selects: 0.01 at 0, 1.0 at 1.
pub open spec fn spec_param_to_resonance(p: int) -> int {
    (p * 99) / 100 + FP_ONE / 100
}

/// The parameter that selects a given resonance.
pub open spec fn spec_resonance_to_param(r: int) -> int {
    ((r - FP_ONE / 100) * 100) / 99
}

/// Maps a normalized parameter to a filter resonance.
pub fn param_to_resonance(param: i64) -> (r: i64)
    requires
        0 <= param <= FP_ONE,
    ensures
        r == spec_param_to_resonance(param as int),
        0 <= r <= FP_ONE,
{
    proof {
        assert(0 <= param * 99 <= 0x1_0000i64 * 99) by (nonlinear_arith)
            requires 0 <= param <= 0x1_0000i64;
    }
    param * 99 / 100 + FP_ONE / 100
}

/// Maps a filter resonance back to the parameter selecting it.
pub fn resonance_to_param(resonance: i64) -> (p: i64)
    requires
        FP_ONE / 100 <= resonance <= FP_ONE,
    ensures
        p == spec_resonance_to_param(resonance as int),
{
    (resonance - FP_ONE / 100) * 100 / 99
}

/// Mapping a parameter to a resonance and back loses at most one count.
pub proof fn lemma_resonance_round_trip(p: int)
    requires
        0 <= p <= FP_ONE,
    ensures
        p - 1 <= spec_resonance_to_param(spec_param_to_resonance(p)) <= p,
{
    let a = (p * 99) / 100;
    vstd::arithmetic::div_mod::lemma_fundamental_div_mod(p * 99, 100);
    vstd::arithmetic::div_mod::lemma_mod_bound(p * 99, 100);
    vstd::arithmetic::div_mod::lemma_div_pos_is_pos(p * 99, 100);
    vstd::arithmetic::div_mod::lemma_fundamental_div_mod(a * 100, 99);
    vstd::arithmetic::div_mod::lemma_mod_bound(a * 100, 99);
    assert(p - 1 <= (a * 100) / 99 <= p) by (nonlinear_arith)
        requires
            p * 99 == 100 * a + (p * 99) % 100,
            0 <= (p * 99) % 100 < 100,
            0 <= a,
            a * 100 == 99 * ((a * 100) / 99) + (a * 100) % 99,
            0 <= (a * 100) % 99 < 99,
            0 <= p,
    ;
}

/// How many unisono voices a parameter selects: 1 to 16.
pub open spec fn spec_param_to_unisono(p: int) -> int {
    (p * 15) / (FP_ONE as int) + 1
}

/// The smallest parameter that selects a given unisono count.
pub open spec fn spec_unisono_to_param(u: int) -> int {
    ((u - 1) * FP_ONE + 14) / 15
}

/// Maps a normalized parameter to a unisono voice count.
pub fn param_to_unisono(param: i64) -> (u: i64)
    requires
        0 <= param <= FP_ONE,
    ensures
        u == spec_param_to_unisono(param as int),
        1 <= u <= 16,
{
    proof {
        assert(0 <= param * 15 <= 0x1_0000i64 * 15) by (nonlinear_arith)
            requires 0 <= param <= 0x1_0000i64;
    }
    param * 15 / FP_ONE + 1
}

/// Maps a unisono voice count back to a parameter selecting it.
pub fn unisono_to_param(unisono: i64) -> (p: i64)
    requires
        1 <= unisono <= 16,
    ensures
        p == spec_unisono_to_param(unisono as int),
        0 <= p <= FP_ONE,
{
    ((unisono - 1) * FP_ONE + 14) / 15
}

/// A unisono count survives the round trip through its parameter exactly.
pub proof fn lemma_unisono_round_trip(u: int)
    requires
        1 <= u <= 16,
    ensures
        spec_param_to_unisono(spec_unisono_to_param(u)) == u,
{
    let fp = FP_ONE as int;
    let p = ((u - 1) * fp + 14) / 15;
    vstd::arithmetic::div_mod::lemma_fundamental_div_mod((u - 1) * fp + 14, 15);
    vstd::arithmetic::div_mod::lemma_mod_bound((u - 1) * fp + 14, 15);
    vstd::arithmetic::div_mod::lemma_fundamental_div_mod(p * 15, fp);
    vstd::arithmetic::div_mod::lemma_mod_bound(p * 15, fp);
    assert((p * 15) / fp == u - 1) by (nonlinear_arith)
        requires
            fp == 0x1_0000,
            1 <= u <= 16,
            (u - 1) * fp + 14 == 15 * p + ((u - 1) * fp + 14) % 15,
            0 <= ((u - 1) * fp + 14) % 15 < 15,
    ;
}

/// The vibrato rate a parameter selects, in fixed-point Hz: a square-law
/// curve from 7 Hz to 77 Hz.
pub open spec fn spec_param_to_vibrato_freq(p: int) -> int {
    (70 * p * p) / (FP_ONE as int) + 7 * FP_ONE
}

/// The parameter that selects a given vibrato rate; rates below the floor
/// of the curve map to zero.
pub open spec fn spec_vibrato_freq_to_param(vf: int) -> int {
    if vf >= 7 * FP_ONE {
        spec_isqrt(((vf - 7 * FP_ONE) * FP_ONE) / 70)
    } else {
        0
    }
}

/// Maps a normalized parameter to a vibrato rate.
pub fn param_to_vibrato_freq(param: i64) -> (vf: i64)
    requires
        0 <= param <= FP_ONE,
    ensures
        vf == spec_param_to_vibrato_freq(param as int),
        7 * FP_ONE <= vf <= 77 * FP_ONE,
{
    proof {
        assert(0 <= 70 * param * param <= 70i64 * 0x1_0000i64 * 0x1_0000i64) by (nonlinear_arith)
            requires 0 <= param <= 0x1_0000i64;
        assert((70 * param * param) / (FP_ONE as int) <= 70i64 * FP_ONE) by (nonlinear_arith)
            requires 0 <= 70 * param * param <= 70i64 * 0x1_0000i64 * 0x1_0000i64;
    }
    70 * param * param / FP_ONE + 7 * FP_ONE
}

/// Maps a vibrato rate back to the parameter selecting it.
pub fn vibrato_freq_to_param(vf: i64) -> (p: i64)
    requires
        0 <= vf <= 77 * FP_ONE,
    ensures
        p == spec_vibrato_freq_to_param(vf as int),
        0 <= p,
{
    if vf >= 7 * FP_ONE {
        let off: i64 = vf - 7 * FP_ONE;
        proof {
            assert(0 <= off * FP_ONE <= 70i64 * FP_ONE * FP_ONE) by (nonlinear_arith)
                requires 0 <= off <= 70i64 * 0x1_0000i64, FP_ONE == 0x1_0000i64;
        }
        let x: i64 = off * FP_ONE / 70;
        let root: u64 = isqrt(x as u64);
        proof {
            lemma_isqrt_unique(x as int, root as int);
            assert(root < 0x1_0000_0000u64) by (nonlinear_arith)
                requires root * root <= 0x4000_0000_0000u64;
        }
        root as i64
    } else {
        0
    }
}

/// Mapping a parameter to a vibrato rate and back loses at most one count,
/// once the parameter is clear of the quantization floor of the curve.
pub proof fn lemma_vibrato_round_trip(p: int)
    requires
        470 <= p <= FP_ONE,
    ensures
        p - 1 <= spec_vibrato_freq_to_param(spec_param_to_vibrato_freq(p)) <= p,
{
    let fp = FP_ONE as int;
    let a = (70 * p * p) / fp;
    assert(0 <= 70 * p * p) by (nonlinear_arith)
        requires 0 <= p;
    vstd::arithmetic::div_mod::lemma_fundamental_div_mod(70 * p * p, fp);
    vstd::arithmetic::div_mod::lemma_mod_bound(70 * p * p, fp);
    vstd::arithmetic::div_mod::lemma_div_pos_is_pos(70 * p * p, fp);
    let x = (a * fp) / 70;
    vstd::arithmetic::div_mod::lemma_fundamental_div_mod(a * fp, 70);
    vstd::arithmetic::div_mod::lemma_mod_bound(a * fp, 70);
    vstd::arithmetic::div_mod::lemma_div_pos_is_pos(a * fp, 70);
    assert(p * p - 938 <= x <= p * p) by (nonlinear_arith)
        requires
            fp == 0x1_0000,
            70 * p * p == fp * a + (70 * p * p) % fp,
            0 <= (70 * p * p) % fp < fp,
            0 <= a,
            a * fp == 70 * x + (a * fp) % 70,
            0 <= (a * fp) % 70 < 70,
    ;
    lemma_isqrt_exists(x);
    let s = spec_isqrt(x);
    assert(p - 1 <= s <= p) by (nonlinear_arith)
        requires
            0 <= s, s * s <= x, x < (s + 1) * (s + 1),
            p * p - 938 <= x <= p * p,
            470 <= p;
    assert(spec_param_to_vibrato_freq(p) - 7 * fp == a);
    assert(spec_vibrato_freq_to_param(spec_param_to_vibrato_freq(p)) == s);
}

/// The envelope duration a scalar selects: a square-law curve from 1 to
/// 5001 position units.
pub open spec fn spec_scalar_to_env_value(s: int) -> int {
    (5000 * s * s) / (FP_ONE as int) + FP_ONE
}

/// The scalar that selects a given envelope duration.
pub open spec fn spec_env_value_to_scalar(v: int) -> int {
    spec_isqrt(((v - FP_ONE) * FP_ONE) / 5000)
}

/// Maps a normalized scalar to an envelope duration.
pub fn scalar_to_env_value(scalar: i64) -> (v: i64)
    requires
        0 <= scalar <= FP_ONE,
    ensures
        v == spec_scalar_to_env_value(scalar as int),
        FP_ONE <= v <= 5001 * FP_ONE,
{
    proof {
        assert(0 <= 5000 * scalar * scalar <= 5000i64 * 0x1_0000i64 * 0x1_0000i64)
            by (nonlinear_arith)
            requires 0 <= scalar <= 0x1_0000i64;
        assert((5000 * scalar * scalar) / (FP_ONE as int) <= 5000i64 * FP_ONE)
            by (nonlinear_arith)
            requires 0 <= 5000 * scalar * scalar <= 5000i64 * 0x1_0000i64 * 0x1_0000i64;
    }
    5000 * scalar * scalar / FP_ONE + FP_ONE
}

/// Maps an envelope duration back to the scalar selecting it.
pub fn env_value_to_scalar(value: i64) -> (s: i64)
    requires
        FP_ONE <= value <= 5001 * FP_ONE,
    ensures
        s == spec_env_value_to_scalar(value as int),
        0 <= s,
{
    let off: i64 = value - FP_ONE;
    proof {
        assert(0 <= off * FP_ONE <= 5000i64 * FP_ONE * FP_ONE) by (nonlinear_arith)
            requires 0 <= off <= 5000i64 * 0x1_0000i64, FP_ONE == 0x1_0000i64;
    }
    let x: i64 = off * FP_ONE / 5000;
    let root: u64 = isqrt(x as u64);
    proof {
        lemma_isqrt_unique(x as int, root as int);
        assert(root < 0x1_0000_0000u64) by (nonlinear_arith)
            requires root * root <= 0x1_4000_0000_0000u64;
    }
    root as i64
}

/// Mapping a scalar to an envelope duration and back loses at most four
/// counts, and never overshoots.
pub proof fn lemma_env_value_round_trip(p: int)
    requires
        0 <= p <= FP_ONE,
    ensures
        p - 4 <= spec_env_value_to_scalar(spec_scalar_to_env_value(p)) <= p,
{
    let fp = FP_ONE as int;
    let a = (5000 * p * p) / fp;
    assert(0 <= 5000 * p * p) by (nonlinear_arith)
        requires 0 <= p;
    vstd::arithmetic::div_mod::lemma_fundamental_div_mod(5000 * p * p, fp);
    vstd::arithmetic::div_mod::lemma_mod_bound(5000 * p * p, fp);
    vstd::arithmetic::div_mod::lemma_div_pos_is_pos(5000 * p * p, fp);
    let x = (a * fp) / 5000;
    vstd::arithmetic::div_mod::lemma_fundamental_div_mod(a * fp, 5000);
    vstd::arithmetic::div_mod::lemma_mod_bound(a * fp, 5000);
    vstd::arithmetic::div_mod::lemma_div_pos_is_pos(a * fp, 5000);
    assert(p * p - 15 <= x <= p * p) by (nonlinear_arith)
        requires
            fp == 0x1_0000,
            5000 * p * p == fp * a + (5000 * p * p) % fp,
            0 <= (5000 * p * p) % fp < fp,
            0 <= a,
            a * fp == 5000 * x + (a * fp) % 5000,
            0 <= (a * fp) % 5000 < 5000,
    ;
    lemma_isqrt_exists(x);
    let s = spec_isqrt(x);
    assert(p - 4 <= s <= p) by (nonlinear_arith)
        requires
            0 <= s, s * s <= x, x < (s + 1) * (s + 1),
            p * p - 15 <= x <= p * p,
            0 <= p;
    assert(spec_env_value_to_scalar(spec_scalar_to_env_value(p)) == s);
}

/// The amplitude scalar a volume selects: (0.4 times the volume) squared.
pub open spec fn spec_volume_to_scalar(v: int) -> int {
    (((v * 2) / 5) * ((v * 2) / 5)) / (FP_ONE as int)
}

/// The volume that selects a given amplitude scalar.
pub open spec fn spec_scalar_to_volume(s: int) -> int {
    spec_isqrt(25 * s * FP_ONE) / 2
}

/// Maps a volume (0 to 2.5 in fixed point) to an amplitude scalar.
pub fn volume_to_scalar(volume: i64) -> (s: i64)
    requires
        0 <= volume <= 5 * FP_ONE / 2,
    ensures
        s == spec_volume_to_scalar(volume as int),
        0 <= s <= FP_ONE,
{
    let t: i64 = volume * 2 / 5;
    proof {
        assert(0 <= t <= FP_ONE && t * t <= 0x1_0000i64 * 0x1_0000i64) by (nonlinear_arith)
            requires 0 <= volume <= 5 * (0x1_0000i64) / 2, t == (volume * 2) / 5,
                FP_ONE == 0x1_0000i64;
        assert((t * t) / (FP_ONE as int) <= FP_ONE as int) by (nonlinear_arith)
            requires 0 <= t * t <= 0x1_0000i64 * 0x1_0000i64, FP_ONE == 0x1_0000i64;
    }
    t * t / FP_ONE
}

/// Maps an amplitude scalar back to the volume selecting it.
pub fn scalar_to_volume(scalar: i64) -> (v: i64)
    requires
        0 <= scalar <= FP_ONE,
    ensures
        v == spec_scalar_to_volume(scalar as int),
        0 <= v,
{
    proof {
        assert(0 <= 25 * scalar * FP_ONE <= 25i64 * 0x1_0000i64 * 0x1_0000i64)
            by (nonlinear_arith)
            requires 0 <= scalar <= 0x1_0000i64, FP_ONE == 0x1_0000i64;
    }
    let x: i64 = 25 * scalar * FP_ONE;
    let root: u64 = isqrt(x as u64);
    proof {
        lemma_isqrt_unique(x as int, root as int);
        assert(root < 0x1_0000_0000u64) by (nonlinear_arith)
            requires root * root <= 0x6_4000_0000_0000u64;
    }
    (root as i64) / 2
}

/// The first port at or after `from` whose name reads `n`, or the port
/// count if none does.
pub open spec fn first_named(names: Seq<Seq<char>>, n: Seq<char>, from: int) -> int
    decreases names.len() - from,
{
    if from < 0 || from >= names.len() {
        names.len() as int
    } else if names[from] == n {
        from
    } else {
        first_named(names, n, from + 1)
    }
}

/// A bank of named control ports, each holding a fixed-point input value
/// and a default, over a stated range.
pub struct SignalIOParams {
    pub inputs: Vec<i64>,
    pub defaults: Vec<i64>,
    pub names: Vec<String>,
    pub mins: Vec<i64>,
    pub maxs: Vec<i64>,
}

impl SignalIOParams {
    /// All five columns stay the same length.
    pub open spec fn wf(&self) -> bool {
        &&& self.inputs@.len() == self.names@.len()
        &&& self.defaults@.len() == self.names@.len()
        &&& self.mins@.len() == self.names@.len()
        &&& self.maxs@.len() == self.names@.len()
    }

    /// The port names as character sequences, for contracts.
    pub open spec fn spec_names(&self) -> Seq<Seq<char>> {
        self.names@.map_values(|s: String| s@)
    }

    /// An empty bank.
    pub fn new() -> (p: SignalIOParams)
        ensures
            p.wf(),
            p.names@.len() == 0,
    {
        SignalIOParams {
            inputs: Vec::new(),
            defaults: Vec::new(),
            names: Vec::new(),
            mins: Vec::new(),
            maxs: Vec::new(),
        }
    }

    /// The current input value of the port at an index.
    pub fn v(&self, idx: usize) -> (r: i64)
        requires
            self.wf(),
            idx < self.names@.len(),
        ensures
            r == self.inputs@[idx as int],
    {
        self.inputs[idx]
    }

    /// Declares one more port with its range; its input starts at the
    /// default.
    pub fn input(&mut self, name: String, min: i64, max: i64, default: i64)
        requires
            old(self).wf(),
        ensures
            final(self).wf(),
            final(self).names@ == old(self).names@.push(name),
            final(self).inputs@ == old(self).inputs@.push(default),
            final(self).defaults@ == old(self).defaults@.push(default),
            final(self).mins@ == old(self).mins@.push(min),
            final(self).maxs@ == old(self).maxs@.push(max),
    {
        self.inputs.push(default);
        self.defaults.push(default);
        self.names.push(name);
        self.mins.push(min);
        self.maxs.push(max);
    }

    /// Stores a value into the first port of the given name — into its
    /// default when asked, into its input otherwise — and says whether
    /// such a port exists.
    pub fn set(&mut self, name: &String, to: i64, as_default: bool) -> (found: bool)
        requires
            old(self).wf(),
        ensures
            final(self).wf(),
            final(self).names@ == old(self).names@,
            final(self).mins@ == old(self).mins@,
            final(self).maxs@ == old(self).maxs@,
            found == (first_named(old(self).spec_names(), name@, 0)
                < old(self).names@.len()),
            ({
                let i = first_named(old(self).spec_names(), name@, 0);
                if i < old(self).names@.len() {
                    if as_default {
                        final(self).defaults@ == old(self).defaults@.update(i, to)
                            && final(self).inputs@ == old(self).inputs@
                    } else {
                        final(self).inputs@ == old(self).inputs@.update(i, to)
                            && final(self).defaults@ == old(self).defaults@
                    }
                } else {
                    final(self).inputs@ == old(self).inputs@ && final(self).defaults@
                        == old(self).defaults@
                }
            }),
    {
        let ghost ns = self.spec_names();
        let n: usize = self.names.len();
        let mut i: usize = 0;
        while i < n
            invariant
                old(self).wf(),
                *self == *old(self),
                ns == old(self).spec_names(),
                n == old(self).names@.len(),
                i <= n,
                ns.len() == n,
                forall|j: int| 0 <= j < n ==> #[trigger] ns[j] == old(self).names@[j]@,
                first_named(ns, name@, 0) == first_named(ns, name@, i as int),
                forall|j: int| 0 <= j < i ==> #[trigger] ns[j] != name@,
            decreases n - i,
        {
            let hit: bool = self.names[i] == *name;
            if hit {
                proof {
                    assert(ns[i as int] == name@);
                    assert(first_named(ns, name@, i as int) == i);
                }
                if as_default {
                    self.defaults[i] = to;
                } else {
                    self.inputs[i] = to;
                }
                return true;
            }
            proof {
                assert(ns[i as int] != name@);
            }
            i += 1;
        }
        proof {
            assert(first_named(ns, name@, 0) == n);
        }
        false
    }
}

/// Mapping a volume to its squared amplitude scalar and back loses at
/// most six counts, once the volume is at least one whole unit — below
/// that the squared scalar is too coarse for the inverse to resolve.
pub proof fn lemma_volume_round_trip(v: int)
    requires
        FP_ONE <= v <= 5 * FP_ONE / 2,
    ensures
        v - 6 <= spec_scalar_to_volume(spec_volume_to_scalar(v)) <= v,
{
    let fp = FP_ONE as int;
    let t = (v * 2) / 5;
    vstd::arithmetic::div_mod::lemma_fundamental_div_mod(v * 2, 5);
    vstd::arithmetic::div_mod::lemma_mod_bound(v * 2, 5);
    vstd::arithmetic::div_mod::lemma_div_pos_is_pos(v * 2, 5);
    assert(5 * t <= 2 * v <= 5 * t + 4 && t >= 26214) by (nonlinear_arith)
        requires
            fp == 0x1_0000,
            fp <= v,
            v * 2 == 5 * t + (v * 2) % 5,
            0 <= (v * 2) % 5 < 5;
    let s = (t * t) / fp;
    assert(0 <= t * t) by (nonlinear_arith)
        requires 0 <= t;
    vstd::arithmetic::div_mod::lemma_fundamental_div_mod(t * t, fp);
    vstd::arithmetic::div_mod::lemma_mod_bound(t * t, fp);
    vstd::arithmetic::div_mod::lemma_div_pos_is_pos(t * t, fp);
    let x = 25 * s * fp;
    assert(25 * t * t - 25 * fp < x <= 25 * t * t && x >= 0) by (nonlinear_arith)
        requires
            fp == 0x1_0000,
            t * t == fp * s + (t * t) % fp,
            0 <= (t * t) % fp < fp,
            s >= 0,
            x == 25 * s * fp;
    lemma_isqrt_exists(x);
    let u = spec_isqrt(x);
    assert(5 * t - 7 <= u <= 5 * t) by (nonlinear_arith)
        requires
            0 <= u, u * u <= x, x < (u + 1) * (u + 1),
            25 * t * t - 25 * fp < x <= 25 * t * t,
            t >= 26214,
            fp == 0x1_0000;
    assert(spec_volume_to_scalar(v) == s);
    assert(spec_scalar_to_volume(s) == u / 2);
    assert(v - 6 <= u / 2 <= v) by (nonlinear_arith)
        requires
            5 * t <= 2 * v <= 5 * t + 4,
            5 * t - 7 <= u <= 5 * t,
            u == 2 * (u / 2) + u % 2,
            0 <= u % 2 < 2;
}

/// Constant-power pan weight for the left channel: the square root of one
/// minus the pan position.
pub fn pan_to_scalar_left(pan: i64) -> (s: i64)
    requires
        0 <= pan <= FP_ONE,
    ensures
        s == spec_isqrt((FP_ONE - pan) * FP_ONE),
        0 <= s,
{
    fp_sqrt(FP_ONE - pan)
}

/// Constant-power pan weight for the right channel: the square root of the
/// pan position.
pub fn pan_to_scalar_right(pan: i64) -> (s: i64)
    requires
        0 <= pan <= FP_ONE,
    ensures
        s == spec_isqrt(pan * FP_ONE),
        0 <= s,
{
    fp_sqrt(pan)
}

} // verus!
