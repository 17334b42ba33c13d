//! The two-pole state-variable filter, with lazily recomputed
//! coefficient.
//!
//! Samples and filter state are fixed point with `FP_ONE` standing for
//! 1.0.  The integrator states are clamped into a wide safe band after
//! every step, so the recursion can never overflow, whatever input or
//! resonance arrives; the filter coefficient comes from the injected
//! cosine table.  The whole per-sample computation is stated exactly over
//! `spec_svf_step` in the contract of `next`.

use vstd::prelude::*;
use crate::parameters::FP_ONE;
use crate::parameters::FilterType;
use crate::trig::CosTab;
use crate::trig::PHASE_PERIOD;
use crate::trig::PHASE_QUARTER;
use crate::trig::fast_sin;
use crate::trig::spec_sin_phase;
use crate::helpers::spec_tdiv;
use crate::helpers::tdiv;

verus! {

/// The band the integrator states and inputs are clamped into.
pub const SVF_SAT: i64 = 0x8000_0000;

/// Clamp into the safe band, in spec form.
pub open spec fn spec_sat(v: int) -> int {
    if v < -SVF_SAT {
        -SVF_SAT as int
    } else if v > SVF_SAT {
        SVF_SAT as int
    } else {
        v
    }
}

/// The table phase of the coefficient angle: a quarter turn scaled by the
/// ratio of the cutoff to twice the sample rate.
pub open spec fn spec_coeff_phase(freq: int, sample_rate: int) -> int {
    ((freq * PHASE_QUARTER) / (FP_ONE as int) / sample_rate) % (PHASE_PERIOD as int)
}

/// The filter coefficient: 1.5 times the interpolated sine of the
/// coefficient angle.
pub open spec fn spec_coeff(tab: Seq<i64>, freq: int, sample_rate: int) -> int {
    spec_tdiv(3 * spec_sin_phase(tab, spec_coeff_phase(freq, sample_rate)), 2)
}

/// One core step of the state-variable recursion: the low and band
/// integrators advance, the high output balances them, and one of the
/// four taps is the output.  Returns the new low, the new band, and the
/// output.
pub open spec fn spec_svf_step(
    f: int,
    q: int,
    ft: FilterType,
    low: int,
    band: int,
    input: int,
) -> (int, int, int) {
    let fp = FP_ONE as int;
    let low1 = spec_sat(low + spec_tdiv(f * band, fp));
    let high = spec_tdiv(q * (input - band), fp) - low1;
    let band1 = spec_sat(band + spec_tdiv(f * high, fp));
    let out = match ft {
        FilterType::Lowpass => low1,
        FilterType::Highpass => high,
        FilterType::Bandpass => band1,
        FilterType::Notch => low1 + high,
    };
    (low1, band1, out)
}

/// The two-pole resonant filter.
pub struct Filter {
    pub sample_rate: u32,
    pub recalculate: bool,
    pub filter_type: FilterType,
    pub freq: i64,
    pub q: i64,
    pub last_input: i64,
    pub low: i64,
    pub band: i64,
    pub f: i64,
}

impl Filter {
    /// Well-formedness: the knobs stay in their ranges and the state stays
    /// inside the clamp band.
    pub open spec fn wf(&self) -> bool {
        &&& 1 <= self.sample_rate <= 1_000_000
        &&& 0 <= self.freq <= 20000 * FP_ONE
        &&& 0 <= self.q <= 12 * FP_ONE
        &&& -SVF_SAT <= self.last_input <= SVF_SAT
        &&& -SVF_SAT <= self.low <= SVF_SAT
        &&& -SVF_SAT <= self.band <= SVF_SAT
        &&& -2 * FP_ONE <= self.f <= 2 * FP_ONE
    }

    /// A fresh lowpass at 1 kHz with unit Q, marked for coefficient
    /// computation on first use.
    pub fn new(sample_rate: u32) -> (fl: Filter)
        requires
            1 <= sample_rate <= 1_000_000,
        ensures
            fl.wf(),
            fl.sample_rate == sample_rate,
            fl.recalculate,
            fl.filter_type == FilterType::Lowpass,
            fl.freq == 1000 * FP_ONE,
            fl.q == FP_ONE,
            fl.last_input == 0,
            fl.low == 0,
            fl.band == 0,
            fl.f == 0,
    {
        Filter {
            sample_rate,
            recalculate: true,
            filter_type: FilterType::Lowpass,
            freq: 1000 * FP_ONE,
            q: FP_ONE,
            last_input: 0,
            low: 0,
            band: 0,
            f: 0,
        }
    }

    /// Changes the filter type; a real change marks the coefficient
    /// dirty.
    pub fn set_type(&mut self, v: FilterType)
        requires
            old(self).wf(),
        ensures
            final(self).wf(),
            final(self).filter_type == v,
            *final(self) == (Filter {
                filter_type: v,
                recalculate: final(self).recalculate,
                ..*old(self)
            }),
            final(self).recalculate == (old(self).recalculate || old(self).filter_type != v),
    {
        if self.filter_type == v {
            return;
        }
        self.filter_type = v;
        self.recalculate = true;
    }

    /// Changes the resonance; a real change marks the coefficient dirty.
    pub fn set_q(&mut self, v: i64)
        requires
            old(self).wf(),
            0 <= v <= 12 * FP_ONE,
        ensures
            final(self).wf(),
            final(self).q == v,
            *final(self) == (Filter { q: v, recalculate: final(self).recalculate, ..*old(self) }),
            final(self).recalculate == (old(self).recalculate || old(self).q != v),
    {
        if self.q == v {
            return;
        }
        self.q = v;
        self.recalculate = true;
    }

    /// Changes the cutoff; a real change marks the coefficient dirty.
    pub fn set_freq(&mut self, v: i64)
        requires
            old(self).wf(),
            0 <= v <= 20000 * FP_ONE,
        ensures
            final(self).wf(),
            final(self).freq == v,
            *final(self) == (Filter {
                freq: v,
                recalculate: final(self).recalculate,
                ..*old(self)
            }),
            final(self).recalculate == (old(self).recalculate || old(self).freq != v),
    {
        if self.freq == v {
            return;
        }
        self.freq = v;
        self.recalculate = true;
    }

    /// One core step over the integrator state.
    fn run(&mut self, input: i64) -> (out: i64)
        requires
            old(self).wf(),
            -2 * SVF_SAT <= input <= 2 * SVF_SAT,
        ensures
            final(self).wf(),
            ({
                let (low1, band1, out1) = spec_svf_step(
                    old(self).f as int,
                    old(self).q as int,
                    old(self).filter_type,
                    old(self).low as int,
                    old(self).band as int,
                    input as int,
                );
                &&& final(self).low == low1
                &&& final(self).band == band1
                &&& out == out1
            }),
            *final(self) == (Filter {
                low: final(self).low,
                band: final(self).band,
                ..*old(self)
            }),
            -40 * SVF_SAT <= out <= 40 * SVF_SAT,
    {
        proof {
            assert(-(2 * FP_ONE * SVF_SAT as int) <= self.f * self.band <= 2 * FP_ONE
                * SVF_SAT as int) by (nonlinear_arith)
                requires -2 * FP_ONE <= self.f <= 2 * FP_ONE,
                    -SVF_SAT <= self.band <= SVF_SAT,
                    FP_ONE == 0x1_0000i64, SVF_SAT == 0x8000_0000i64;
            lemma_tdiv_bound(self.f as int * self.band as int,
                2 * FP_ONE * SVF_SAT as int, FP_ONE as int);
        }
        let lowstep: i64 = tdiv(self.f * self.band, FP_ONE);
        let low1: i64 = sat(self.low + lowstep);
        proof {
            assert(-(12 * FP_ONE * 3 * SVF_SAT as int) <= self.q * (input - self.band)
                <= 12 * FP_ONE * 3 * SVF_SAT as int) by (nonlinear_arith)
                requires 0 <= self.q <= 12 * FP_ONE,
                    -3 * SVF_SAT <= input - self.band <= 3 * SVF_SAT,
                    FP_ONE == 0x1_0000i64, SVF_SAT == 0x8000_0000i64;
            lemma_tdiv_bound(self.q as int * (input - self.band) as int,
                12 * FP_ONE * 3 * SVF_SAT as int, FP_ONE as int);
            lemma_tdiv_quotient_bound(self.q as int * (input - self.band) as int,
                36 * SVF_SAT as int, FP_ONE as int);
        }
        let high: i64 = tdiv(self.q * (input - self.band), FP_ONE) - low1;
        proof {
            assert(-(2 * FP_ONE * 40 * SVF_SAT as int) <= self.f * high <= 2 * FP_ONE * 40
                * SVF_SAT as int) by (nonlinear_arith)
                requires -2 * FP_ONE <= self.f <= 2 * FP_ONE,
                    -40 * SVF_SAT <= high <= 40 * SVF_SAT,
                    FP_ONE == 0x1_0000i64, SVF_SAT == 0x8000_0000i64;
            lemma_tdiv_bound(self.f as int * high as int,
                2 * FP_ONE * 40 * SVF_SAT as int, FP_ONE as int);
        }
        let band1: i64 = sat(self.band + tdiv(self.f * high, FP_ONE));
        self.low = low1;
        self.band = band1;
        let is_low = matches!(self.filter_type, FilterType::Lowpass);
        let is_high = matches!(self.filter_type, FilterType::Highpass);
        let is_band = matches!(self.filter_type, FilterType::Bandpass);
        if is_low {
            low1
        } else if is_high {
            high
        } else if is_band {
            band1
        } else {
            low1 + high
        }
    }

    /// One output sample.  A dirty coefficient is recomputed from the
    /// cosine table first; then the core runs twice — once on the average
    /// of the previous and current input, once on the current input — and
    /// the two results are averaged, which steadies the filter against
    /// input steps.
    pub fn next(&mut self, tab: &CosTab, input: i64) -> (out: i64)
        requires
            old(self).wf(),
            tab.wf(),
            -SVF_SAT <= input <= SVF_SAT,
        ensures
            final(self).wf(),
            final(self).f == (if old(self).recalculate {
                spec_coeff(tab.view(), old(self).freq as int, old(self).sample_rate as int)
            } else {
                old(self).f as int
            }),
            !final(self).recalculate,
            final(self).last_input == input,
            final(self).sample_rate == old(self).sample_rate,
            final(self).filter_type == old(self).filter_type,
            final(self).freq == old(self).freq,
            final(self).q == old(self).q,
            ({
                let f = final(self).f as int;
                let (low1, band1, out1) = spec_svf_step(
                    f,
                    old(self).q as int,
                    old(self).filter_type,
                    old(self).low as int,
                    old(self).band as int,
                    old(self).last_input + input,
                );
                let (low2, band2, out2) = spec_svf_step(
                    f,
                    old(self).q as int,
                    old(self).filter_type,
                    low1,
                    band1,
                    input as int,
                );
                &&& final(self).low == low2
                &&& final(self).band == band2
                &&& out == spec_tdiv(spec_tdiv(out1, 2) + out2, 2)
            }),
    {
        if self.recalculate {
            proof {
                assert(0 <= self.freq * PHASE_QUARTER <= 20000i64 * 0x1_0000i64
                    * 0x4000_0000i64) by (nonlinear_arith)
                    requires 0 <= self.freq <= 20000i64 * 0x1_0000i64,
                        PHASE_QUARTER == 0x4000_0000u64;
                vstd::arithmetic::div_mod::lemma_div_pos_is_pos(
                    self.freq as int * PHASE_QUARTER as int, FP_ONE as int);
                vstd::arithmetic::div_mod::lemma_div_pos_is_pos(
                    self.freq as int * PHASE_QUARTER as int / (FP_ONE as int),
                    self.sample_rate as int);
            }
            let scaled: i64 = self.freq * (PHASE_QUARTER as i64) / FP_ONE;
            let angle: u64 = ((scaled / (self.sample_rate as i64)) as u64) % PHASE_PERIOD;
            let s: i64 = fast_sin(tab, angle);
            self.f = tdiv(3 * s, 2);
            self.recalculate = false;
        }
        let avg_in: i64 = self.last_input + input;
        let first: i64 = self.run(avg_in);
        let second: i64 = self.run(input);
        proof {
            lemma_tdiv_bound(first as int, 40 * SVF_SAT as int, 2);
        }
        let half: i64 = tdiv(first, 2);
        let out: i64 = tdiv(half + second, 2);
        self.last_input = input;
        out
    }
}

/// Executable clamp into the safe band.
fn sat(v: i64) -> (r: i64)
    requires
        -0x7000_0000_0000_0000 <= v <= 0x7000_0000_0000_0000,
    ensures
        r == spec_sat(v as int),
        -SVF_SAT <= r <= SVF_SAT,
{
    if v < -SVF_SAT {
        -SVF_SAT
    } else if v > SVF_SAT {
        SVF_SAT
    } else {
        v
    }
}

/// A product bounded by `b * d` has a truncating quotient bounded by `b`.
proof fn lemma_tdiv_quotient_bound(a: int, b: int, d: int)
    requires
        d >= 1,
        0 <= b,
        -(b * d) <= a <= b * d,
    ensures
        -b <= spec_tdiv(a, d) <= b,
{
    if a >= 0 {
        vstd::arithmetic::div_mod::lemma_div_pos_is_pos(a, d);
        vstd::arithmetic::div_mod::lemma_fundamental_div_mod(a, d);
        vstd::arithmetic::div_mod::lemma_mod_bound(a, d);
        assert(a / d <= b) by (nonlinear_arith)
            requires
                d >= 1, 0 <= b, a <= b * d,
                a == d * (a / d) + a % d,
                0 <= a % d < d,
                a / d >= 0;
    } else {
        vstd::arithmetic::div_mod::lemma_div_pos_is_pos(-a, d);
        vstd::arithmetic::div_mod::lemma_fundamental_div_mod(-a, d);
        vstd::arithmetic::div_mod::lemma_mod_bound(-a, d);
        assert((-a) / d <= b) by (nonlinear_arith)
            requires
                d >= 1, 0 <= b, -a <= b * d,
                -a == d * ((-a) / d) + (-a) % d,
                0 <= (-a) % d < d,
                (-a) / d >= 0;
    }
}

/// Truncating division shrinks magnitude by its divisor.
proof fn lemma_tdiv_bound(a: int, bound: int, d: int)
    requires
        d >= 1,
        0 <= bound,
        -bound <= a <= bound,
    ensures
        -bound <= spec_tdiv(a, d) <= bound,
        a >= 0 ==> 0 <= spec_tdiv(a, d) <= a,
        a < 0 ==> a <= spec_tdiv(a, d) <= 0,
{
    if a >= 0 {
        vstd::arithmetic::div_mod::lemma_div_pos_is_pos(a, d);
        vstd::arithmetic::div_mod::lemma_div_is_ordered_by_denominator(a, 1, d);
        assert(a / 1 == a);
    } else {
        vstd::arithmetic::div_mod::lemma_div_pos_is_pos(-a, d);
        vstd::arithmetic::div_mod::lemma_div_is_ordered_by_denominator(-a, 1, d);
        assert((-a) / 1 == -a);
    }
}

} // verus!
