//! Table-based cosine and sine over fixed-point phase.
//!
//! A phase of `PHASE_PERIOD` stands for one full period; results are fixed
//! point with `FP_ONE` standing for 1.0.  The table itself is an injected,
//! read-only dependency built once at startup from 512 cosine samples plus
//! a wrap-around entry; the lookup interpolates linearly between adjacent
//! entries.  Everything proved of the lookup — the bound on its magnitude,
//! its exact periodicity, its value at phase zero — holds for any table
//! that passes construction.

use vstd::prelude::*;
use crate::parameters::FP_ONE;
use crate::helpers::spec_tdiv;

verus! {

/// Phase units in one full period.
pub const PHASE_PERIOD: u64 = 0x1_0000_0000;

/// Phase units in a quarter period.
pub const PHASE_QUARTER: u64 = 0x4000_0000;

/// Table entries over one period, excluding the wrap-around entry.
pub const COS_TAB_SIZE: usize = 512;

/// Phase units between two adjacent table entries.
pub const PHASE_STEP: u64 = 0x80_0000;

/// A wrap-around cosine table: one period of samples, each within
/// [-FP_ONE, FP_ONE], starting at exactly FP_ONE (the cosine of zero) and
/// whose final entry repeats the first.
pub struct CosTab {
    tab: Vec<i64>,
}

/// What construction checks of every table.
pub open spec fn cos_tab_wf(tab: Seq<i64>) -> bool {
    &&& tab.len() == COS_TAB_SIZE + 1
    &&& forall|i: int| 0 <= i < tab.len() ==> -FP_ONE <= #[trigger] tab[i] <= FP_ONE
    &&& tab[0] == FP_ONE
    &&& tab[COS_TAB_SIZE as int] == tab[0]
}

/// Linear interpolation of the table at a phase already reduced into one
/// period.
pub open spec fn spec_cos_lookup(tab: Seq<i64>, phase: int) -> int
    recommends
        cos_tab_wf(tab),
        0 <= phase < PHASE_PERIOD,
{
    let i = phase / (PHASE_STEP as int);
    let f = phase % (PHASE_STEP as int);
    let left = tab[i] as int;
    let right = tab[i + 1] as int;
    if right >= left {
        left + ((right - left) * f) / (PHASE_STEP as int)
    } else {
        left - ((left - right) * f) / (PHASE_STEP as int)
    }
}

/// The interpolated cosine of an arbitrary phase: the lookup at the phase
/// reduced into one period.
pub open spec fn spec_cos_phase(tab: Seq<i64>, phase: int) -> int {
    spec_cos_lookup(tab, phase % (PHASE_PERIOD as int))
}

/// The interpolated sine: the cosine a quarter period earlier.
pub open spec fn spec_sin_phase(tab: Seq<i64>, phase: int) -> int {
    spec_cos_phase(tab, phase + 3 * PHASE_QUARTER)
}

impl CosTab {
    /// Accepts a table of 513 entries within [-FP_ONE, FP_ONE] that opens
    /// at FP_ONE and whose last entry closes the period; rejects anything
    /// else.
    pub fn init_cos_tab(entries: Vec<i64>) -> (r: Option<CosTab>)
        ensures
            match r {
                Some(t) => t.view() == entries@ && t.wf(),
                None => !cos_tab_wf(entries@),
            },
    {
        if entries.len() != COS_TAB_SIZE + 1 {
            return None;
        }
        if entries[0] != FP_ONE {
            return None;
        }
        if entries[COS_TAB_SIZE] != entries[0] {
            return None;
        }
        let mut i: usize = 0;
        while i < entries.len()
            invariant
                i <= entries@.len(),
                entries@.len() == COS_TAB_SIZE + 1,
                forall|j: int| 0 <= j < i ==> -FP_ONE <= #[trigger] entries@[j] <= FP_ONE,
            decreases entries@.len() - i,
        {
            let e: i64 = entries[i];
            if e < -FP_ONE || e > FP_ONE {
                return None;
            }
            i += 1;
        }
        Some(CosTab { tab: entries })
    }

    /// The table as a sequence, for contracts.
    pub closed spec fn view(&self) -> Seq<i64> {
        self.tab@
    }

    /// Whether the table passed construction; every constructed table did.
    pub open spec fn wf(&self) -> bool {
        cos_tab_wf(self.view())
    }

    /// The entry at phase zero: exactly full scale, the cosine of zero.
    pub fn at_zero(&self) -> (r: i64)
        requires
            self.wf(),
        ensures
            r == self.view()[0],
            r == FP_ONE,
    {
        self.tab[0]
    }
}

/// Interpolated cosine of a fixed-point phase.  The result never leaves
/// [-FP_ONE, FP_ONE], and depends only on the phase reduced into one
/// period.
pub fn fast_cos(tab: &CosTab, phase: u64) -> (r: i64)
    requires
        tab.wf(),
    ensures
        r == spec_cos_phase(tab.view(), phase as int),
        -FP_ONE <= r <= FP_ONE,
{
    let p: u64 = phase % (PHASE_PERIOD as u64);
    let i: usize = (p / PHASE_STEP) as usize;
    let f: i64 = (p % PHASE_STEP) as i64;
    assert(i < COS_TAB_SIZE) by (nonlinear_arith)
        requires p < 0x1_0000_0000u64, i == p / 0x80_0000u64;
    let left: i64 = tab.tab[i];
    let right: i64 = tab.tab[i + 1];
    proof {
        assert(0 <= f < PHASE_STEP);
    }
    let r: i64 = if right >= left {
        proof {
            assert(0 <= (right - left) * f <= 0x2_0000i64 * 0x80_0000i64) by (nonlinear_arith)
                requires 0 <= right - left <= 0x2_0000i64, 0 <= f <= 0x80_0000i64;
            assert(((right - left) * f) / (PHASE_STEP as int) <= right - left) by (nonlinear_arith)
                requires 0 <= right - left, 0 <= f < 0x80_0000i64, PHASE_STEP == 0x80_0000u64;
        }
        left + ((right - left) * f) / (PHASE_STEP as i64)
    } else {
        proof {
            assert(0 <= (left - right) * f <= 0x2_0000i64 * 0x80_0000i64) by (nonlinear_arith)
                requires 0 <= left - right <= 0x2_0000i64, 0 <= f <= 0x80_0000i64;
            assert(((left - right) * f) / (PHASE_STEP as int) <= left - right) by (nonlinear_arith)
                requires 0 <= left - right, 0 <= f < 0x80_0000i64, PHASE_STEP == 0x80_0000u64;
        }
        left - ((left - right) * f) / (PHASE_STEP as i64)
    };
    r
}

/// Interpolated sine: the cosine a quarter period earlier.
pub fn fast_sin(tab: &CosTab, phase: u64) -> (r: i64)
    requires
        tab.wf(),
        phase <= 8 * PHASE_PERIOD,
    ensures
        r == spec_sin_phase(tab.view(), phase as int),
        -FP_ONE <= r <= FP_ONE,
{
    fast_cos(tab, phase + 3 * PHASE_QUARTER)
}

/// A square-ish waveform from the first, third and fifth harmonic.
pub fn square_135(tab: &CosTab, phase: u64) -> (r: i64)
    requires
        tab.wf(),
        phase < PHASE_PERIOD,
    ensures
        r == spec_sin_phase(tab.view(), phase as int)
            + spec_tdiv(spec_sin_phase(tab.view(), 3 * (phase as int)), 3)
            + spec_tdiv(spec_sin_phase(tab.view(), 5 * (phase as int)), 5),
        -2 * FP_ONE <= r <= 2 * FP_ONE,
{
    let s1: i64 = fast_sin(tab, phase);
    let s3: i64 = fast_sin(tab, 3 * phase);
    let s5: i64 = fast_sin(tab, 5 * phase);
    let d3: i64 = if s3 >= 0 { s3 / 3 } else { -((-s3) / 3) };
    let d5: i64 = if s5 >= 0 { s5 / 5 } else { -((-s5) / 5) };
    s1 + d3 + d5
}

/// The third and fifth harmonic alone.
pub fn square_35(tab: &CosTab, phase: u64) -> (r: i64)
    requires
        tab.wf(),
        phase < PHASE_PERIOD,
    ensures
        r == spec_tdiv(spec_sin_phase(tab.view(), 3 * (phase as int)), 3)
            + spec_tdiv(spec_sin_phase(tab.view(), 5 * (phase as int)), 5),
        -FP_ONE <= r <= FP_ONE,
{
    let s3: i64 = fast_sin(tab, 3 * phase);
    let s5: i64 = fast_sin(tab, 5 * phase);
    let d3: i64 = if s3 >= 0 { s3 / 3 } else { -((-s3) / 3) };
    let d5: i64 = if s5 >= 0 { s5 / 5 } else { -((-s5) / 5) };
    d3 + d5
}

/// The interpolated cosine has exact period `PHASE_PERIOD`: any two phases
/// a whole period apart give the same value.
pub proof fn lemma_cos_periodic(tab: Seq<i64>, phase: int)
    requires
        phase >= 0,
    ensures
        spec_cos_phase(tab, phase + PHASE_PERIOD) == spec_cos_phase(tab, phase),
{
    let pp = PHASE_PERIOD as int;
    assert((phase + pp) % pp == phase % pp) by (nonlinear_arith)
        requires phase >= 0, pp == 0x1_0000_0000;
}

/// At phase zero the interpolated cosine of every accepted table is
/// exactly full scale: cos(0) is 1.
pub proof fn lemma_cos_at_zero(tab: Seq<i64>)
    requires
        cos_tab_wf(tab),
    ensures
        spec_cos_phase(tab, 0) == FP_ONE,
{
    assert(0int % (PHASE_PERIOD as int) == 0);
    assert(0int / (PHASE_STEP as int) == 0);
    assert(0int % (PHASE_STEP as int) == 0);
}

} // verus!
