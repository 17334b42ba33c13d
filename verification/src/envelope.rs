//! The four-stage envelope generator: attack, decay, sustain, release.
//!
//! Positions and durations are fixed point with `FP_ONE` standing for one
//! position unit (a millisecond at the usual calibration); levels are fixed
//! point with `FP_ONE` standing for full level.  Every transition of the
//! state machine is stated exactly in the contract of `next`, and the two
//! envelope laws — the attack curve never decreases, and a release begun by
//! `off` starts at exactly the level the envelope had — are proved below.

use vstd::prelude::*;
use crate::parameters::FP_ONE;

verus! {

/// Largest duration and tick the envelope accepts.
pub const DUR_MAX: i64 = 0x1_0000_0000;

/// The five stages of the envelope.
#[derive(Debug, PartialEq, Eq, Structural, Clone, Copy)]
pub enum EnvelopeState {
    Attack,
    Decay,
    Sustain,
    Release,
    Finished,
}

/// The envelope generator.
#[derive(Debug, PartialEq, Clone, Copy)]
pub struct Envelope {
    pub state: EnvelopeState,
    pub attack: i64,
    pub decay: i64,
    pub sustain: i64,
    pub release: i64,
    pub sample_rate: u32,
    pub tick: i64,
    pub pos: i64,
    pub release_value: i64,
}

impl Envelope {
    /// Well-formedness: durations carry a floor of one count so that no
    /// stage divides by zero, levels stay normalized, and the position
    /// stays inside the current stage.
    pub open spec fn wf(&self) -> bool {
        &&& 1 <= self.attack <= DUR_MAX
        &&& 1 <= self.decay <= DUR_MAX
        &&& 1 <= self.release <= DUR_MAX
        &&& 1 <= self.tick <= DUR_MAX
        &&& 0 <= self.sustain <= FP_ONE
        &&& 0 <= self.release_value <= FP_ONE
        &&& 0 <= self.pos <= 3 * DUR_MAX
        &&& (self.state == EnvelopeState::Attack ==> self.pos < self.attack)
        &&& (self.state == EnvelopeState::Release ==> self.pos < self.release)
        &&& (self.state == EnvelopeState::Decay ==> self.pos < self.decay + self.tick)
    }

    /// The level the envelope stands at: the attack ramp, the square-law
    /// decay toward the sustain level, the held sustain, the square-law
    /// release from the captured level, or silence.
    pub open spec fn spec_value(&self) -> int {
        match self.state {
            EnvelopeState::Attack => (self.pos * FP_ONE) / (self.attack as int),
            EnvelopeState::Decay => {
                let pe = if self.pos < self.decay { self.pos as int } else { self.decay as int };
                let f = FP_ONE - (pe * FP_ONE) / (self.decay as int);
                let f2 = (f * f) / (FP_ONE as int);
                f2 + (self.sustain * (FP_ONE - f2)) / (FP_ONE as int)
            },
            EnvelopeState::Sustain => self.sustain as int,
            EnvelopeState::Release => {
                let pe = if self.pos < self.release {
                    self.pos as int
                } else {
                    self.release as int
                };
                let f = FP_ONE - (pe * FP_ONE) / (self.release as int);
                let f2 = (f * f) / (FP_ONE as int);
                (self.release_value * f2) / (FP_ONE as int)
            },
            EnvelopeState::Finished => 0,
        }
    }

    /// A fresh, silent envelope calibrated to the sample rate: the tick is
    /// the fixed-point number of position units per sample.
    pub fn new(sample_rate: u32) -> (e: Envelope)
        requires
            1 <= sample_rate <= 1_000_000,
        ensures
            e.wf(),
            e.state == EnvelopeState::Finished,
            e.attack == FP_ONE,
            e.decay == 5 * FP_ONE,
            e.sustain == FP_ONE / 2,
            e.release == 3 * FP_ONE / 2,
            e.sample_rate == sample_rate,
            e.tick == (1000 * FP_ONE) / (sample_rate as int),
            e.pos == 0,
            e.release_value == 0,
    {
        let tick: i64 = 1000 * FP_ONE / (sample_rate as i64);
        proof {
            assert(1 <= (1000 * FP_ONE) / (sample_rate as int) <= 1000 * FP_ONE)
                by (nonlinear_arith)
                requires 1 <= sample_rate <= 1_000_000u32, FP_ONE == 0x1_0000i64;
        }
        Envelope {
            state: EnvelopeState::Finished,
            attack: FP_ONE,
            decay: 5 * FP_ONE,
            sustain: FP_ONE / 2,
            release: 3 * FP_ONE / 2,
            sample_rate,
            tick,
            pos: 0,
            release_value: 0,
        }
    }

    /// Restarts the envelope from the top of the attack stage, whatever
    /// stage it was in.
    pub fn trigger(&mut self)
        requires
            old(self).wf(),
        ensures
            final(self).wf(),
            final(self).state == EnvelopeState::Attack,
            final(self).pos == 0,
            *final(self) == (Envelope {
                state: EnvelopeState::Attack,
                pos: 0,
                ..*old(self)
            }),
    {
        self.state = EnvelopeState::Attack;
        self.pos = 0;
    }

    /// The current level as an executable value.
    pub fn get_value(&self) -> (v: i64)
        requires
            self.wf(),
        ensures
            v == self.spec_value(),
            0 <= v <= FP_ONE,
    {
        proof {
            self.lemma_value_bounds();
        }
        match self.state {
            EnvelopeState::Attack => {
                proof {
                    assert(0 <= self.pos * FP_ONE <= 3 * DUR_MAX * (FP_ONE as int))
                        by (nonlinear_arith)
                        requires 0 <= self.pos <= 3 * DUR_MAX, FP_ONE == 0x1_0000i64;
                }
                self.pos * FP_ONE / self.attack
            },
            EnvelopeState::Decay => {
                let pe: i64 = if self.pos < self.decay { self.pos } else { self.decay };
                proof {
                    assert(0 <= pe * FP_ONE <= 3 * DUR_MAX * (FP_ONE as int)) by (nonlinear_arith)
                        requires 0 <= pe <= 3 * DUR_MAX, FP_ONE == 0x1_0000i64;
                    assert((pe * FP_ONE) / (self.decay as int) <= FP_ONE) by (nonlinear_arith)
                        requires 0 <= pe <= self.decay, 1 <= self.decay, FP_ONE == 0x1_0000i64;
                    vstd::arithmetic::div_mod::lemma_div_pos_is_pos(pe * FP_ONE, self.decay as int);
                }
                let f: i64 = FP_ONE - pe * FP_ONE / self.decay;
                proof {
                    assert(0 <= f * f <= 0x1_0000i64 * 0x1_0000i64) by (nonlinear_arith)
                        requires 0 <= f <= 0x1_0000i64;
                    assert((f * f) / (FP_ONE as int) <= FP_ONE) by (nonlinear_arith)
                        requires 0 <= f * f <= 0x1_0000i64 * 0x1_0000i64, FP_ONE == 0x1_0000i64;
                    vstd::arithmetic::div_mod::lemma_div_pos_is_pos(f * f, FP_ONE as int);
                }
                let f2: i64 = f * f / FP_ONE;
                proof {
                    assert(0 <= self.sustain * (FP_ONE - f2) <= 0x1_0000i64 * 0x1_0000i64)
                        by (nonlinear_arith)
                        requires 0 <= self.sustain <= 0x1_0000i64, 0 <= FP_ONE - f2 <= 0x1_0000i64;
                    vstd::arithmetic::div_mod::lemma_div_pos_is_pos(
                        self.sustain * (FP_ONE - f2), FP_ONE as int);
                    assert((self.sustain * (FP_ONE - f2)) / (FP_ONE as int) <= FP_ONE as int)
                        by (nonlinear_arith)
                        requires 0 <= self.sustain * (FP_ONE - f2) <= 0x1_0000i64 * 0x1_0000i64,
                            FP_ONE == 0x1_0000i64;
                }
                f2 + self.sustain * (FP_ONE - f2) / FP_ONE
            },
            EnvelopeState::Sustain => self.sustain,
            EnvelopeState::Release => {
                let pe: i64 = if self.pos < self.release { self.pos } else { self.release };
                proof {
                    assert(0 <= pe * FP_ONE <= 3 * DUR_MAX * (FP_ONE as int)) by (nonlinear_arith)
                        requires 0 <= pe <= 3 * DUR_MAX, FP_ONE == 0x1_0000i64;
                    assert((pe * FP_ONE) / (self.release as int) <= FP_ONE) by (nonlinear_arith)
                        requires 0 <= pe <= self.release, 1 <= self.release, FP_ONE == 0x1_0000i64;
                    vstd::arithmetic::div_mod::lemma_div_pos_is_pos(
                        pe * FP_ONE, self.release as int);
                }
                let f: i64 = FP_ONE - pe * FP_ONE / self.release;
                proof {
                    assert(0 <= f * f <= 0x1_0000i64 * 0x1_0000i64) by (nonlinear_arith)
                        requires 0 <= f <= 0x1_0000i64;
                    assert((f * f) / (FP_ONE as int) <= FP_ONE) by (nonlinear_arith)
                        requires 0 <= f * f <= 0x1_0000i64 * 0x1_0000i64, FP_ONE == 0x1_0000i64;
                    vstd::arithmetic::div_mod::lemma_div_pos_is_pos(f * f, FP_ONE as int);
                }
                let f2: i64 = f * f / FP_ONE;
                proof {
                    assert(0 <= self.release_value * f2 <= 0x1_0000i64 * 0x1_0000i64)
                        by (nonlinear_arith)
                        requires 0 <= self.release_value <= 0x1_0000i64, 0 <= f2 <= 0x1_0000i64;
                    vstd::arithmetic::div_mod::lemma_div_pos_is_pos(
                        self.release_value * f2, FP_ONE as int);
                }
                self.release_value * f2 / FP_ONE
            },
            EnvelopeState::Finished => 0,
        }
    }

    /// The level never leaves [0, FP_ONE].
    pub proof fn lemma_value_bounds(&self)
        requires
            self.wf(),
        ensures
            0 <= self.spec_value() <= FP_ONE,
    {
        let fp = FP_ONE as int;
        match self.state {
            EnvelopeState::Attack => {
                assert(0 <= (self.pos * fp) / (self.attack as int) <= fp) by (nonlinear_arith)
                    requires 0 <= self.pos < self.attack, 1 <= self.attack, fp == 0x1_0000;
            },
            EnvelopeState::Decay => {
                let pe = if self.pos < self.decay { self.pos as int } else { self.decay as int };
                let f = fp - (pe * fp) / (self.decay as int);
                assert(0 <= f <= fp) by (nonlinear_arith)
                    requires 0 <= pe <= self.decay, 1 <= self.decay, fp == 0x1_0000,
                        f == fp - (pe * fp) / (self.decay as int);
                let f2 = (f * f) / fp;
                assert(0 <= f2 <= fp) by (nonlinear_arith)
                    requires 0 <= f <= fp, fp == 0x1_0000, f2 == (f * f) / fp;
                assert(0 <= f2 + (self.sustain * (fp - f2)) / fp <= fp) by (nonlinear_arith)
                    requires 0 <= f2 <= fp, 0 <= self.sustain <= fp, fp == 0x1_0000;
            },
            EnvelopeState::Sustain => {},
            EnvelopeState::Release => {
                let pe = if self.pos < self.release {
                    self.pos as int
                } else {
                    self.release as int
                };
                let f = fp - (pe * fp) / (self.release as int);
                assert(0 <= f <= fp) by (nonlinear_arith)
                    requires 0 <= pe <= self.release, 1 <= self.release, fp == 0x1_0000,
                        f == fp - (pe * fp) / (self.release as int);
                let f2 = (f * f) / fp;
                assert(0 <= f2 <= fp) by (nonlinear_arith)
                    requires 0 <= f <= fp, fp == 0x1_0000, f2 == (f * f) / fp;
                assert(0 <= (self.release_value * f2) / fp <= fp) by (nonlinear_arith)
                    requires 0 <= f2 <= fp, 0 <= self.release_value <= fp, fp == 0x1_0000;
            },
            EnvelopeState::Finished => {},
        }
    }

    /// Begins the release stage from the level the envelope stands at: the
    /// captured level anchors the release curve, so the level is unchanged
    /// by the call — there is no discontinuity.
    pub fn off(&mut self)
        requires
            old(self).wf(),
        ensures
            final(self).wf(),
            final(self).state == EnvelopeState::Release,
            final(self).pos == 0,
            final(self).release_value == old(self).spec_value(),
            final(self).spec_value() == old(self).spec_value(),
            final(self).attack == old(self).attack,
            final(self).decay == old(self).decay,
            final(self).sustain == old(self).sustain,
            final(self).release == old(self).release,
            final(self).tick == old(self).tick,
            final(self).sample_rate == old(self).sample_rate,
    {
        let v: i64 = self.get_value();
        self.release_value = v;
        self.state = EnvelopeState::Release;
        self.pos = 0;
        proof {
            let fp = FP_ONE as int;
            assert((0int * fp) / (self.release as int) == 0) by (nonlinear_arith)
                requires 1 <= self.release;
            assert((fp * fp) / fp == fp) by (nonlinear_arith)
                requires fp == 0x1_0000;
            assert((self.release_value * fp) / fp == self.release_value) by (nonlinear_arith)
                requires fp == 0x1_0000;
        }
    }

    /// One sample tick: the position advances by the tick, and the stage
    /// moves on exactly when the position reaches the stage's duration —
    /// attack keeps the overshoot, decay pins at sustain, release ends in
    /// silence.
    pub fn next(&mut self)
        requires
            old(self).wf(),
        ensures
            final(self).wf(),
            final(self).attack == old(self).attack,
            final(self).decay == old(self).decay,
            final(self).sustain == old(self).sustain,
            final(self).release == old(self).release,
            final(self).tick == old(self).tick,
            final(self).sample_rate == old(self).sample_rate,
            final(self).release_value == old(self).release_value,
            (match old(self).state {
                EnvelopeState::Attack => {
                    if old(self).pos + old(self).tick >= old(self).attack {
                        final(self).state == EnvelopeState::Decay
                            && final(self).pos == old(self).pos + old(self).tick
                                - old(self).attack
                    } else {
                        final(self).state == EnvelopeState::Attack
                            && final(self).pos == old(self).pos + old(self).tick
                    }
                },
                EnvelopeState::Decay => {
                    if old(self).pos + old(self).tick >= old(self).decay {
                        final(self).state == EnvelopeState::Sustain
                            && final(self).pos == old(self).pos + old(self).tick
                    } else {
                        final(self).state == EnvelopeState::Decay
                            && final(self).pos == old(self).pos + old(self).tick
                    }
                },
                EnvelopeState::Release => {
                    if old(self).pos + old(self).tick >= old(self).release {
                        final(self).state == EnvelopeState::Finished
                            && final(self).pos == old(self).pos + old(self).tick
                    } else {
                        final(self).state == EnvelopeState::Release
                            && final(self).pos == old(self).pos + old(self).tick
                    }
                },
                EnvelopeState::Sustain => *final(self) == *old(self),
                EnvelopeState::Finished => *final(self) == *old(self),
            }),
    {
        match self.state {
            EnvelopeState::Attack => {
                self.pos = self.pos + self.tick;
                if self.pos >= self.attack {
                    self.state = EnvelopeState::Decay;
                    self.pos = self.pos - self.attack;
                }
            },
            EnvelopeState::Decay => {
                self.pos = self.pos + self.tick;
                if self.pos >= self.decay {
                    self.state = EnvelopeState::Sustain;
                }
            },
            EnvelopeState::Release => {
                self.pos = self.pos + self.tick;
                if self.pos >= self.release {
                    self.state = EnvelopeState::Finished;
                }
            },
            EnvelopeState::Sustain => {},
            EnvelopeState::Finished => {},
        }
    }
}

/// During the attack stage the level never decreases: of two attack states
/// of the same envelope, the one further along has the higher level.
pub proof fn lemma_attack_monotonic(e1: Envelope, e2: Envelope)
    requires
        e1.wf(),
        e2.wf(),
        e1.state == EnvelopeState::Attack,
        e2.state == EnvelopeState::Attack,
        e1.attack == e2.attack,
        e1.pos <= e2.pos,
    ensures
        e1.spec_value() <= e2.spec_value(),
{
    let fp = FP_ONE as int;
    assert((e1.pos * fp) / (e1.attack as int) <= (e2.pos * fp) / (e2.attack as int))
        by (nonlinear_arith)
        requires
            0 <= e1.pos <= e2.pos,
            1 <= e1.attack,
            e1.attack == e2.attack,
            fp == 0x1_0000;
}

/// At the very start of the decay stage the level is exactly full scale:
/// the attack ramp hands over at 1.0 before the decay blends down toward
/// the sustain level.
pub proof fn lemma_decay_boundary_full(e: Envelope)
    requires
        e.wf(),
        e.state == EnvelopeState::Decay,
        e.pos == 0,
    ensures
        e.spec_value() == FP_ONE,
{
    let fp = FP_ONE as int;
    assert((0int * fp) / (e.decay as int) == 0) by (nonlinear_arith)
        requires 1 <= e.decay;
    assert((fp * fp) / fp == fp) by (nonlinear_arith)
        requires fp == 0x1_0000;
    assert((e.sustain * 0) / fp == 0) by (nonlinear_arith)
        requires fp == 0x1_0000;
}

} // verus!
