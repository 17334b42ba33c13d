//! Playback-position bookkeeping for a loaded sample.
//!
//! The playback position runs in 32.32 fixed point over the sample frames;
//! each step hands the caller the frame index, the neighbouring frame, and
//! the fractional position between them, and the caller interpolates the
//! actual audio data.  Loop bounds are resolved and clamped here, and the
//! position wraps or reflects according to the loop mode.

use vstd::prelude::*;
use crate::parameters::FP_ONE;

verus! {

/// Fixed-point scale of playback positions: one sample frame.
pub const POS_ONE: i64 = 0x1_0000_0000;

/// Most sample frames a player accepts.
pub const SAMPLE_LEN_MAX: usize = 0x100_0000;

/// How a neighbouring frame is chosen for interpolation.
#[derive(Debug, PartialEq, Eq, Structural, Copy, Clone)]
pub enum InterpolationMode {
    Nearest,
    Linear,
}

/// What happens when the position leaves the loop region.
#[derive(Debug, PartialEq, Eq, Structural, Copy, Clone)]
pub enum LoopMode {
    Disabled,
    Repeat,
    PingPong,
}

/// Where the loop bounds come from.
#[derive(Debug, PartialEq, Eq, Structural, Copy, Clone)]
pub enum LoopBoundaryMode {
    FromSample,
    Manual,
}

/// One step of playback: the frame to read, the neighbour to blend with,
/// and the fractional position between them in 32.32 fixed point.
#[derive(Debug, PartialEq, Eq, Structural, Copy, Clone)]
pub struct SampleStep {
    pub index: usize,
    pub right_index: usize,
    pub right_in_range: bool,
    pub fract: i64,
}

/// How one playback step moves the position: straight on when the loop is
/// off; wrapped back into the loop region by whole loop lengths in repeat
/// mode; reflected off the loop edge, reversing the step, in ping-pong
/// mode.
pub open spec fn spec_pos_advanced(pre: SamplePlayer, post: SamplePlayer) -> bool {
    let moved = pre.sample_pos + pre.sample_delta;
    let end_fp = pre.rounded_loop_end * POS_ONE;
    let len_fp = pre.rounded_loop_len * POS_ONE;
    match pre.loop_mode {
        LoopMode::Disabled => {
            &&& post.sample_pos == moved
            &&& post.sample_delta == pre.sample_delta
            &&& post.reverse_now == pre.reverse_now
        },
        LoopMode::Repeat => {
            &&& post.sample_delta == pre.sample_delta
            &&& post.reverse_now == pre.reverse_now
            &&& (pre.sample_delta > 0 ==> (if moved < end_fp {
                post.sample_pos == moved
            } else {
                &&& end_fp - len_fp <= post.sample_pos < end_fp
                &&& exists|k: int| k >= 0 && post.sample_pos == moved - #[trigger] (k * len_fp)
            }))
            &&& (pre.sample_delta <= 0 ==> (if moved >= end_fp {
                post.sample_pos == moved
            } else {
                &&& end_fp <= post.sample_pos < end_fp + len_fp
                &&& exists|k: int| k >= 0 && post.sample_pos == moved + #[trigger] (k * len_fp)
            }))
        },
        LoopMode::PingPong => {
            if pre.sample_delta > 0 && moved >= end_fp {
                &&& post.sample_pos == end_fp - POS_ONE
                &&& post.sample_delta == -pre.sample_delta
                &&& post.reverse_now == !pre.reverse_now
            } else if pre.sample_delta < 0 && moved < end_fp - len_fp {
                &&& post.sample_pos == end_fp - len_fp
                &&& post.sample_delta == -pre.sample_delta
                &&& post.reverse_now == !pre.reverse_now
            } else {
                &&& post.sample_pos == moved
                &&& post.sample_delta == pre.sample_delta
                &&& post.reverse_now == pre.reverse_now
            }
        },
    }
}

/// The loop bounds `run_prep` installs: the raw start and length come
/// from the sample's own loop marks, or — in manual mode — from the loop
/// fractions of the frame count; then the length is floored at one frame,
/// the start is clamped into the sample, and the end is capped at the
/// sample's last frame, shortening the length to fit.  Returns
/// (start, length, end).
pub open spec fn spec_loop_bounds(sp: SamplePlayer) -> (int, int, int) {
    let len_s = sp.sample_len as int;
    let raw_start = if sp.loop_boundary_mode == LoopBoundaryMode::FromSample {
        sp.sample_loop_start as int
    } else {
        (len_s * sp.loop_start) / (FP_ONE as int)
    };
    let raw_len = if sp.loop_boundary_mode == LoopBoundaryMode::FromSample {
        sp.sample_loop_length as int
    } else {
        (len_s * sp.loop_length) / (FP_ONE as int)
    };
    let len1 = if raw_len < 1 {
        1int
    } else {
        raw_len
    };
    let start1 = if raw_start >= len_s {
        len_s - 1
    } else {
        raw_start
    };
    let start2 = if start1 < 0 {
        0int
    } else {
        start1
    };
    let len2 = if len1 > len_s {
        len_s
    } else {
        len1
    };
    let end1 = start2 + len2;
    if end1 > len_s {
        (start2, len_s - start2, len_s)
    } else {
        (start2, len2, end1)
    }
}

/// The playback-position engine of the sample player.
pub struct SamplePlayer {
    pub sample_rate: u32,
    pub is_active: bool,
    pub sample_start: i64,
    pub reverse: bool,
    pub loop_mode: LoopMode,
    pub loop_boundary_mode: LoopBoundaryMode,
    pub loop_start: i64,
    pub loop_length: i64,
    pub interpolation_mode: InterpolationMode,
    pub sample_len: usize,
    pub sample_loop_start: i64,
    pub sample_loop_length: i64,
    pub rounded_loop_start: i64,
    pub rounded_loop_len: i64,
    pub rounded_loop_end: i64,
    pub sample_pos: i64,
    pub sample_delta: i64,
    pub reverse_now: bool,
}

impl SamplePlayer {
    /// Well-formedness: normalized controls, a bounded frame count, and a
    /// position and step that stay within a wide safe band.
    pub open spec fn wf(&self) -> bool {
        &&& 1 <= self.sample_rate <= 1_000_000
        &&& 0 <= self.sample_start <= FP_ONE
        &&& 0 <= self.loop_start <= FP_ONE
        &&& 0 <= self.loop_length <= FP_ONE
        &&& self.sample_len <= SAMPLE_LEN_MAX
        &&& -(POS_ONE as int) * SAMPLE_LEN_MAX <= self.sample_loop_start <= (POS_ONE as int)
            * SAMPLE_LEN_MAX
        &&& -(POS_ONE as int) * SAMPLE_LEN_MAX <= self.sample_loop_length <= (POS_ONE as int)
            * SAMPLE_LEN_MAX
        &&& -(POS_ONE as int) * SAMPLE_LEN_MAX <= self.sample_pos <= 2 * (POS_ONE as int)
            * SAMPLE_LEN_MAX
        &&& -(128 * POS_ONE as int) <= self.sample_delta <= 128 * POS_ONE as int
        &&& 0 <= self.rounded_loop_start <= SAMPLE_LEN_MAX
        &&& 1 <= self.rounded_loop_len <= SAMPLE_LEN_MAX
        &&& 1 <= self.rounded_loop_end <= SAMPLE_LEN_MAX
    }

    /// A fresh, inactive player: looping over the whole sample, linear
    /// interpolation, forward playback.
    pub fn new(sample_rate: u32) -> (sp: SamplePlayer)
        requires
            1 <= sample_rate <= 1_000_000,
        ensures
            sp.wf(),
            sp.sample_rate == sample_rate,
            !sp.is_active,
            !sp.reverse,
            sp.loop_mode == LoopMode::Repeat,
            sp.loop_boundary_mode == LoopBoundaryMode::FromSample,
            sp.loop_start == 0,
            sp.loop_length == FP_ONE,
            sp.interpolation_mode == InterpolationMode::Linear,
            sp.sample_len == 0,
            sp.sample_pos == 0,
            sp.sample_delta == 0,
    {
        SamplePlayer {
            sample_rate,
            is_active: false,
            sample_start: 0,
            reverse: false,
            loop_mode: LoopMode::Repeat,
            loop_boundary_mode: LoopBoundaryMode::FromSample,
            loop_start: 0,
            loop_length: FP_ONE,
            interpolation_mode: InterpolationMode::Linear,
            sample_len: 0,
            sample_loop_start: 0,
            sample_loop_length: 0,
            rounded_loop_start: 0,
            rounded_loop_len: 1,
            rounded_loop_end: 1,
            sample_pos: 0,
            sample_delta: 0,
            reverse_now: false,
        }
    }

    /// Sets the per-frame position step from the caller-computed pitch
    /// ratio (two to the power of the note over twelve, in 32.32 fixed
    /// point); reversed playback steps backward.
    pub fn calc_pitch(&mut self, freq_delta: i64)
        requires
            old(self).wf(),
            0 <= freq_delta <= 128 * POS_ONE,
        ensures
            final(self).wf(),
            final(self).sample_delta == (if !old(self).reverse_now {
                freq_delta as int
            } else {
                -freq_delta as int
            }),
            *final(self) == (SamplePlayer {
                sample_delta: final(self).sample_delta,
                ..*old(self)
            }),
    {
        if !self.reverse_now {
            self.sample_delta = freq_delta;
        } else {
            self.sample_delta = -freq_delta;
        }
    }

    /// Activates playback at the configured start position: a fraction of
    /// the way into the sample, from the far end when reversed.
    pub fn init_pos(&mut self)
        requires
            old(self).wf(),
            1 <= old(self).sample_len,
        ensures
            final(self).wf(),
            final(self).is_active,
            final(self).reverse_now == old(self).reverse,
            final(self).sample_pos == (if !old(self).reverse {
                (old(self).sample_start * (old(self).sample_len - 1)) * (POS_ONE as int)
                    / (FP_ONE as int)
            } else {
                ((FP_ONE - old(self).sample_start) * (old(self).sample_len - 1)) * (
                POS_ONE as int) / (FP_ONE as int)
            }),
            final(self).sample_len == old(self).sample_len,
            final(self).loop_mode == old(self).loop_mode,
            final(self).sample_delta == old(self).sample_delta,
            final(self).rounded_loop_start == old(self).rounded_loop_start,
            final(self).rounded_loop_len == old(self).rounded_loop_len,
            final(self).rounded_loop_end == old(self).rounded_loop_end,
            final(self).interpolation_mode == old(self).interpolation_mode,
    {
        self.reverse_now = self.reverse;
        self.is_active = true;
        let frac: i64 = if !self.reverse_now {
            self.sample_start
        } else {
            FP_ONE - self.sample_start
        };
        proof {
            let a = frac as int * ((self.sample_len - 1) as int);
            assert(0 <= a <= 0x1_0000i64 * 0x100_0000i64) by (nonlinear_arith)
                requires 0 <= frac <= 0x1_0000i64, 1 <= self.sample_len <= 0x100_0000usize,
                    a == frac as int * ((self.sample_len - 1) as int);
            assert(a * 0x1_0000 == (a * (POS_ONE as int)) / (FP_ONE as int)
                && 0 <= a * 0x1_0000 <= 0x1_0000i64 * 0x100_0000i64 * 0x1_0000i64)
                by (nonlinear_arith)
                requires 0 <= a <= 0x1_0000i64 * 0x100_0000i64,
                    FP_ONE == 0x1_0000i64, POS_ONE == 0x1_0000_0000i64;
        }
        self.sample_pos = frac * ((self.sample_len - 1) as i64) * (POS_ONE / FP_ONE);
    }

    /// Resolves the loop bounds for the coming block: taken from the
    /// sample's own loop marks or from the manual fractions, then clamped
    /// so the loop is at least one frame long and lies inside the sample.
    pub fn run_prep(&mut self)
        requires
            old(self).wf(),
            1 <= old(self).sample_len,
        ensures
            final(self).wf(),
            1 <= final(self).rounded_loop_len <= final(self).sample_len,
            0 <= final(self).rounded_loop_start < final(self).sample_len,
            final(self).rounded_loop_end == final(self).rounded_loop_start
                + final(self).rounded_loop_len,
            final(self).rounded_loop_end <= final(self).sample_len,
            ({
                let (start, len, end) = spec_loop_bounds(*old(self));
                &&& final(self).rounded_loop_start == start
                &&& final(self).rounded_loop_len == len
                &&& final(self).rounded_loop_end == end
            }),
            *final(self) == (SamplePlayer {
                rounded_loop_start: final(self).rounded_loop_start,
                rounded_loop_len: final(self).rounded_loop_len,
                rounded_loop_end: final(self).rounded_loop_end,
                ..*old(self)
            }),
    {
        let from_sample = matches!(self.loop_boundary_mode, LoopBoundaryMode::FromSample);
        if from_sample {
            self.rounded_loop_start = self.sample_loop_start;
            self.rounded_loop_len = self.sample_loop_length;
        } else {
            proof {
                assert(0 <= (self.sample_len as i64) * self.loop_start
                    <= 0x100_0000i64 * 0x1_0000i64) by (nonlinear_arith)
                    requires 0 <= self.loop_start <= 0x1_0000i64,
                        self.sample_len <= 0x100_0000usize;
                assert(0 <= (self.sample_len as i64) * self.loop_length
                    <= 0x100_0000i64 * 0x1_0000i64) by (nonlinear_arith)
                    requires 0 <= self.loop_length <= 0x1_0000i64,
                        self.sample_len <= 0x100_0000usize;
                vstd::arithmetic::div_mod::lemma_div_pos_is_pos(
                    (self.sample_len as int) * self.loop_start as int, FP_ONE as int);
                vstd::arithmetic::div_mod::lemma_div_pos_is_pos(
                    (self.sample_len as int) * self.loop_length as int, FP_ONE as int);
                assert(((self.sample_len as int) * self.loop_start as int) / (FP_ONE as int)
                    <= 0x100_0000i64) by (nonlinear_arith)
                    requires 0 <= (self.sample_len as int) * self.loop_start as int
                        <= 0x100_0000i64 * 0x1_0000i64, FP_ONE == 0x1_0000i64;
                assert(((self.sample_len as int) * self.loop_length as int) / (FP_ONE as int)
                    <= 0x100_0000i64) by (nonlinear_arith)
                    requires 0 <= (self.sample_len as int) * self.loop_length as int
                        <= 0x100_0000i64 * 0x1_0000i64, FP_ONE == 0x1_0000i64;
            }
            self.rounded_loop_start = (self.sample_len as i64) * self.loop_start / FP_ONE;
            self.rounded_loop_len = (self.sample_len as i64) * self.loop_length / FP_ONE;
        }
        if self.rounded_loop_len < 1 {
            self.rounded_loop_len = 1;
        }
        if self.rounded_loop_start >= self.sample_len as i64 {
            self.rounded_loop_start = self.sample_len as i64 - 1;
        }
        if self.rounded_loop_start < 0 {
            self.rounded_loop_start = 0;
        }
        if self.rounded_loop_len > self.sample_len as i64 {
            self.rounded_loop_len = self.sample_len as i64;
        }
        self.rounded_loop_end = self.rounded_loop_start + self.rounded_loop_len;
        if self.rounded_loop_end > self.sample_len as i64 {
            self.rounded_loop_end = self.sample_len as i64;
            self.rounded_loop_len = self.rounded_loop_end - self.rounded_loop_start;
        }
    }

    /// One step of playback.  A position outside the sample deactivates
    /// the player and yields nothing.  Otherwise the caller gets the frame
    /// pair and blend fraction for the current position, and the position
    /// advances by the pitch step: past the loop end it wraps back by
    /// whole loop lengths in repeat mode, or reflects and reverses in
    /// ping-pong mode.
    pub fn next(&mut self) -> (r: Option<SampleStep>)
        requires
            old(self).wf(),
            1 <= old(self).sample_len,
            old(self).rounded_loop_end <= old(self).sample_len,
            old(self).rounded_loop_len <= old(self).rounded_loop_end,
        ensures
            final(self).wf(),
            final(self).sample_len == old(self).sample_len,
            final(self).rounded_loop_start == old(self).rounded_loop_start,
            final(self).rounded_loop_len == old(self).rounded_loop_len,
            final(self).rounded_loop_end == old(self).rounded_loop_end,
            ({
                let pos = old(self).sample_pos as int;
                let idx = pos / (POS_ONE as int);
                if pos < 0 || idx >= old(self).sample_len {
                    &&& r is None
                    &&& !final(self).is_active
                    &&& final(self).sample_pos == old(self).sample_pos
                } else {
                    &&& r is Some
                    &&& r->0.index == idx
                    &&& r->0.fract == pos % (POS_ONE as int)
                    &&& r->0.right_index == (
                    if old(self).loop_mode == LoopMode::Repeat && idx + 1
                        == old(self).rounded_loop_end {
                        old(self).rounded_loop_start as int
                    } else {
                        idx + 1
                    })
                    &&& r->0.right_in_range == (r->0.right_index < old(self).sample_len)
                    &&& final(self).is_active == old(self).is_active
                    &&& spec_pos_advanced(*old(self), *final(self))
                }
            }),
    {
        let pos: i64 = self.sample_pos;
        proof {
            if pos >= 0 {
                vstd::arithmetic::div_mod::lemma_div_pos_is_pos(pos as int, POS_ONE as int);
                vstd::arithmetic::div_mod::lemma_mod_bound(pos as int, POS_ONE as int);
                vstd::arithmetic::div_mod::lemma_fundamental_div_mod(pos as int, POS_ONE as int);
                assert((pos as int) / (POS_ONE as int) <= pos) by (nonlinear_arith)
                    requires pos >= 0, POS_ONE == 0x1_0000_0000i64,
                        pos as int == POS_ONE as int * (pos as int / (POS_ONE as int)) + (
                        pos as int) % (POS_ONE as int),
                        0 <= (pos as int) % (POS_ONE as int);
            }
        }
        if pos < 0 || pos / POS_ONE >= self.sample_len as i64 {
            self.is_active = false;
            return None;
        }
        let idx: i64 = pos / POS_ONE;
        let fract: i64 = pos % POS_ONE;
        let is_repeat = matches!(self.loop_mode, LoopMode::Repeat);
        let right: i64 = if is_repeat && idx + 1 == self.rounded_loop_end {
            self.rounded_loop_start
        } else {
            idx + 1
        };
        let step = SampleStep {
            index: idx as usize,
            right_index: right as usize,
            right_in_range: right < self.sample_len as i64,
            fract,
        };
        self.advance();
        Some(step)
    }

    /// Advances the position by the pitch step and applies the loop mode.
    fn advance(&mut self)
        requires
            old(self).wf(),
            old(self).rounded_loop_end <= old(self).sample_len,
            old(self).rounded_loop_len <= old(self).rounded_loop_end,
            0 <= old(self).sample_pos <= (POS_ONE as int) * SAMPLE_LEN_MAX,
        ensures
            final(self).wf(),
            final(self).sample_len == old(self).sample_len,
            final(self).is_active == old(self).is_active,
            final(self).rounded_loop_start == old(self).rounded_loop_start,
            final(self).rounded_loop_len == old(self).rounded_loop_len,
            final(self).rounded_loop_end == old(self).rounded_loop_end,
            spec_pos_advanced(*old(self), *final(self)),
    {
        self.sample_pos = self.sample_pos + self.sample_delta;
        let ghost moved = self.sample_pos as int;
        let end_fp: i64 = self.rounded_loop_end * POS_ONE;
        let len_fp: i64 = self.rounded_loop_len * POS_ONE;
        proof {
            assert(end_fp <= 0x100_0000i64 * POS_ONE as int && len_fp >= POS_ONE
                && len_fp <= end_fp) by (nonlinear_arith)
                requires 1 <= self.rounded_loop_len <= self.rounded_loop_end
                    <= 0x100_0000i64, POS_ONE == 0x1_0000_0000i64,
                    end_fp == self.rounded_loop_end * POS_ONE,
                    len_fp == self.rounded_loop_len * POS_ONE;
        }
        let is_repeat = matches!(self.loop_mode, LoopMode::Repeat);
        let is_pingpong = matches!(self.loop_mode, LoopMode::PingPong);
        if is_repeat {
            if self.sample_delta > 0 {
                let ghost mut k: int = 0;
                while self.sample_pos >= end_fp
                    invariant
                        POS_ONE <= len_fp <= end_fp <= 0x100_0000i64 * (POS_ONE as int),
                        self.sample_pos >= 0,
                        self.sample_pos <= 2 * (POS_ONE as int) * SAMPLE_LEN_MAX,
                        k >= 0,
                        self.sample_pos == moved - k * len_fp,
                        k > 0 ==> self.sample_pos >= end_fp - len_fp,
                        k > 0 ==> moved >= end_fp,
                        k == 0 ==> self.sample_pos == moved,
                        *self == (SamplePlayer { sample_pos: self.sample_pos, ..*old(self) }),
                    decreases self.sample_pos,
                {
                    proof {
                        assert((k + 1) * len_fp == k * len_fp + len_fp) by (nonlinear_arith);
                    }
                    self.sample_pos = self.sample_pos - len_fp;
                    proof {
                        k = k + 1;
                    }
                }
            } else {
                let ghost mut k: int = 0;
                while self.sample_pos < end_fp
                    invariant
                        POS_ONE <= len_fp <= end_fp <= 0x100_0000i64 * (POS_ONE as int),
                        -(128 * (POS_ONE as int)) <= self.sample_pos
                            || self.sample_pos >= end_fp,
                        self.sample_pos <= 2 * (POS_ONE as int) * SAMPLE_LEN_MAX,
                        k >= 0,
                        self.sample_pos == moved + k * len_fp,
                        k > 0 ==> self.sample_pos < end_fp + len_fp,
                        k > 0 ==> moved < end_fp,
                        k == 0 ==> self.sample_pos == moved,
                        *self == (SamplePlayer { sample_pos: self.sample_pos, ..*old(self) }),
                    decreases end_fp + len_fp - self.sample_pos,
                {
                    proof {
                        assert((k + 1) * len_fp == k * len_fp + len_fp) by (nonlinear_arith);
                    }
                    self.sample_pos = self.sample_pos + len_fp;
                    proof {
                        k = k + 1;
                    }
                }
            }
        } else if is_pingpong {
            if self.sample_delta > 0 && self.sample_pos >= end_fp {
                self.sample_pos = end_fp - POS_ONE;
                self.sample_delta = -self.sample_delta;
                self.reverse_now = !self.reverse_now;
            } else if self.sample_delta < 0 && self.sample_pos < (end_fp - len_fp) {
                self.sample_pos = end_fp - len_fp;
                self.sample_delta = -self.sample_delta;
                self.reverse_now = !self.reverse_now;
            }
        }
    }
}

} // verus!
