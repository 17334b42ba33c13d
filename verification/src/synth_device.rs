//! The polyphonic engine: per-voice note state, the event queue, and the
//! sample-accurate scheduler.
//!
//! Notes are MIDI-like integers; fractional pitch (for glides) is fixed
//! point with `NOTE_ONE` standing for one semitone.  The scheduler walks a
//! callback block in event-bounded chunks, firing every queued event at
//! exactly the sample offset its delta named.

use vstd::prelude::*;
use crate::parameters::FP_ONE;
use crate::parameters::VoiceMode;
use crate::helpers::spec_tdiv;
use crate::helpers::tdiv;

verus! {

/// Fixed-point scale of fractional notes: one semitone.
pub const NOTE_ONE: i64 = 0x1_0000_0000;

/// Longest accepted glide, in samples.
pub const SLIDE_MAX: i64 = 0x1_0000_0000;

/// How many voice slots the engine owns.
pub const VOICE_COUNT: usize = 256;

/// How many event slots the queue owns.
pub const EVENT_COUNT: usize = 256;

/// How many distinct note numbers exist.
pub const NOTE_RANGE: usize = 128;

/// What a queued event does.
#[derive(Debug, PartialEq, Eq, Structural, Clone, Copy)]
pub enum EventType {
    Empty,
    NoteOn,
    NoteOff,
}

/// One slot of the event queue.
#[derive(Debug, PartialEq, Eq, Structural, Clone, Copy)]
pub struct Event {
    pub typ: EventType,
    pub delta_samples: i64,
    pub note: i32,
    pub velocity: i32,
}

impl Event {
    /// An empty queue slot.
    pub fn new() -> (e: Event)
        ensures
            e.typ == EventType::Empty,
            e.delta_samples == 0,
            e.note == 0,
            e.velocity == 0,
    {
        Event { typ: EventType::Empty, delta_samples: 0, note: 0, velocity: 0 }
    }

    /// Empties the slot, leaving the payload fields as they were.
    pub fn clear(&mut self)
        ensures
            final(self).typ == EventType::Empty,
            final(self).delta_samples == old(self).delta_samples,
            final(self).note == old(self).note,
            final(self).velocity == old(self).velocity,
    {
        self.typ = EventType::Empty;
    }
}

/// Per-slot runtime note state, independent of any signal algorithm.
#[derive(Debug, PartialEq, Clone, Copy)]
pub struct VoiceData {
    pub sample_rate: u32,
    pub is_on: bool,
    pub note: i32,
    pub detune: i64,
    pub pan: i64,
    pub vibrato_phase: u64,
    pub slide_active: bool,
    pub slide_delta: i64,
    pub slide_samples: i64,
    pub destination_note: i32,
    pub current_note: i64,
}

impl VoiceData {
    /// The fixed-point pitch the slide is headed for.
    pub open spec fn dest_fp(&self) -> int {
        self.destination_note * NOTE_ONE
    }

    /// Well-formedness: notes stay in range, pan and detune stay
    /// normalized, and an active slide can never step the pitch past its
    /// destination — the remaining steps always fit in the remaining
    /// distance.
    pub open spec fn wf(&self) -> bool {
        &&& 1 <= self.sample_rate <= 1_000_000
        &&& 0 <= self.note < NOTE_RANGE
        &&& 0 <= self.destination_note < NOTE_RANGE
        &&& 0 <= self.current_note <= 127 * NOTE_ONE
        &&& 0 <= self.pan <= FP_ONE
        &&& 0 <= self.detune <= FP_ONE
        &&& (self.slide_active ==> {
            &&& 0 <= self.slide_samples <= SLIDE_MAX
            &&& (self.slide_delta > 0 ==> self.current_note + self.slide_delta * (
            self.slide_samples + 1) <= self.dest_fp())
            &&& (self.slide_delta < 0 ==> self.current_note + self.slide_delta * (
            self.slide_samples + 1) >= self.dest_fp())
        })
    }

    /// A silent, centred voice slot.
    pub fn new(sample_rate: u32) -> (v: VoiceData)
        requires
            1 <= sample_rate <= 1_000_000,
        ensures
            v.wf(),
            v.sample_rate == sample_rate,
            !v.is_on,
            v.note == 0,
            v.detune == 0,
            v.pan == FP_ONE / 2,
            v.vibrato_phase == 0,
            !v.slide_active,
            v.current_note == 0,
    {
        VoiceData {
            sample_rate,
            is_on: false,
            note: 0,
            detune: 0,
            pan: FP_ONE / 2,
            vibrato_phase: 0,
            slide_active: false,
            slide_delta: 0,
            slide_samples: 0,
            destination_note: 0,
            current_note: 0,
        }
    }

    /// Starts the slot sounding the given note, with its unisono detune
    /// and pan position; any running glide is dropped.
    pub fn note_on(&mut self, note: i32, _velocity: i32, detune: i64, pan: i64)
        requires
            old(self).wf(),
            0 <= note < NOTE_RANGE,
            0 <= detune <= FP_ONE,
            0 <= pan <= FP_ONE,
        ensures
            final(self).wf(),
            final(self).is_on,
            final(self).note == note,
            final(self).detune == detune,
            final(self).pan == pan,
            final(self).current_note == note * NOTE_ONE,
            !final(self).slide_active,
            final(self).sample_rate == old(self).sample_rate,
            final(self).vibrato_phase == old(self).vibrato_phase,
    {
        self.is_on = true;
        self.note = note;
        self.detune = detune;
        self.pan = pan;
        proof {
            assert(0 <= note * NOTE_ONE <= 127 * NOTE_ONE) by (nonlinear_arith)
                requires 0 <= note < 128, NOTE_ONE == 0x1_0000_0000i64;
        }
        self.current_note = (note as i64) * NOTE_ONE;
        self.slide_active = false;
    }

    /// A released slot; the voice algorithm decides what release means.
    pub fn note_off(&mut self)
        ensures
            *final(self) == *old(self),
    {
    }

    /// Begins a linear glide from the current pitch to the given note over
    /// the given number of samples: the per-sample step is the remaining
    /// distance split evenly, rounded toward zero, so the glide can never
    /// overshoot.
    pub fn note_slide(&mut self, slide_samples: i64, note: i32)
        requires
            old(self).wf(),
            0 <= note < NOTE_RANGE,
            0 <= slide_samples <= SLIDE_MAX,
        ensures
            final(self).wf(),
            final(self).slide_active,
            final(self).destination_note == note,
            final(self).slide_samples == slide_samples,
            final(self).slide_delta == spec_tdiv(
                note * NOTE_ONE - old(self).current_note, slide_samples + 1),
            final(self).current_note == old(self).current_note,
            final(self).is_on == old(self).is_on,
            final(self).note == old(self).note,
            final(self).detune == old(self).detune,
            final(self).pan == old(self).pan,
            final(self).sample_rate == old(self).sample_rate,
    {
        self.slide_active = true;
        self.destination_note = note;
        proof {
            assert(0 <= note * NOTE_ONE <= 127 * NOTE_ONE) by (nonlinear_arith)
                requires 0 <= note < 128, NOTE_ONE == 0x1_0000_0000i64;
        }
        let diff: i64 = (note as i64) * NOTE_ONE - self.current_note;
        let delta: i64 = tdiv(diff, slide_samples + 1);
        proof {
            let n1 = (slide_samples + 1) as int;
            if diff >= 0 {
                let q = (diff as int) / n1;
                vstd::arithmetic::div_mod::lemma_fundamental_div_mod(diff as int, n1);
                vstd::arithmetic::div_mod::lemma_mod_bound(diff as int, n1);
                vstd::arithmetic::div_mod::lemma_div_pos_is_pos(diff as int, n1);
                assert(delta == q);
                assert(q * n1 <= diff) by (nonlinear_arith)
                    requires
                        n1 >= 1,
                        diff as int == n1 * q + (diff as int) % n1,
                        0 <= (diff as int) % n1 < n1;
            } else {
                let q = (-diff as int) / n1;
                vstd::arithmetic::div_mod::lemma_fundamental_div_mod(-diff as int, n1);
                vstd::arithmetic::div_mod::lemma_mod_bound(-diff as int, n1);
                vstd::arithmetic::div_mod::lemma_div_pos_is_pos(-diff as int, n1);
                assert(delta == -q);
                assert((-q) * n1 >= diff) by (nonlinear_arith)
                    requires
                        n1 >= 1,
                        -diff as int == n1 * q + (-diff as int) % n1,
                        0 <= (-diff as int) % n1 < n1;
            }
        }
        self.slide_delta = delta;
        self.slide_samples = slide_samples;
    }

    /// One sample of pitch: while a glide runs the pitch takes one step
    /// toward the destination and the counter falls; when the counter runs
    /// out the pitch snaps exactly onto the destination note and the glide
    /// ends.  Returns the pitch after the step.
    pub fn get_note(&mut self) -> (r: i64)
        requires
            old(self).wf(),
        ensures
            final(self).wf(),
            r == final(self).current_note,
            final(self).is_on == old(self).is_on,
            final(self).detune == old(self).detune,
            final(self).pan == old(self).pan,
            final(self).sample_rate == old(self).sample_rate,
            !old(self).slide_active ==> *final(self) == *old(self) && r == old(self).current_note,
            old(self).slide_active && old(self).slide_samples >= 1 ==> {
                &&& final(self).slide_active
                &&& final(self).current_note == old(self).current_note + old(self).slide_delta
                &&& final(self).slide_samples == old(self).slide_samples - 1
                &&& final(self).note == old(self).note
            },
            old(self).slide_active && old(self).slide_samples == 0 ==> {
                &&& !final(self).slide_active
                &&& final(self).current_note == old(self).destination_note * NOTE_ONE
                &&& final(self).note == old(self).destination_note
            },
    {
        if self.slide_active {
            proof {
                assert(self.slide_delta > 0 ==> self.slide_delta <= self.slide_delta * (
                    self.slide_samples + 1)) by (nonlinear_arith)
                    requires self.slide_samples >= 0;
                assert(self.slide_delta < 0 ==> self.slide_delta >= self.slide_delta * (
                    self.slide_samples + 1)) by (nonlinear_arith)
                    requires self.slide_samples >= 0;
            }
            self.current_note = self.current_note + self.slide_delta;
            self.slide_samples = self.slide_samples - 1;
            if self.slide_samples < 0 {
                self.note = self.destination_note;
                self.slide_active = false;
                proof {
                    assert(0 <= self.destination_note * NOTE_ONE <= 127 * NOTE_ONE)
                        by (nonlinear_arith)
                        requires 0 <= self.destination_note < 128, NOTE_ONE == 0x1_0000_0000i64;
                }
                self.current_note = (self.destination_note as i64) * NOTE_ONE;
            } else {
                proof {
                    let d = old(self).slide_delta as int;
                    let s = old(self).slide_samples as int;
                    let c = old(self).current_note as int;
                    let dn = old(self).destination_note as int;
                    let dest = old(self).dest_fp();
                    assert(d > 0 ==> c + d + d * s <= dest) by (nonlinear_arith)
                        requires c + d * (s + 1) <= dest || d <= 0;
                    assert(d < 0 ==> c + d + d * s >= dest) by (nonlinear_arith)
                        requires c + d * (s + 1) >= dest || d >= 0;
                    assert(0 <= dest <= 127 * NOTE_ONE) by (nonlinear_arith)
                        requires dest == dn * NOTE_ONE, 0 <= dn < 128,
                            NOTE_ONE == 0x1_0000_0000i64;
                    assert(d >= 0 ==> d * s >= 0) by (nonlinear_arith)
                        requires s >= 0;
                    assert(d > 0 ==> d * (s + 1) >= 0) by (nonlinear_arith)
                        requires s >= 0;
                    assert(d < 0 ==> d * s <= 0) by (nonlinear_arith)
                        requires s >= 0;
                }
            }
        }
        self.current_note
    }
}

/// How many voices are sounding at or after index `k`.
pub open spec fn count_on_from(vds: Seq<VoiceData>, k: int) -> int
    decreases vds.len() - k,
{
    if k < 0 || k >= vds.len() {
        0
    } else {
        (if vds[k].is_on { 1int } else { 0int }) + count_on_from(vds, k + 1)
    }
}

/// How many voices are sounding.
pub open spec fn spec_count_on(vds: Seq<VoiceData>) -> int {
    count_on_from(vds, 0)
}

/// The count over a suffix depends only on the `is_on` flags in it.
pub proof fn lemma_count_congruent(a: Seq<VoiceData>, b: Seq<VoiceData>, k: int)
    requires
        a.len() == b.len(),
        forall|i: int| k <= i < a.len() ==> a[i].is_on == b[i].is_on,
    ensures
        count_on_from(a, k) == count_on_from(b, k),
    decreases a.len() - k,
{
    if 0 <= k < a.len() {
        lemma_count_congruent(a, b, k + 1);
    }
}

/// Updating one slot changes the count by the difference of its flag.
pub proof fn lemma_count_update(s: Seq<VoiceData>, i: int, v: VoiceData, k: int)
    requires
        0 <= i < s.len(),
        0 <= k <= i,
    ensures
        count_on_from(s.update(i, v), k) == count_on_from(s, k)
            - (if s[i].is_on { 1int } else { 0int }) + (if v.is_on { 1int } else { 0int }),
    decreases i - k,
{
    if k < i {
        lemma_count_update(s, i, v, k + 1);
        assert(s.update(i, v)[k] == s[k]);
        assert(count_on_from(s.update(i, v), k) == (if s.update(i, v)[k].is_on { 1int } else {
            0int
        }) + count_on_from(s.update(i, v), k + 1));
        assert(count_on_from(s, k) == (if s[k].is_on { 1int } else { 0int })
            + count_on_from(s, k + 1));
    } else {
        assert(forall|j: int| i + 1 <= j < s.len() ==> s.update(i, v)[j] == s[j]);
        lemma_count_congruent(s.update(i, v), s, i + 1);
        assert(s.update(i, v)[i] == v);
        assert(count_on_from(s.update(i, v), i) == (if v.is_on { 1int } else { 0int })
            + count_on_from(s.update(i, v), i + 1));
        assert(count_on_from(s, i) == (if s[i].is_on { 1int } else { 0int })
            + count_on_from(s, i + 1));
    }
}

/// The first queue slot at or after `from` that is empty, or the queue
/// length if none is.
pub open spec fn first_empty(evs: Seq<Event>, from: int) -> int
    decreases evs.len() - from,
{
    if from < 0 || from >= evs.len() {
        evs.len() as int
    } else if evs[from].typ == EventType::Empty {
        from
    } else {
        first_empty(evs, from + 1)
    }
}

/// An active glide only ever moves the pitch toward its destination: one
/// step from a well-formed sliding voice lands between the pitch it left
/// and the destination note, whichever direction the glide runs.
pub proof fn lemma_slide_monotonic(v: VoiceData)
    requires
        v.wf(),
        v.slide_active,
    ensures
        v.slide_delta > 0 ==> v.current_note <= v.current_note + v.slide_delta <= v.dest_fp(),
        v.slide_delta < 0 ==> v.dest_fp() <= v.current_note + v.slide_delta <= v.current_note,
        v.slide_delta == 0 ==> v.current_note + v.slide_delta == v.current_note,
{
    let d = v.slide_delta as int;
    let s = v.slide_samples as int;
    assert(d > 0 ==> d <= d * (s + 1)) by (nonlinear_arith)
        requires s >= 0;
    assert(d < 0 ==> d >= d * (s + 1)) by (nonlinear_arith)
        requires s >= 0;
}

/// Whether the list of fired events holds this exact event.
pub open spec fn has_event(s: Seq<Event>, e: Event) -> bool {
    exists|k: int| 0 <= k < s.len() && s[k] == e
}

/// Whether the list holds this exact fired-event record.
pub open spec fn has_fired(s: Seq<FiredEvent>, f: FiredEvent) -> bool {
    exists|k: int| 0 <= k < s.len() && s[k] == f
}

/// Device-wide performance parameters.
#[derive(Debug, PartialEq, Clone, Copy)]
pub struct SynthDeviceParams {
    pub master_level: i64,
    pub voices_unisono: i64,
    pub voices_detune: i64,
    pub voices_pan: i64,
    pub vibrato_freq: i64,
    pub vibrato_amount: i64,
    pub rise: i64,
    pub slide: i64,
    pub voice_mode: VoiceMode,
}

impl SynthDeviceParams {
    /// Normalized ranges for every knob.
    pub open spec fn wf(&self) -> bool {
        &&& 0 <= self.master_level <= FP_ONE
        &&& 1 <= self.voices_unisono <= 16
        &&& 0 <= self.voices_detune <= FP_ONE
        &&& 0 <= self.voices_pan <= FP_ONE
        &&& 0 <= self.vibrato_freq <= 77 * FP_ONE
        &&& 0 <= self.vibrato_amount <= FP_ONE
        &&& 0 <= self.rise <= FP_ONE
        &&& 0 <= self.slide <= FP_ONE
    }

    /// The defaults: one centred voice, no detune, no vibrato, no glide.
    pub fn new() -> (p: SynthDeviceParams)
        ensures
            p.wf(),
            p.master_level == 0,
            p.voices_unisono == 1,
            p.voices_detune == 0,
            p.voices_pan == FP_ONE / 2,
            p.vibrato_freq == 0,
            p.vibrato_amount == 0,
            p.rise == 0,
            p.slide == 0,
            p.voice_mode == VoiceMode::Polyphonic,
    {
        SynthDeviceParams {
            master_level: 0,
            voices_unisono: 1,
            voices_detune: 0,
            voices_pan: FP_ONE / 2,
            vibrato_freq: 0,
            vibrato_amount: 0,
            rise: 0,
            slide: 0,
            voice_mode: VoiceMode::Polyphonic,
        }
    }

    /// Parameters initialized through a fresh control-port bank: the nine
    /// device ports are declared and their defaults read back through the
    /// documented mappings.
    pub fn new_with_params(p: &mut crate::helpers::SignalIOParams) -> (dp: SynthDeviceParams)
        requires
            old(p).wf(),
            old(p).names@.len() == 0,
        ensures
            final(p).wf(),
            final(p).names@.len() == 9,
            dp.wf(),
            dp.master_level == FP_ONE,
            dp.voices_unisono == 1,
            dp.voices_detune == 0,
            dp.voices_pan == 0,
            dp.vibrato_freq == 7 * FP_ONE,
            dp.vibrato_amount == 0,
            dp.rise == 0,
            dp.slide == 0,
            dp.voice_mode == VoiceMode::Polyphonic,
    {
        let mut dev_params = SynthDeviceParams::new();
        dev_params.init_params(p);
        dev_params
    }

    /// Declares the device's nine control ports and loads their defaults:
    /// full volume, one centred voice, no vibrato, no glide, polyphonic.
    fn init_params(&mut self, p: &mut crate::helpers::SignalIOParams)
        requires
            old(self).wf(),
            old(p).wf(),
            old(p).names@.len() == 0,
        ensures
            final(p).wf(),
            final(p).names@.len() == 9,
            final(self).wf(),
            final(self).master_level == FP_ONE,
            final(self).voices_unisono == 1,
            final(self).voices_detune == 0,
            final(self).voices_pan == 0,
            final(self).vibrato_freq == 7 * FP_ONE,
            final(self).vibrato_amount == 0,
            final(self).rise == 0,
            final(self).slide == 0,
            final(self).voice_mode == VoiceMode::Polyphonic,
    {
        p.input(<String as vstd::string::StringExecFns>::from_str("m_vol"), 0, FP_ONE, FP_ONE);
        p.input(<String as vstd::string::StringExecFns>::from_str("v_uniso"), 0, FP_ONE, 0);
        p.input(<String as vstd::string::StringExecFns>::from_str("v_detune"), 0, FP_ONE, 0);
        p.input(<String as vstd::string::StringExecFns>::from_str("v_pan"), 0, FP_ONE, 0);
        p.input(<String as vstd::string::StringExecFns>::from_str("vi_f"), 0, FP_ONE, 0);
        p.input(<String as vstd::string::StringExecFns>::from_str("vi_amt"), 0, FP_ONE, 0);
        p.input(<String as vstd::string::StringExecFns>::from_str("rise"), 0, FP_ONE, 0);
        p.input(<String as vstd::string::StringExecFns>::from_str("slide_t"), 0, FP_ONE, 0);
        p.input(<String as vstd::string::StringExecFns>::from_str("v_mode"), 0, FP_ONE, 0);
        self.master_level = p.v(0);
        self.voices_unisono = crate::helpers::param_to_unisono(p.v(1));
        self.voices_detune = p.v(2);
        self.voices_pan = p.v(3);
        self.vibrato_freq = crate::helpers::param_to_vibrato_freq(p.v(4));
        self.vibrato_amount = p.v(5);
        self.rise = p.v(6);
        self.slide = p.v(7);
        self.voice_mode = VoiceMode::from_value(p.v(8));
    }
}

/// One stretch of samples between event boundaries.
#[derive(Debug, PartialEq, Eq, Structural, Clone, Copy)]
pub struct Segment {
    pub offset: usize,
    pub length: usize,
}

/// An event together with the exact block offset at which it fired.
#[derive(Debug, PartialEq, Eq, Structural, Clone, Copy)]
pub struct FiredEvent {
    pub offset: i64,
    pub typ: EventType,
    pub note: i32,
    pub velocity: i32,
}

/// The polyphonic engine: a fixed pool of voice slots, a fixed event
/// queue, and the bookkeeping for mono-legato note stacking.
pub struct SynthDevice {
    pub sample_rate: u32,
    pub mono_active: bool,
    pub note_log: Vec<i32>,
    pub note_count: usize,
    pub active_notes: Vec<bool>,
    pub voice_data: Vec<VoiceData>,
    pub events: Vec<Event>,
    pub params: SynthDeviceParams,
}

impl SynthDevice {
    /// Well-formedness of the whole engine: every pool has its fixed
    /// capacity, every voice slot is well formed at the device's sample
    /// rate, every queued note is in range, and the parameters are
    /// normalized.
    pub open spec fn wf(&self) -> bool {
        &&& 1 <= self.sample_rate <= 1_000_000
        &&& self.note_log@.len() == NOTE_RANGE
        &&& self.active_notes@.len() == NOTE_RANGE
        &&& self.voice_data@.len() == VOICE_COUNT
        &&& self.events@.len() == EVENT_COUNT
        &&& self.note_count <= NOTE_RANGE
        &&& forall|i: int| 0 <= i < VOICE_COUNT ==> (#[trigger] self.voice_data@[i]).wf()
        &&& forall|i: int| 0 <= i < VOICE_COUNT ==>
            (#[trigger] self.voice_data@[i]).sample_rate == self.sample_rate
        &&& forall|i: int| 0 <= i < NOTE_RANGE ==> 0 <= #[trigger] self.note_log@[i] < NOTE_RANGE
        &&& forall|i: int| 0 <= i < EVENT_COUNT ==> (#[trigger] self.events@[i]).delta_samples >= 0
        &&& forall|i: int| 0 <= i < EVENT_COUNT ==> 0 <= (#[trigger] self.events@[i]).note
            < NOTE_RANGE
        &&& self.params.wf()
    }

    /// A fresh engine: every voice silent, every queue slot empty, the
    /// note stack empty, parameters at their defaults.
    pub fn new(sample_rate: u32) -> (d: SynthDevice)
        requires
            1 <= sample_rate <= 1_000_000,
        ensures
            d.wf(),
            d.sample_rate == sample_rate,
            !d.mono_active,
            d.note_count == 0,
            forall|i: int| 0 <= i < VOICE_COUNT ==> !(#[trigger] d.voice_data@[i]).is_on,
            forall|i: int| 0 <= i < EVENT_COUNT ==>
                (#[trigger] d.events@[i]).typ == EventType::Empty,
            forall|i: int| 0 <= i < NOTE_RANGE ==> !(#[trigger] d.active_notes@[i]),
            d.params.wf(),
            d.params.voices_unisono == 1,
            d.params.slide == 0,
            d.params.voice_mode == VoiceMode::Polyphonic,
            spec_count_on(d.voice_data@) == 0,
    {
        let mut note_log: Vec<i32> = Vec::new();
        let mut active_notes: Vec<bool> = Vec::new();
        let mut voice_data: Vec<VoiceData> = Vec::new();
        let mut events: Vec<Event> = Vec::new();
        let mut i: usize = 0;
        while i < NOTE_RANGE
            invariant
                note_log@.len() == i,
                active_notes@.len() == i,
                i <= NOTE_RANGE,
                forall|j: int| 0 <= j < i ==> #[trigger] note_log@[j] == 0,
                forall|j: int| 0 <= j < i ==> !(#[trigger] active_notes@[j]),
            decreases NOTE_RANGE - i,
        {
            note_log.push(0);
            active_notes.push(false);
            i += 1;
        }
        let mut i: usize = 0;
        while i < VOICE_COUNT
            invariant
                1 <= sample_rate <= 1_000_000,
                voice_data@.len() == i,
                events@.len() == i,
                i <= VOICE_COUNT,
                forall|j: int| 0 <= j < i ==> (#[trigger] voice_data@[j]).wf(),
                forall|j: int| 0 <= j < i ==> !(#[trigger] voice_data@[j]).is_on,
                forall|j: int| 0 <= j < i ==>
                    (#[trigger] voice_data@[j]).sample_rate == sample_rate,
                forall|j: int| 0 <= j < i ==> (#[trigger] events@[j]).typ == EventType::Empty,
                forall|j: int| 0 <= j < i ==> (#[trigger] events@[j]).delta_samples == 0,
                forall|j: int| 0 <= j < i ==> (#[trigger] events@[j]).note == 0,
            decreases VOICE_COUNT - i,
        {
            voice_data.push(VoiceData::new(sample_rate));
            events.push(Event::new());
            i += 1;
        }
        let d = SynthDevice {
            sample_rate,
            mono_active: false,
            note_log,
            note_count: 0,
            active_notes,
            voice_data,
            events,
            params: SynthDeviceParams::new(),
        };
        proof {
            lemma_count_off_zero(d.voice_data@, 0);
        }
        d
    }

    /// Queues a note-on.  The event lands in the first empty queue slot;
    /// with the queue full the call changes nothing.  Events must be
    /// queued in non-decreasing delta order for the scheduler to fire them
    /// at their exact offsets.
    pub fn note_on(&mut self, note: i32, velocity: i32, delta_samples: i64)
        requires
            old(self).wf(),
            0 <= note < NOTE_RANGE,
            delta_samples >= 0,
        ensures
            final(self).wf(),
            ({
                let evs = old(self).events@;
                let i = first_empty(evs, 0);
                if i < EVENT_COUNT {
                    final(self).events@ == evs.update(i, Event {
                        typ: EventType::NoteOn,
                        delta_samples,
                        note,
                        velocity,
                    })
                } else {
                    final(self).events@ == evs
                }
            }),
            final(self).voice_data == old(self).voice_data,
            final(self).params == old(self).params,
            final(self).mono_active == old(self).mono_active,
            final(self).note_count == old(self).note_count,
            final(self).note_log == old(self).note_log,
            final(self).active_notes == old(self).active_notes,
            final(self).sample_rate == old(self).sample_rate,
    {
        let ev = Event { typ: EventType::NoteOn, delta_samples, note, velocity };
        self.enqueue(ev);
    }

    /// Queues a note-off, in the first empty queue slot; with the queue
    /// full the call changes nothing.
    pub fn note_off(&mut self, note: i32, delta_samples: i64)
        requires
            old(self).wf(),
            0 <= note < NOTE_RANGE,
            delta_samples >= 0,
        ensures
            final(self).wf(),
            ({
                let evs = old(self).events@;
                let i = first_empty(evs, 0);
                if i < EVENT_COUNT {
                    final(self).events@ == evs.update(i, Event {
                        typ: EventType::NoteOff,
                        delta_samples,
                        note,
                        velocity: 0,
                    })
                } else {
                    final(self).events@ == evs
                }
            }),
            final(self).voice_data == old(self).voice_data,
            final(self).params == old(self).params,
            final(self).mono_active == old(self).mono_active,
            final(self).note_count == old(self).note_count,
            final(self).note_log == old(self).note_log,
            final(self).active_notes == old(self).active_notes,
            final(self).sample_rate == old(self).sample_rate,
    {
        let ev = Event { typ: EventType::NoteOff, delta_samples, note, velocity: 0 };
        self.enqueue(ev);
    }

    /// Stores an event in the first empty queue slot, if any.
    fn enqueue(&mut self, ev: Event)
        requires
            old(self).wf(),
            0 <= ev.note < NOTE_RANGE,
            ev.delta_samples >= 0,
        ensures
            final(self).wf(),
            ({
                let evs = old(self).events@;
                let i = first_empty(evs, 0);
                if i < EVENT_COUNT {
                    final(self).events@ == evs.update(i, ev)
                } else {
                    final(self).events@ == evs
                }
            }),
            final(self).voice_data == old(self).voice_data,
            final(self).params == old(self).params,
            final(self).mono_active == old(self).mono_active,
            final(self).note_count == old(self).note_count,
            final(self).note_log == old(self).note_log,
            final(self).active_notes == old(self).active_notes,
            final(self).sample_rate == old(self).sample_rate,
    {
        let ghost evs = self.events@;
        let mut i: usize = 0;
        while i < EVENT_COUNT
            invariant
                old(self).wf(),
                ev.delta_samples >= 0,
                0 <= ev.note < NOTE_RANGE,
                self.events@ == evs,
                evs == old(self).events@,
                evs.len() == EVENT_COUNT,
                i <= EVENT_COUNT,
                first_empty(evs, 0) == first_empty(evs, i as int),
                forall|j: int| 0 <= j < i ==> (#[trigger] evs[j]).typ != EventType::Empty,
                self.voice_data == old(self).voice_data,
                self.params == old(self).params,
                self.mono_active == old(self).mono_active,
                self.note_count == old(self).note_count,
                self.note_log == old(self).note_log,
                self.active_notes == old(self).active_notes,
                self.sample_rate == old(self).sample_rate,
            decreases EVENT_COUNT - i,
        {
            let slot_empty = self.events[i].typ == EventType::Empty;
            if slot_empty {
                self.events[i] = ev;
                proof {
                    assert(first_empty(evs, i as int) == i);
                    assert(self.events@ == evs.update(i as int, ev));
                    assert(forall|j: int| 0 <= j < EVENT_COUNT && j != i ==>
                        #[trigger] self.events@[j] == evs[j]);
                    assert(self.events@[i as int] == ev);
                    assert(1 <= self.sample_rate <= 1_000_000);
                    assert(self.note_log@.len() == NOTE_RANGE);
                    assert(self.active_notes@.len() == NOTE_RANGE);
                    assert(self.voice_data@.len() == VOICE_COUNT);
                    assert(self.events@.len() == EVENT_COUNT);
                    assert(self.note_count <= NOTE_RANGE);
                    assert(forall|j: int| 0 <= j < VOICE_COUNT ==>
                        (#[trigger] self.voice_data@[j]).wf());
                    assert(forall|j: int| 0 <= j < NOTE_RANGE ==>
                        0 <= #[trigger] self.note_log@[j] < NOTE_RANGE);
                    assert(forall|j: int| 0 <= j < EVENT_COUNT ==>
                        (#[trigger] evs[j]).delta_samples >= 0 && 0 <= evs[j].note
                            < NOTE_RANGE) by {
                        assert(forall|j: int| 0 <= j < EVENT_COUNT ==> evs[j]
                            == (#[trigger] old(self).events@[j]));
                    }
                    assert forall|j: int| 0 <= j < EVENT_COUNT implies
                        (#[trigger] self.events@[j]).delta_samples >= 0
                            && 0 <= self.events@[j].note < NOTE_RANGE by {
                        if j == i as int {
                            assert(self.events@[j] == ev);
                        } else {
                            assert(self.events@[j] == evs[j]);
                        }
                    }
                    assert(self.params.wf());
                    assert(self.wf());
                }
                return;
            }
            i += 1;
        }
        proof {
            assert(first_empty(evs, 0) == EVENT_COUNT);
        }
    }

    /// Empties the whole event queue.
    pub fn clear_events(&mut self)
        requires
            old(self).wf(),
        ensures
            final(self).wf(),
            forall|i: int| 0 <= i < EVENT_COUNT ==>
                (#[trigger] final(self).events@[i]).typ == EventType::Empty,
            final(self).voice_data == old(self).voice_data,
            final(self).params == old(self).params,
            final(self).mono_active == old(self).mono_active,
            final(self).note_count == old(self).note_count,
            final(self).note_log == old(self).note_log,
            final(self).active_notes == old(self).active_notes,
            final(self).sample_rate == old(self).sample_rate,
    {
        let mut i: usize = 0;
        while i < EVENT_COUNT
            invariant
                old(self).wf(),
                self.events@.len() == EVENT_COUNT,
                i <= EVENT_COUNT,
                forall|j: int| 0 <= j < i ==>
                    (#[trigger] self.events@[j]).typ == EventType::Empty,
                forall|j: int| 0 <= j < i ==>
                    (#[trigger] self.events@[j]).delta_samples
                        == old(self).events@[j].delta_samples,
                forall|j: int| 0 <= j < i ==>
                    (#[trigger] self.events@[j]).note == old(self).events@[j].note,
                forall|j: int| i <= j < EVENT_COUNT ==>
                    #[trigger] self.events@[j] == old(self).events@[j],
                self.voice_data == old(self).voice_data,
                self.params == old(self).params,
                self.mono_active == old(self).mono_active,
                self.note_count == old(self).note_count,
                self.note_log == old(self).note_log,
                self.active_notes == old(self).active_notes,
                self.sample_rate == old(self).sample_rate,
            decreases EVENT_COUNT - i,
        {
            let e = self.events[i];
            self.events[i] = Event { typ: EventType::Empty, ..e };
            i += 1;
        }
    }

    /// Starts a fired note on up to `voices_unisono` free voice slots,
    /// spreading detune and pan across them.  Sounding voices are never
    /// touched; with no free slot the note is dropped and nothing changes.
    fn alloc_voices(&mut self, note: i32, velocity: i32)
        requires
            old(self).wf(),
            0 <= note < NOTE_RANGE,
        ensures
            final(self).wf(),
            final(self).events == old(self).events,
            final(self).params == old(self).params,
            final(self).mono_active == old(self).mono_active,
            final(self).note_count == old(self).note_count,
            final(self).note_log == old(self).note_log,
            final(self).active_notes == old(self).active_notes,
            final(self).sample_rate == old(self).sample_rate,
            final(self).voice_data@.len() == VOICE_COUNT,
            forall|i: int| 0 <= i < VOICE_COUNT && old(self).voice_data@[i].is_on ==>
                #[trigger] final(self).voice_data@[i] == old(self).voice_data@[i],
            forall|i: int| 0 <= i < VOICE_COUNT && !old(self).voice_data@[i].is_on
                && (#[trigger] final(self).voice_data@[i]).is_on ==> {
                &&& final(self).voice_data@[i].note == note
                &&& final(self).voice_data@[i].current_note == note * NOTE_ONE
                &&& !final(self).voice_data@[i].slide_active
            },
            forall|i: int| 0 <= i < VOICE_COUNT && !old(self).voice_data@[i].is_on
                && !(#[trigger] final(self).voice_data@[i]).is_on ==>
                final(self).voice_data@[i] == old(self).voice_data@[i],
            spec_count_on(final(self).voice_data@) == spec_count_on(old(self).voice_data@)
                + imin(old(self).params.voices_unisono as int,
                    VOICE_COUNT - spec_count_on(old(self).voice_data@)),
            spec_count_on(old(self).voice_data@) == VOICE_COUNT ==>
                final(self).voice_data@ == old(self).voice_data@,
            spec_alloc_effect(old(self).voice_data@, final(self).voice_data@, note as int,
                old(self).params.voices_unisono as int, old(self).params.voices_detune as int,
                old(self).params.voices_pan as int),
    {
        let ghost vd0 = self.voice_data@;
        let unisono: i64 = self.params.voices_unisono;
        let detune_amt: i64 = self.params.voices_detune;
        let pan_amt: i64 = self.params.voices_pan;
        let mut j: i64 = unisono;
        let mut i: usize = 0;
        while i < VOICE_COUNT && j > 0
            invariant
                old(self).wf(),
                0 <= note < NOTE_RANGE,
                vd0 == old(self).voice_data@,
                unisono == old(self).params.voices_unisono,
                detune_amt == old(self).params.voices_detune,
                pan_amt == old(self).params.voices_pan,
                1 <= unisono <= 16,
                0 <= detune_amt <= FP_ONE,
                0 <= pan_amt <= FP_ONE,
                0 <= j <= unisono,
                i <= VOICE_COUNT,
                self.events == old(self).events,
                self.params == old(self).params,
                self.mono_active == old(self).mono_active,
                self.note_count == old(self).note_count,
                self.note_log == old(self).note_log,
                self.active_notes == old(self).active_notes,
                self.sample_rate == old(self).sample_rate,
                self.voice_data@.len() == VOICE_COUNT,
                forall|k: int| 0 <= k < VOICE_COUNT ==> (#[trigger] self.voice_data@[k]).wf(),
                forall|k: int| 0 <= k < VOICE_COUNT ==>
                    (#[trigger] self.voice_data@[k]).sample_rate == old(self).sample_rate,
                forall|k: int| i <= k < VOICE_COUNT ==>
                    #[trigger] self.voice_data@[k] == vd0[k],
                forall|k: int| 0 <= k < VOICE_COUNT && vd0[k].is_on ==>
                    #[trigger] self.voice_data@[k] == vd0[k],
                forall|k: int| 0 <= k < VOICE_COUNT && !vd0[k].is_on
                    && (#[trigger] self.voice_data@[k]).is_on ==> {
                    &&& self.voice_data@[k].note == note
                    &&& self.voice_data@[k].current_note == note * NOTE_ONE
                    &&& !self.voice_data@[k].slide_active
                    &&& self.voice_data@[k].detune == spec_spread_detune(unisono as int,
                        started_before(vd0, self.voice_data@, k), detune_amt as int)
                    &&& self.voice_data@[k].pan == spec_spread_pan(unisono as int,
                        started_before(vd0, self.voice_data@, k), pan_amt as int)
                },
                forall|k: int| 0 <= k < VOICE_COUNT && !vd0[k].is_on
                    && !(#[trigger] self.voice_data@[k]).is_on ==>
                    self.voice_data@[k] == vd0[k],
                started_before(vd0, self.voice_data@, i as int) == unisono - j,
                j > 0 ==> unisono - j == i - count_on_upto(vd0, i as int),
                j == 0 ==> unisono <= i - count_on_upto(vd0, i as int),
                count_on_from(self.voice_data@, 0) == count_on_from(vd0, 0) + (unisono - j),
            decreases VOICE_COUNT - i,
        {
            proof {
                assert(count_on_upto(vd0, i as int + 1) == count_on_upto(vd0, i as int)
                    + (if vd0[i as int].is_on { 1int } else { 0int }));
            }
            if !self.voice_data[i].is_on {
                let ghost pre_seq = self.voice_data@;
                let ghost m = started_before(vd0, pre_seq, i as int);
                j = j - 1;
                proof {
                    assert(m == unisono - j - 1);
                }
                let f: i64 = if unisono > 1 {
                    proof {
                        assert(0 <= j * FP_ONE <= 16 * FP_ONE) by (nonlinear_arith)
                            requires 0 <= j <= 16, FP_ONE == 0x1_0000i64;
                        assert((j * FP_ONE) / (unisono - 1) <= FP_ONE) by (nonlinear_arith)
                            requires 0 <= j <= unisono - 1, 1 <= unisono - 1 <= 15,
                                FP_ONE == 0x1_0000i64;
                        vstd::arithmetic::div_mod::lemma_div_pos_is_pos(
                            j * FP_ONE, (unisono - 1) as int);
                    }
                    j * FP_ONE / (unisono - 1)
                } else {
                    0
                };
                proof {
                    assert(0 <= f * detune_amt <= 0x1_0000i64 * 0x1_0000i64) by (nonlinear_arith)
                        requires 0 <= f <= 0x1_0000i64, 0 <= detune_amt <= 0x1_0000i64;
                    assert((f * detune_amt) / (FP_ONE as int) <= FP_ONE) by (nonlinear_arith)
                        requires 0 <= f * detune_amt <= 0x1_0000i64 * 0x1_0000i64,
                            FP_ONE == 0x1_0000i64;
                    vstd::arithmetic::div_mod::lemma_div_pos_is_pos(
                        f * detune_amt, FP_ONE as int);
                }
                let det: i64 = f * detune_amt / FP_ONE;
                proof {
                    assert(-(0x8000i64 * 0x1_0000i64) <= (f - FP_ONE / 2) * (2 * pan_amt
                        - FP_ONE) <= 0x8000i64 * 0x1_0000i64) by (nonlinear_arith)
                        requires 0 <= f <= 0x1_0000i64, 0 <= pan_amt <= 0x1_0000i64,
                            FP_ONE == 0x1_0000i64;
                }
                let spread: i64 = tdiv((f - FP_ONE / 2) * (2 * pan_amt - FP_ONE), FP_ONE);
                proof {
                    let prod = (f - FP_ONE / 2) as int * (2 * pan_amt - FP_ONE) as int;
                    if prod >= 0 {
                        vstd::arithmetic::div_mod::lemma_div_pos_is_pos(prod, FP_ONE as int);
                        assert(prod / (FP_ONE as int) <= FP_ONE / 2) by (nonlinear_arith)
                            requires 0 <= prod <= 0x8000i64 * 0x1_0000i64,
                                FP_ONE == 0x1_0000i64;
                    } else {
                        vstd::arithmetic::div_mod::lemma_div_pos_is_pos(-prod, FP_ONE as int);
                        assert((-prod) / (FP_ONE as int) <= FP_ONE / 2) by (nonlinear_arith)
                            requires 0 <= -prod <= 0x8000i64 * 0x1_0000i64,
                                FP_ONE == 0x1_0000i64;
                    }
                }
                let pan: i64 = spread + FP_ONE / 2;
                proof {
                    assert(f == spec_spread_f(unisono as int, m));
                    assert(det == spec_spread_detune(unisono as int, m, detune_amt as int));
                    assert(pan == spec_spread_pan(unisono as int, m, pan_amt as int));
                }
                let mut v: VoiceData = self.voice_data[i];
                v.note_on(note, velocity, det, pan);
                proof {
                    lemma_count_update(self.voice_data@, i as int, v, 0);
                }
                self.voice_data[i] = v;
                proof {
                    assert(self.voice_data@ == pre_seq.update(i as int, v));
                    assert forall|k: int| 0 <= k <= i as int implies started_before(
                        vd0, self.voice_data@, k) == started_before(vd0, pre_seq, k) by {
                        assert(forall|k2: int| 0 <= k2 < k ==>
                            (#[trigger] self.voice_data@[k2]).is_on == pre_seq[k2].is_on);
                        lemma_started_congruent(vd0, self.voice_data@, pre_seq, k);
                    }
                    assert(started_before(vd0, self.voice_data@, i as int) == m);
                    assert(!vd0[i as int].is_on && self.voice_data@[i as int].is_on);
                    assert(started_before(vd0, self.voice_data@, i as int + 1) == m + 1);
                }
            }
            i += 1;
        }
        proof {
            lemma_count_split_at(vd0, VOICE_COUNT as int);
            assert(count_on_from(vd0, VOICE_COUNT as int) == 0);
            lemma_count_upto_bounds(vd0, i as int);
            lemma_count_split_at(vd0, i as int);
            lemma_count_bounds(vd0, i as int);
            if i == VOICE_COUNT {
                assert(count_on_upto(vd0, VOICE_COUNT as int) == count_on_from(vd0, 0));
            } else {
                assert(j == 0);
            }
            if spec_count_on(vd0) == VOICE_COUNT {
                lemma_count_full(vd0, 0);
                assert(count_on_upto(vd0, i as int) == i);
                assert(unisono - j == 0);
                assert(self.voice_data@ =~= vd0);
            }
            assert(spec_alloc_effect(vd0, self.voice_data@, note as int, unisono as int,
                detune_amt as int, pan_amt as int));
        }
    }

    /// Glides every sounding voice toward the given note, leaving silent
    /// slots untouched; the set of sounding voices does not change.
    fn slide_on_voices(&mut self, note: i32)
        requires
            old(self).wf(),
            0 <= note < NOTE_RANGE,
        ensures
            final(self).wf(),
            final(self).events == old(self).events,
            final(self).params == old(self).params,
            final(self).mono_active == old(self).mono_active,
            final(self).note_count == old(self).note_count,
            final(self).note_log == old(self).note_log,
            final(self).active_notes == old(self).active_notes,
            final(self).sample_rate == old(self).sample_rate,
            final(self).voice_data@.len() == VOICE_COUNT,
            forall|i: int| 0 <= i < VOICE_COUNT ==>
                (#[trigger] final(self).voice_data@[i]).is_on == old(self).voice_data@[i].is_on,
            forall|i: int| 0 <= i < VOICE_COUNT && old(self).voice_data@[i].is_on ==> {
                &&& (#[trigger] final(self).voice_data@[i]).slide_active
                &&& final(self).voice_data@[i].destination_note == note
            },
            forall|i: int| 0 <= i < VOICE_COUNT && !old(self).voice_data@[i].is_on ==>
                #[trigger] final(self).voice_data@[i] == old(self).voice_data@[i],
            spec_count_on(final(self).voice_data@) == spec_count_on(old(self).voice_data@),
    {
        let ghost vd0 = self.voice_data@;
        let n: i64 = slide_samples_for(self.params.slide, self.sample_rate);
        let mut i: usize = 0;
        while i < VOICE_COUNT
            invariant
                old(self).wf(),
                0 <= note < NOTE_RANGE,
                vd0 == old(self).voice_data@,
                0 <= n <= SLIDE_MAX,
                i <= VOICE_COUNT,
                self.events == old(self).events,
                self.params == old(self).params,
                self.mono_active == old(self).mono_active,
                self.note_count == old(self).note_count,
                self.note_log == old(self).note_log,
                self.active_notes == old(self).active_notes,
                self.sample_rate == old(self).sample_rate,
                self.voice_data@.len() == VOICE_COUNT,
                forall|k: int| 0 <= k < VOICE_COUNT ==> (#[trigger] self.voice_data@[k]).wf(),
                forall|k: int| 0 <= k < VOICE_COUNT ==>
                    (#[trigger] self.voice_data@[k]).sample_rate == old(self).sample_rate,
                forall|k: int| i <= k < VOICE_COUNT ==>
                    #[trigger] self.voice_data@[k] == vd0[k],
                forall|k: int| 0 <= k < VOICE_COUNT ==>
                    (#[trigger] self.voice_data@[k]).is_on == vd0[k].is_on,
                forall|k: int| 0 <= k < i && vd0[k].is_on ==> {
                    &&& (#[trigger] self.voice_data@[k]).slide_active
                    &&& self.voice_data@[k].destination_note == note
                },
                forall|k: int| 0 <= k < VOICE_COUNT && !vd0[k].is_on ==>
                    #[trigger] self.voice_data@[k] == vd0[k],
            decreases VOICE_COUNT - i,
        {
            if self.voice_data[i].is_on {
                let mut v: VoiceData = self.voice_data[i];
                v.note_slide(n, note);
                self.voice_data[i] = v;
            }
            i += 1;
        }
        proof {
            lemma_count_congruent(self.voice_data@, vd0, 0);
        }
    }

    /// Dispatches a due note-on.  In polyphonic mode the note claims free
    /// voices.  In mono-legato mode the note is marked held and pushed on
    /// the note stack (a full stack drops the event); the first note
    /// claims voices, every later one glides the sounding voices instead,
    /// so the number of sounding voices never grows while one is active.
    pub fn fire_note_on(&mut self, note: i32, velocity: i32)
        requires
            old(self).wf(),
            0 <= note < NOTE_RANGE,
        ensures
            final(self).wf(),
            final(self).events == old(self).events,
            final(self).params == old(self).params,
            final(self).sample_rate == old(self).sample_rate,
            old(self).params.voice_mode == VoiceMode::Polyphonic ==> {
                &&& final(self).mono_active == old(self).mono_active
                &&& final(self).note_count == old(self).note_count
                &&& final(self).note_log == old(self).note_log
                &&& final(self).active_notes == old(self).active_notes
                &&& spec_count_on(final(self).voice_data@) == spec_count_on(
                    old(self).voice_data@) + imin(old(self).params.voices_unisono as int,
                        VOICE_COUNT - spec_count_on(old(self).voice_data@))
                &&& (spec_count_on(old(self).voice_data@) == VOICE_COUNT ==>
                    final(self).voice_data@ == old(self).voice_data@)
            },
            old(self).params.voice_mode == VoiceMode::MonoLegatoTrill && old(self).mono_active
                ==> {
                &&& spec_count_on(final(self).voice_data@) == spec_count_on(
                    old(self).voice_data@)
                &&& forall|i: int| 0 <= i < VOICE_COUNT ==>
                    (#[trigger] final(self).voice_data@[i]).is_on
                        == old(self).voice_data@[i].is_on
                &&& (old(self).note_count < NOTE_RANGE ==> {
                    &&& (forall|i: int| 0 <= i < VOICE_COUNT
                        && old(self).voice_data@[i].is_on ==> {
                        &&& (#[trigger] final(self).voice_data@[i]).slide_active
                        &&& final(self).voice_data@[i].destination_note == note
                    })
                    &&& (forall|i: int| 0 <= i < VOICE_COUNT
                        && !old(self).voice_data@[i].is_on ==>
                        #[trigger] final(self).voice_data@[i]
                            == old(self).voice_data@[i])
                })
                &&& final(self).mono_active
            },
            old(self).params.voice_mode == VoiceMode::MonoLegatoTrill
                && old(self).note_count < NOTE_RANGE ==> {
                &&& final(self).active_notes@ == old(self).active_notes@.update(
                    note as int, true)
                &&& final(self).note_count == old(self).note_count + 1
                &&& final(self).note_log@ == old(self).note_log@.update(
                    old(self).note_count as int, note)
                &&& final(self).mono_active
            },
            spec_note_on_effect(dispatch_view(*old(self)), dispatch_view(*final(self)),
                note as int, velocity as int),
    {
        let is_poly = self.params.voice_mode == VoiceMode::Polyphonic;
        if is_poly {
            self.alloc_voices(note, velocity);
        } else {
            if self.note_count >= NOTE_RANGE {
                return;
            }
            self.active_notes[note as usize] = true;
            self.note_log[self.note_count] = note;
            self.note_count = self.note_count + 1;
            if !self.mono_active {
                self.mono_active = true;
                self.alloc_voices(note, velocity);
            } else {
                self.slide_on_voices(note);
            }
        }
    }

    /// Dispatches a due note-off.  In polyphonic mode every sounding voice
    /// on the note falls silent.  In mono-legato mode the note is
    /// unmarked; if it was the top of the note stack the stack pops past
    /// released notes — a still-held note below takes over by a glide, and
    /// an emptied stack silences every voice.
    pub fn fire_note_off(&mut self, note: i32)
        requires
            old(self).wf(),
            0 <= note < NOTE_RANGE,
        ensures
            final(self).wf(),
            final(self).events == old(self).events,
            final(self).params == old(self).params,
            final(self).sample_rate == old(self).sample_rate,
            old(self).params.voice_mode == VoiceMode::Polyphonic ==> {
                &&& final(self).mono_active == old(self).mono_active
                &&& final(self).note_count == old(self).note_count
                &&& final(self).note_log == old(self).note_log
                &&& final(self).active_notes == old(self).active_notes
                &&& forall|i: int| 0 <= i < VOICE_COUNT ==> #[trigger] final(
                    self).voice_data@[i] == (if old(self).voice_data@[i].is_on
                        && old(self).voice_data@[i].note == note {
                    VoiceData { is_on: false, ..old(self).voice_data@[i] }
                } else {
                    old(self).voice_data@[i]
                })
            },
            old(self).params.voice_mode == VoiceMode::MonoLegatoTrill ==> {
                // Either the note was not on top of the stack, and only its
                // held mark clears; or a note below takes over and every
                // sounding voice glides to it; or the stack empties and
                // everything falls silent.
                ||| {
                    &&& final(self).voice_data == old(self).voice_data
                    &&& final(self).note_count == old(self).note_count
                    &&& final(self).mono_active == old(self).mono_active
                    &&& final(self).active_notes@ == old(self).active_notes@.update(
                        note as int, false)
                }
                ||| {
                    &&& 1 <= final(self).note_count <= old(self).note_count
                    &&& final(self).mono_active == old(self).mono_active
                    &&& final(self).note_log == old(self).note_log
                    &&& final(self).active_notes@ == old(self).active_notes@.update(
                        note as int, false)
                    &&& final(self).active_notes@[final(self).note_log@[final(
                    self).note_count - 1] as int]
                    &&& (forall|i: int| 0 <= i < VOICE_COUNT ==>
                        (#[trigger] final(self).voice_data@[i]).is_on
                            == old(self).voice_data@[i].is_on)
                    &&& (forall|i: int| 0 <= i < VOICE_COUNT
                        && old(self).voice_data@[i].is_on ==> {
                        &&& (#[trigger] final(self).voice_data@[i]).slide_active
                        &&& final(self).voice_data@[i].destination_note == final(
                            self).note_log@[final(self).note_count - 1]
                    })
                }
                ||| {
                    &&& final(self).note_count == 0
                    &&& !final(self).mono_active
                    &&& (forall|i: int| 0 <= i < VOICE_COUNT ==>
                        !(#[trigger] final(self).voice_data@[i]).is_on)
                    &&& (forall|i: int| 0 <= i < NOTE_RANGE ==>
                        !(#[trigger] final(self).active_notes@[i]))
                }
            },
            spec_note_off_effect(dispatch_view(*old(self)), dispatch_view(*final(self)),
                note as int),
    {
        let is_poly = self.params.voice_mode == VoiceMode::Polyphonic;
        if is_poly {
            let ghost vd0 = self.voice_data@;
            let mut i: usize = 0;
            while i < VOICE_COUNT
                invariant
                    old(self).wf(),
                    0 <= note < NOTE_RANGE,
                    vd0 == old(self).voice_data@,
                    i <= VOICE_COUNT,
                    self.events == old(self).events,
                    self.params == old(self).params,
                    self.mono_active == old(self).mono_active,
                    self.note_count == old(self).note_count,
                    self.note_log == old(self).note_log,
                    self.active_notes == old(self).active_notes,
                    self.sample_rate == old(self).sample_rate,
                    self.voice_data@.len() == VOICE_COUNT,
                    forall|k: int| 0 <= k < VOICE_COUNT ==>
                        (#[trigger] self.voice_data@[k]).wf(),
                    forall|k: int| 0 <= k < VOICE_COUNT ==>
                        (#[trigger] self.voice_data@[k]).sample_rate == old(self).sample_rate,
                    forall|k: int| i <= k < VOICE_COUNT ==>
                        #[trigger] self.voice_data@[k] == vd0[k],
                    forall|k: int| 0 <= k < i ==> #[trigger] self.voice_data@[k] == (
                    if vd0[k].is_on && vd0[k].note == note {
                        VoiceData { is_on: false, ..vd0[k] }
                    } else {
                        vd0[k]
                    }),
                decreases VOICE_COUNT - i,
            {
                if self.voice_data[i].is_on && self.voice_data[i].note == note {
                    let mut v: VoiceData = self.voice_data[i];
                    v.note_off();
                    v.is_on = false;
                    self.voice_data[i] = v;
                }
                i += 1;
            }
        } else {
            self.active_notes[note as usize] = false;
            if self.note_count == 0 {
                return;
            }
            let top: i32 = self.note_log[self.note_count - 1];
            if top != note {
                return;
            }
            while self.note_count > 0
                invariant
                    old(self).wf(),
                    old(self).params.voice_mode == VoiceMode::MonoLegatoTrill,
                    self.note_count <= NOTE_RANGE,
                    self.note_count <= old(self).note_count,
                    self.events == old(self).events,
                    self.params == old(self).params,
                    self.mono_active == old(self).mono_active,
                    self.note_log == old(self).note_log,
                    self.active_notes@.len() == NOTE_RANGE,
                    self.sample_rate == old(self).sample_rate,
                    self.voice_data == old(self).voice_data,
                    self.active_notes@ == old(self).active_notes@.update(note as int, false),
                decreases self.note_count,
            {
                let t: i32 = self.note_log[self.note_count - 1];
                if self.active_notes[t as usize] {
                    self.slide_on_voices(t);
                    return;
                }
                self.note_count = self.note_count - 1;
            }
            // The stack is empty: nothing is held any more.
            self.mono_active = false;
            let mut i: usize = 0;
            while i < NOTE_RANGE
                invariant
                    old(self).wf(),
                    old(self).params.voice_mode == VoiceMode::MonoLegatoTrill,
                    i <= NOTE_RANGE,
                    self.note_count == 0,
                    !self.mono_active,
                    forall|k: int| 0 <= k < i ==> !(#[trigger] self.active_notes@[k]),
                    self.events == old(self).events,
                    self.params == old(self).params,
                    self.note_log == old(self).note_log,
                    self.active_notes@.len() == NOTE_RANGE,
                    self.sample_rate == old(self).sample_rate,
                    self.voice_data == old(self).voice_data,
                decreases NOTE_RANGE - i,
            {
                self.active_notes[i] = false;
                i += 1;
            }
            let ghost vd0 = self.voice_data@;
            let mut i: usize = 0;
            while i < VOICE_COUNT
                invariant
                    old(self).wf(),
                    old(self).params.voice_mode == VoiceMode::MonoLegatoTrill,
                    vd0 == old(self).voice_data@,
                    i <= VOICE_COUNT,
                    self.note_count == 0,
                    !self.mono_active,
                    forall|k: int| 0 <= k < NOTE_RANGE ==> !(#[trigger] self.active_notes@[k]),
                    self.events == old(self).events,
                    self.params == old(self).params,
                    self.note_log == old(self).note_log,
                    self.active_notes@.len() == NOTE_RANGE,
                    self.sample_rate == old(self).sample_rate,
                    self.voice_data@.len() == VOICE_COUNT,
                    forall|k: int| 0 <= k < VOICE_COUNT ==>
                        (#[trigger] self.voice_data@[k]).wf(),
                    forall|k: int| 0 <= k < VOICE_COUNT ==>
                        (#[trigger] self.voice_data@[k]).sample_rate == old(self).sample_rate,
                    forall|k: int| i <= k < VOICE_COUNT ==>
                        #[trigger] self.voice_data@[k] == vd0[k],
                    forall|k: int| 0 <= k < i ==> !(#[trigger] self.voice_data@[k]).is_on,
                decreases VOICE_COUNT - i,
            {
                if self.voice_data[i].is_on {
                    let mut v: VoiceData = self.voice_data[i];
                    v.note_off();
                    v.is_on = false;
                    self.voice_data[i] = v;
                }
                i += 1;
            }
        }
    }

    /// Silences everything at once: every voice off, the note stack and
    /// held-note marks cleared, and the event queue emptied.
    pub fn all_notes_off(&mut self)
        requires
            old(self).wf(),
        ensures
            final(self).wf(),
            final(self).params == old(self).params,
            final(self).sample_rate == old(self).sample_rate,
            !final(self).mono_active,
            final(self).note_count == 0,
            forall|i: int| 0 <= i < VOICE_COUNT ==>
                !(#[trigger] final(self).voice_data@[i]).is_on,
            forall|i: int| 0 <= i < NOTE_RANGE ==> !(#[trigger] final(self).active_notes@[i]),
            forall|i: int| 0 <= i < EVENT_COUNT ==>
                (#[trigger] final(self).events@[i]).typ == EventType::Empty,
            spec_count_on(final(self).voice_data@) == 0,
    {
        let mut i: usize = 0;
        while i < VOICE_COUNT
            invariant
                old(self).wf(),
                i <= VOICE_COUNT,
                self.events == old(self).events,
                self.params == old(self).params,
                self.mono_active == old(self).mono_active,
                self.note_count == old(self).note_count,
                self.note_log == old(self).note_log,
                self.active_notes == old(self).active_notes,
                self.sample_rate == old(self).sample_rate,
                self.voice_data@.len() == VOICE_COUNT,
                forall|k: int| 0 <= k < VOICE_COUNT ==> (#[trigger] self.voice_data@[k]).wf(),
                forall|k: int| 0 <= k < VOICE_COUNT ==>
                    (#[trigger] self.voice_data@[k]).sample_rate == old(self).sample_rate,
                forall|k: int| 0 <= k < i ==> !(#[trigger] self.voice_data@[k]).is_on,
            decreases VOICE_COUNT - i,
        {
            if self.voice_data[i].is_on {
                let mut v: VoiceData = self.voice_data[i];
                v.note_off();
                v.is_on = false;
                self.voice_data[i] = v;
            }
            i += 1;
        }
        self.mono_active = false;
        self.note_count = 0;
        let mut i: usize = 0;
        while i < NOTE_RANGE
            invariant
                old(self).wf(),
                i <= NOTE_RANGE,
                self.note_count == 0,
                !self.mono_active,
                self.events == old(self).events,
                self.params == old(self).params,
                self.note_log == old(self).note_log,
                self.active_notes@.len() == NOTE_RANGE,
                self.sample_rate == old(self).sample_rate,
                self.voice_data@.len() == VOICE_COUNT,
                forall|k: int| 0 <= k < VOICE_COUNT ==> (#[trigger] self.voice_data@[k]).wf(),
                forall|k: int| 0 <= k < VOICE_COUNT ==>
                    (#[trigger] self.voice_data@[k]).sample_rate == old(self).sample_rate,
                forall|k: int| 0 <= k < VOICE_COUNT ==>
                    !(#[trigger] self.voice_data@[k]).is_on,
                forall|k: int| 0 <= k < i ==> !(#[trigger] self.active_notes@[k]),
            decreases NOTE_RANGE - i,
        {
            self.active_notes[i] = false;
            i += 1;
        }
        self.clear_events();
        proof {
            lemma_count_off_zero(self.voice_data@, 0);
        }
    }

    /// Switches the voice mode; a real switch first silences everything.
    pub fn set_voice_mode(&mut self, vm: VoiceMode)
        requires
            old(self).wf(),
        ensures
            final(self).wf(),
            final(self).params.voice_mode == vm,
            final(self).sample_rate == old(self).sample_rate,
            old(self).params.voice_mode == vm ==> *final(self) == *old(self),
            old(self).params.voice_mode != vm ==> {
                &&& !final(self).mono_active
                &&& final(self).note_count == 0
                &&& spec_count_on(final(self).voice_data@) == 0
                &&& (forall|i: int| 0 <= i < VOICE_COUNT ==>
                    !(#[trigger] final(self).voice_data@[i]).is_on)
                &&& (forall|i: int| 0 <= i < NOTE_RANGE ==>
                    !(#[trigger] final(self).active_notes@[i]))
                &&& (forall|i: int| 0 <= i < EVENT_COUNT ==>
                    (#[trigger] final(self).events@[i]).typ == EventType::Empty)
                &&& final(self).params == (SynthDeviceParams {
                    voice_mode: vm,
                    ..old(self).params
                })
            },
    {
        if self.params.voice_mode == vm {
            return;
        }
        self.all_notes_off();
        self.params.voice_mode = vm;
    }

    /// The current voice mode.
    pub fn get_voice_mode(&self) -> (vm: VoiceMode)
        ensures
            vm == self.params.voice_mode,
    {
        self.params.voice_mode
    }

    /// One event-bounded chunk: fires every event that is due now, picks
    /// the next boundary — the nearest pending event, capped at the
    /// remaining samples — and ages the whole queue by it.  Every fired
    /// event comes back to the caller.
    pub fn next_segment(&mut self, remaining: i64) -> (r: (i64, Vec<Event>))
        requires
            old(self).wf(),
            1 <= remaining <= 0x4000_0000,
        ensures
            final(self).wf(),
            final(self).params == old(self).params,
            final(self).sample_rate == old(self).sample_rate,
            1 <= r.0 <= remaining,
            forall|i: int| 0 <= i < EVENT_COUNT
                && (#[trigger] old(self).events@[i]).typ != EventType::Empty
                && old(self).events@[i].delta_samples == 0 ==> {
                &&& final(self).events@[i].typ == EventType::Empty
                &&& has_event(r.1@, old(self).events@[i])
            },
            forall|i: int| 0 <= i < EVENT_COUNT
                && (#[trigger] old(self).events@[i]).typ != EventType::Empty
                && old(self).events@[i].delta_samples > 0 ==> {
                &&& final(self).events@[i] == (Event {
                    delta_samples: (old(self).events@[i].delta_samples - r.0) as i64,
                    ..old(self).events@[i]
                })
                &&& r.0 <= old(self).events@[i].delta_samples
            },
            forall|i: int| 0 <= i < EVENT_COUNT
                && (#[trigger] old(self).events@[i]).typ == EventType::Empty ==>
                final(self).events@[i].typ == EventType::Empty,
            r.0 == remaining || exists|i: int| 0 <= i < EVENT_COUNT
                && (#[trigger] old(self).events@[i]).typ != EventType::Empty
                && old(self).events@[i].delta_samples == r.0,
            exists|chain: Seq<(Seq<VoiceData>, bool, Seq<i32>, int, Seq<bool>,
                SynthDeviceParams)>| {
                &&& chain.len() == r.1@.len() + 1
                &&& chain[0] == dispatch_view(*old(self))
                &&& chain[chain.len() - 1] == dispatch_view(*final(self))
                &&& (forall|k: int| 0 <= k < r.1@.len() ==> #[trigger] spec_dispatch_ok(
                    chain[k], chain[k + 1], r.1@[k].typ, r.1@[k].note as int,
                    r.1@[k].velocity as int))
            },
    {
        let ghost evs0 = self.events@;
        let mut fired: Vec<Event> = Vec::new();
        let ghost mut chain: Seq<(Seq<VoiceData>, bool, Seq<i32>, int, Seq<bool>,
            SynthDeviceParams)> = seq![dispatch_view(*self)];
        let mut boundary: i64 = remaining;
        let mut i: usize = 0;
        while i < EVENT_COUNT
            invariant
                old(self).wf(),
                1 <= remaining <= 0x4000_0000,
                evs0 == old(self).events@,
                self.wf(),
                self.events@.len() == EVENT_COUNT,
                self.params == old(self).params,
                self.sample_rate == old(self).sample_rate,
                i <= EVENT_COUNT,
                1 <= boundary <= remaining,
                forall|j: int| i <= j < EVENT_COUNT ==> #[trigger] self.events@[j] == evs0[j],
                forall|j: int| 0 <= j < i && (#[trigger] evs0[j]).typ != EventType::Empty
                    && evs0[j].delta_samples == 0 ==> {
                    &&& self.events@[j].typ == EventType::Empty
                    &&& has_event(fired@, evs0[j])
                },
                forall|j: int| 0 <= j < i && (#[trigger] evs0[j]).typ != EventType::Empty
                    && evs0[j].delta_samples > 0 ==> {
                    &&& self.events@[j] == evs0[j]
                    &&& boundary <= evs0[j].delta_samples
                },
                forall|j: int| 0 <= j < i && (#[trigger] evs0[j]).typ == EventType::Empty ==>
                    self.events@[j].typ == EventType::Empty,
                boundary == remaining || exists|j: int| 0 <= j < i
                    && (#[trigger] evs0[j]).typ != EventType::Empty
                    && evs0[j].delta_samples == boundary,
                chain.len() == fired@.len() + 1,
                chain[0] == dispatch_view(*old(self)),
                chain[chain.len() - 1] == dispatch_view(*self),
                forall|k: int| 0 <= k < fired@.len() ==> #[trigger] spec_dispatch_ok(
                    chain[k], chain[k + 1], fired@[k].typ, fired@[k].note as int,
                    fired@[k].velocity as int),
            decreases EVENT_COUNT - i,
        {
            let e: Event = self.events[i];
            proof {
                assert(self.events@[i as int] == evs0[i as int]);
            }
            let is_empty = matches!(e.typ, EventType::Empty);
            if !is_empty {
                if e.delta_samples == 0 {
                    let ghost dv_pre = dispatch_view(*self);
                    let is_on_event = matches!(e.typ, EventType::NoteOn);
                    if is_on_event {
                        self.fire_note_on(e.note, e.velocity);
                    } else {
                        self.fire_note_off(e.note);
                    }
                    let mut cleared: Event = self.events[i];
                    cleared.clear();
                    self.events[i] = cleared;
                    let ghost dv_post = dispatch_view(*self);
                    let ghost chain_before = chain;
                    let ghost fired_before = fired@;
                    fired.push(e);
                    proof {
                        chain = chain.push(dv_post);
                        assert(spec_dispatch_ok(dv_pre, dv_post, e.typ, e.note as int,
                            e.velocity as int));
                        assert(chain_before[chain_before.len() - 1] == dv_pre);
                        assert(chain[chain.len() - 1] == dv_post);
                        assert(forall|k: int| 0 <= k < chain_before.len() ==>
                            #[trigger] chain[k] == chain_before[k]);
                        assert forall|k: int| 0 <= k < fired_before.len() + 1 implies
                            #[trigger] spec_dispatch_ok(chain[k], chain[k + 1],
                                fired@[k].typ, fired@[k].note as int,
                                fired@[k].velocity as int) by {
                            if k < fired_before.len() {
                                assert(chain[k] == chain_before[k]);
                                assert(chain[k + 1] == chain_before[k + 1]);
                                assert(fired@[k] == fired_before[k]);
                            } else {
                                assert(chain[k] == dv_pre);
                                assert(chain[k + 1] == dv_post);
                                assert(fired@[k] == e);
                            }
                        }
                    }
                    proof {
                        assert(fired@ == fired_before.push(e));
                        assert(fired@[fired_before.len() as int] == e);
                        assert(forall|k: int| 0 <= k < fired_before.len() ==>
                            #[trigger] fired@[k] == fired_before[k]);
                        assert forall|j: int| 0 <= j <= i
                            && (#[trigger] evs0[j]).typ != EventType::Empty
                            && evs0[j].delta_samples == 0 implies has_event(fired@, evs0[j])
                            by {
                            if j < i {
                                let k0 = choose|k: int| 0 <= k < fired_before.len()
                                    && fired_before[k] == evs0[j];
                                assert(fired@[k0] == evs0[j]);
                            } else {
                                assert(fired@[fired_before.len() as int] == evs0[j]);
                            }
                        }
                    }
                } else if e.delta_samples < boundary {
                    boundary = e.delta_samples;
                }
            }
            i += 1;
        }
        let ghost evs1 = self.events@;
        let mut i: usize = 0;
        while i < EVENT_COUNT
            invariant
                old(self).wf(),
                1 <= remaining <= 0x4000_0000,
                evs0 == old(self).events@,
                evs1.len() == EVENT_COUNT,
                self.wf(),
                self.events@.len() == EVENT_COUNT,
                self.params == old(self).params,
                self.sample_rate == old(self).sample_rate,
                i <= EVENT_COUNT,
                1 <= boundary <= remaining,
                forall|j: int| i <= j < EVENT_COUNT ==> #[trigger] self.events@[j] == evs1[j],
                forall|j: int| 0 <= j < EVENT_COUNT
                    && (#[trigger] evs0[j]).typ != EventType::Empty
                    && evs0[j].delta_samples == 0 ==> {
                    &&& evs1[j].typ == EventType::Empty
                    &&& has_event(fired@, evs0[j])
                },
                forall|j: int| 0 <= j < EVENT_COUNT
                    && (#[trigger] evs0[j]).typ != EventType::Empty
                    && evs0[j].delta_samples > 0 ==> {
                    &&& evs1[j] == evs0[j]
                    &&& boundary <= evs0[j].delta_samples
                },
                forall|j: int| 0 <= j < EVENT_COUNT
                    && (#[trigger] evs0[j]).typ == EventType::Empty ==>
                    evs1[j].typ == EventType::Empty,
                forall|j: int| 0 <= j < i && (#[trigger] evs0[j]).typ != EventType::Empty
                    && evs0[j].delta_samples > 0 ==>
                    self.events@[j] == (Event {
                        delta_samples: (evs0[j].delta_samples - boundary) as i64,
                        ..evs0[j]
                    }),
                forall|j: int| 0 <= j < i && !((#[trigger] evs0[j]).typ != EventType::Empty
                    && evs0[j].delta_samples > 0) ==>
                    self.events@[j].typ == EventType::Empty,
                chain.len() == fired@.len() + 1,
                chain[0] == dispatch_view(*old(self)),
                chain[chain.len() - 1] == dispatch_view(*self),
                forall|k: int| 0 <= k < fired@.len() ==> #[trigger] spec_dispatch_ok(
                    chain[k], chain[k + 1], fired@[k].typ, fired@[k].note as int,
                    fired@[k].velocity as int),
            decreases EVENT_COUNT - i,
        {
            let e: Event = self.events[i];
            proof {
                let ii = i as int;
                assert(self.events@[ii] == evs1[ii]);
                if evs0[ii].typ == EventType::Empty {
                    assert(evs1[ii].typ == EventType::Empty);
                } else if evs0[ii].delta_samples == 0 {
                    assert(evs1[ii].typ == EventType::Empty);
                } else {
                    assert(evs1[ii] == evs0[ii]);
                    assert(boundary <= evs0[ii].delta_samples);
                }
            }
            let is_empty = matches!(e.typ, EventType::Empty);
            if !is_empty {
                let mut aged: Event = e;
                aged.delta_samples = e.delta_samples - boundary;
                self.events[i] = aged;
            }
            i += 1;
        }
        proof {
            assert forall|i: int| 0 <= i < EVENT_COUNT
                && (#[trigger] old(self).events@[i]).typ != EventType::Empty
                && old(self).events@[i].delta_samples == 0 implies has_event(
                fired@, old(self).events@[i]) by {
                assert(old(self).events@[i] == evs0[i]);
            }
        }
        (boundary, fired)
    }

    /// Walks one callback block of `num_samples` samples in event-bounded
    /// chunks.  Every queued event fires at exactly the sample offset its
    /// delta named — never early, never late — and comes back with that
    /// offset; events beyond the block age by the block length.  The
    /// returned segments partition the block, so a caller can render each
    /// stretch against a stable set of sounding voices.
    pub fn run(&mut self, num_samples: usize) -> (plan: (Vec<Segment>, Vec<FiredEvent>))
        requires
            old(self).wf(),
            num_samples <= 0x4000_0000,
        ensures
            final(self).wf(),
            final(self).params == old(self).params,
            final(self).sample_rate == old(self).sample_rate,
            forall|i: int| 0 <= i < EVENT_COUNT
                && (#[trigger] old(self).events@[i]).typ != EventType::Empty ==> {
                let e = old(self).events@[i];
                if e.delta_samples < num_samples {
                    &&& final(self).events@[i].typ == EventType::Empty
                    &&& has_fired(plan.1@, FiredEvent {
                        offset: e.delta_samples,
                        typ: e.typ,
                        note: e.note,
                        velocity: e.velocity,
                    })
                } else {
                    final(self).events@[i] == (Event {
                        delta_samples: (e.delta_samples - num_samples) as i64,
                        ..e
                    })
                }
            },
            forall|i: int| 0 <= i < EVENT_COUNT
                && (#[trigger] old(self).events@[i]).typ == EventType::Empty ==>
                final(self).events@[i].typ == EventType::Empty,
            forall|k: int| 0 <= k < plan.0@.len() ==> (#[trigger] plan.0@[k]).length >= 1,
            forall|k: int| 0 <= k < plan.0@.len() - 1 ==> (#[trigger] plan.0@[k + 1]).offset
                == plan.0@[k].offset + plan.0@[k].length,
            num_samples > 0 ==> plan.0@.len() >= 1 && plan.0@[0].offset == 0
                && plan.0@.last().offset + plan.0@.last().length == num_samples,
            num_samples == 0 ==> plan.0@.len() == 0 && plan.1@.len() == 0,
            exists|chain: Seq<(Seq<VoiceData>, bool, Seq<i32>, int, Seq<bool>,
                SynthDeviceParams)>| {
                &&& chain.len() == plan.1@.len() + 1
                &&& chain[0] == dispatch_view(*old(self))
                &&& chain[chain.len() - 1] == dispatch_view(*final(self))
                &&& (forall|k: int| 0 <= k < plan.1@.len() ==> #[trigger] spec_dispatch_ok(
                    chain[k], chain[k + 1], plan.1@[k].typ, plan.1@[k].note as int,
                    plan.1@[k].velocity as int))
            },
    {
        let ghost evs0 = self.events@;
        let num: i64 = num_samples as i64;
        let mut segments: Vec<Segment> = Vec::new();
        let mut fired: Vec<FiredEvent> = Vec::new();
        let ghost mut total_chain: Seq<(Seq<VoiceData>, bool, Seq<i32>, int, Seq<bool>,
            SynthDeviceParams)> = seq![dispatch_view(*self)];
        let mut t: i64 = 0;
        while t < num
            invariant
                old(self).wf(),
                0 <= t <= num,
                num == num_samples,
                num <= 0x4000_0000,
                evs0 == old(self).events@,
                self.wf(),
                self.events@.len() == EVENT_COUNT,
                self.params == old(self).params,
                self.sample_rate == old(self).sample_rate,
                forall|i: int| 0 <= i < EVENT_COUNT
                    && (#[trigger] evs0[i]).typ != EventType::Empty
                    && evs0[i].delta_samples < t ==> {
                    &&& self.events@[i].typ == EventType::Empty
                    &&& has_fired(fired@, FiredEvent {
                        offset: evs0[i].delta_samples,
                        typ: evs0[i].typ,
                        note: evs0[i].note,
                        velocity: evs0[i].velocity,
                    })
                },
                forall|i: int| 0 <= i < EVENT_COUNT
                    && (#[trigger] evs0[i]).typ != EventType::Empty
                    && evs0[i].delta_samples >= t ==>
                    self.events@[i] == (Event {
                        delta_samples: (evs0[i].delta_samples - t) as i64,
                        ..evs0[i]
                    }),
                forall|i: int| 0 <= i < EVENT_COUNT
                    && (#[trigger] evs0[i]).typ == EventType::Empty ==>
                    self.events@[i].typ == EventType::Empty,
                forall|k: int| 0 <= k < segments@.len() ==> (#[trigger] segments@[k]).length
                    >= 1,
                forall|k: int| 0 <= k < segments@.len() - 1 ==> (#[trigger] segments@[k
                    + 1]).offset == segments@[k].offset + segments@[k].length,
                t > 0 ==> segments@.len() >= 1 && segments@[0].offset == 0
                    && segments@.last().offset + segments@.last().length == t,
                t == 0 ==> segments@.len() == 0 && fired@.len() == 0,
                total_chain.len() == fired@.len() + 1,
                total_chain[0] == dispatch_view(*old(self)),
                total_chain[total_chain.len() - 1] == dispatch_view(*self),
                forall|k: int| 0 <= k < fired@.len() ==> #[trigger] spec_dispatch_ok(
                    total_chain[k], total_chain[k + 1], fired@[k].typ,
                    fired@[k].note as int, fired@[k].velocity as int),
            decreases num - t,
        {
            let ghost evs_entry = self.events@;
            let ghost dv_before = dispatch_view(*self);
            let ghost chain_base = total_chain;
            let (seg, evts) = self.next_segment(num - t);
            segments.push(Segment { offset: t as usize, length: seg as usize });
            let ghost fired_base = fired@;
            let mut k: usize = 0;
            while k < evts.len()
                invariant
                    0 <= t,
                    k <= evts@.len(),
                    fired@.len() == fired_base.len() + k,
                    forall|m: int| 0 <= m < fired_base.len() ==> #[trigger] fired@[m]
                        == fired_base[m],
                    forall|m: int| 0 <= m < k ==> #[trigger] fired@[fired_base.len() + m]
                        == (FiredEvent {
                        offset: t,
                        typ: evts@[m].typ,
                        note: evts@[m].note,
                        velocity: evts@[m].velocity,
                    }),
                decreases evts@.len() - k,
            {
                let e: Event = evts[k];
                fired.push(FiredEvent {
                    offset: t,
                    typ: e.typ,
                    note: e.note,
                    velocity: e.velocity,
                });
                k += 1;
            }
            proof {
                // Splice this segment's dispatch chain onto the block's: the
                // fired-event mapping keeps type, note and velocity, so every
                // link of the chain still describes its fired event.
                let cs = choose|cs: Seq<(Seq<VoiceData>, bool, Seq<i32>, int, Seq<bool>,
                    SynthDeviceParams)>| {
                    &&& cs.len() == evts@.len() + 1
                    &&& cs[0] == dv_before
                    &&& cs[cs.len() - 1] == dispatch_view(*self)
                    &&& (forall|k: int| 0 <= k < evts@.len() ==> #[trigger] spec_dispatch_ok(
                        cs[k], cs[k + 1], evts@[k].typ, evts@[k].note as int,
                        evts@[k].velocity as int))
                };
                total_chain = chain_base + cs.subrange(1, cs.len() as int);
                let base = fired_base.len() as int;
                assert(chain_base.len() == base + 1);
                assert(total_chain.len() == fired@.len() + 1);
                assert(forall|k: int| 0 <= k < chain_base.len() ==>
                    #[trigger] total_chain[k] == chain_base[k]);
                assert forall|m: int| 0 <= m <= evts@.len() implies
                    #[trigger] total_chain[base + m] == cs[m] by {
                    if m == 0 {
                        assert(total_chain[base] == chain_base[base]);
                        assert(chain_base[base] == dv_before);
                    } else {
                        assert(total_chain[base + m] == cs.subrange(1, cs.len() as int)[m
                            - 1]);
                    }
                }
                assert(total_chain[total_chain.len() - 1] == dispatch_view(*self));
                assert forall|k: int| 0 <= k < fired@.len() implies
                    #[trigger] spec_dispatch_ok(total_chain[k], total_chain[k + 1],
                        fired@[k].typ, fired@[k].note as int, fired@[k].velocity as int)
                    by {
                    if k < base {
                        assert(total_chain[k] == chain_base[k]);
                        assert(total_chain[k + 1] == chain_base[k + 1]);
                        assert(fired@[k] == fired_base[k]);
                    } else {
                        let m = k - base;
                        assert(total_chain[base + m] == cs[m]);
                        assert(total_chain[base + m + 1] == cs[m + 1]);
                        assert(fired@[base + m] == (FiredEvent {
                            offset: t,
                            typ: evts@[m].typ,
                            note: evts@[m].note,
                            velocity: evts@[m].velocity,
                        }));
                        assert(spec_dispatch_ok(cs[m], cs[m + 1], evts@[m].typ,
                            evts@[m].note as int, evts@[m].velocity as int));
                    }
                }
                // Re-establish the elapsed-time relation at t + seg: events
                // already fired stay cleared, events due exactly now were
                // recorded with offset t, and nothing between t and t + seg
                // survived, because the boundary never passes a pending
                // event.
                let tn = t + seg;
                assert forall|i: int| 0 <= i < EVENT_COUNT
                    && (#[trigger] evs0[i]).typ != EventType::Empty
                    && evs0[i].delta_samples < tn implies {
                    &&& self.events@[i].typ == EventType::Empty
                    &&& has_fired(fired@, FiredEvent {
                        offset: evs0[i].delta_samples,
                        typ: evs0[i].typ,
                        note: evs0[i].note,
                        velocity: evs0[i].velocity,
                    })
                } by {
                    let d = evs0[i].delta_samples;
                    let want = FiredEvent {
                        offset: d,
                        typ: evs0[i].typ,
                        note: evs0[i].note,
                        velocity: evs0[i].velocity,
                    };
                    if d < t {
                        assert(evs_entry[i].typ == EventType::Empty);
                        let m0 = choose|m: int| 0 <= m < fired_base.len()
                            && fired_base[m] == want;
                        assert(fired@[m0] == want);
                    } else if d == t {
                        assert(evs_entry[i] == (Event { delta_samples: 0i64, ..evs0[i] }));
                        assert(evs_entry[i].typ != EventType::Empty
                            && evs_entry[i].delta_samples == 0);
                        assert(has_event(evts@, evs_entry[i]));
                        let k0 = choose|k: int| 0 <= k < evts@.len()
                            && evts@[k] == evs_entry[i];
                        assert(fired@[fired_base.len() + k0] == (FiredEvent {
                            offset: t,
                            typ: evs_entry[i].typ,
                            note: evs_entry[i].note,
                            velocity: evs_entry[i].velocity,
                        }));
                    } else {
                        assert(evs_entry[i] == (Event {
                            delta_samples: (d - t) as i64,
                            ..evs0[i]
                        }));
                        assert(evs_entry[i].typ != EventType::Empty
                            && evs_entry[i].delta_samples > 0);
                        assert(seg <= evs_entry[i].delta_samples);
                        assert(false);
                    }
                }
                assert forall|i: int| 0 <= i < EVENT_COUNT
                    && (#[trigger] evs0[i]).typ != EventType::Empty
                    && evs0[i].delta_samples >= tn implies self.events@[i] == (Event {
                    delta_samples: (evs0[i].delta_samples - tn) as i64,
                    ..evs0[i]
                }) by {
                    assert(evs_entry[i] == (Event {
                        delta_samples: (evs0[i].delta_samples - t) as i64,
                        ..evs0[i]
                    }));
                    assert(evs_entry[i].typ != EventType::Empty
                        && evs_entry[i].delta_samples > 0);
                }
                assert forall|i: int| 0 <= i < EVENT_COUNT
                    && (#[trigger] evs0[i]).typ == EventType::Empty implies
                    self.events@[i].typ == EventType::Empty by {
                    assert(evs_entry[i].typ == EventType::Empty);
                }
            }
            t = t + seg;
        }
        proof {
            assert forall|i: int| 0 <= i < EVENT_COUNT
                && (#[trigger] old(self).events@[i]).typ != EventType::Empty
                && old(self).events@[i].delta_samples < num_samples implies has_fired(
                fired@, FiredEvent {
                offset: old(self).events@[i].delta_samples,
                typ: old(self).events@[i].typ,
                note: old(self).events@[i].note,
                velocity: old(self).events@[i].velocity,
            }) by {
                assert(old(self).events@[i] == evs0[i]);
            }
        }
        (segments, fired)
    }
}

/// The smaller of two integers.
pub open spec fn imin(a: int, b: int) -> int {
    if a <= b {
        a
    } else {
        b
    }
}

/// How many voices are sounding before index `i`.
pub open spec fn count_on_upto(vds: Seq<VoiceData>, i: int) -> int
    decreases i,
{
    if i <= 0 {
        0
    } else {
        count_on_upto(vds, i - 1) + (if vds[i - 1].is_on { 1int } else { 0int })
    }
}

/// The whole count splits at any index into the part before and after.
pub proof fn lemma_count_split_at(s: Seq<VoiceData>, i: int)
    requires
        0 <= i <= s.len(),
    ensures
        count_on_from(s, 0) == count_on_upto(s, i) + count_on_from(s, i),
    decreases i,
{
    if i > 0 {
        lemma_count_split_at(s, i - 1);
        assert(count_on_from(s, i - 1) == (if s[i - 1].is_on { 1int } else { 0int })
            + count_on_from(s, i));
    }
}

/// A suffix count lies between zero and the suffix length.
pub proof fn lemma_count_bounds(s: Seq<VoiceData>, k: int)
    requires
        0 <= k <= s.len(),
    ensures
        0 <= count_on_from(s, k) <= s.len() - k,
    decreases s.len() - k,
{
    if k < s.len() {
        lemma_count_bounds(s, k + 1);
    }
}

/// A prefix count lies between zero and the prefix length.
pub proof fn lemma_count_upto_bounds(s: Seq<VoiceData>, i: int)
    requires
        0 <= i,
    ensures
        0 <= count_on_upto(s, i) <= i,
    decreases i,
{
    if i > 0 {
        lemma_count_upto_bounds(s, i - 1);
    }
}

/// A suffix whose count equals its length is entirely sounding.
pub proof fn lemma_count_full(s: Seq<VoiceData>, k: int)
    requires
        0 <= k <= s.len(),
        count_on_from(s, k) == s.len() - k,
    ensures
        forall|i: int| k <= i < s.len() ==> (#[trigger] s[i]).is_on,
    decreases s.len() - k,
{
    if k < s.len() {
        lemma_count_bounds(s, k + 1);
        lemma_count_full(s, k + 1);
    }
}

/// The number of glide samples a slide parameter selects: ten seconds at
/// full range, shaped by a quartic curve so most of the range gives fast
/// glides.
pub open spec fn spec_slide_samples(slide: int, sample_rate: int) -> int {
    let fp = FP_ONE as int;
    let s2 = (slide * slide) / fp;
    let s4 = (s2 * s2) / fp;
    (sample_rate * (10 * s4)) / fp
}

/// Computes the glide length for a slide parameter at a sample rate.
pub fn slide_samples_for(slide: i64, sample_rate: u32) -> (n: i64)
    requires
        0 <= slide <= FP_ONE,
        1 <= sample_rate <= 1_000_000,
    ensures
        n == spec_slide_samples(slide as int, sample_rate as int),
        0 <= n <= SLIDE_MAX,
{
    proof {
        assert(0 <= slide * slide <= 0x1_0000i64 * 0x1_0000i64) by (nonlinear_arith)
            requires 0 <= slide <= 0x1_0000i64;
        assert((slide * slide) / (FP_ONE as int) <= FP_ONE) by (nonlinear_arith)
            requires 0 <= slide * slide <= 0x1_0000i64 * 0x1_0000i64, FP_ONE == 0x1_0000i64;
    }
    let s2: i64 = slide * slide / FP_ONE;
    proof {
        assert(0 <= s2 * s2 <= 0x1_0000i64 * 0x1_0000i64) by (nonlinear_arith)
            requires 0 <= s2 <= 0x1_0000i64;
        assert((s2 * s2) / (FP_ONE as int) <= FP_ONE) by (nonlinear_arith)
            requires 0 <= s2 * s2 <= 0x1_0000i64 * 0x1_0000i64, FP_ONE == 0x1_0000i64;
    }
    let s4: i64 = s2 * s2 / FP_ONE;
    proof {
        assert(0 <= (sample_rate as i64) * (10 * s4) <= 1_000_000i64 * (10 * 0x1_0000i64))
            by (nonlinear_arith)
            requires 0 <= s4 <= 0x1_0000i64, 1 <= sample_rate <= 1_000_000u32;
        assert(((sample_rate as int) * (10 * s4)) / (FP_ONE as int) <= 1_000_000i64 * 10)
            by (nonlinear_arith)
            requires 0 <= (sample_rate as int) * (10 * s4) <= 1_000_000i64 * (10 * 0x1_0000i64),
                FP_ONE == 0x1_0000i64;
        vstd::arithmetic::div_mod::lemma_div_pos_is_pos(
            (sample_rate as int) * (10 * s4), FP_ONE as int);
    }
    (sample_rate as i64) * (10 * s4) / FP_ONE
}

/// How many silent slots before index `i` were claimed between the two
/// pool states: a claimed slot is off in `pre` and on in `post`.
pub open spec fn started_before(pre: Seq<VoiceData>, post: Seq<VoiceData>, i: int) -> int
    decreases i,
{
    if i <= 0 {
        0
    } else {
        started_before(pre, post, i - 1) + (if !pre[i - 1].is_on && post[i - 1].is_on {
            1int
        } else {
            0int
        })
    }
}

/// The claim count over a prefix depends only on the flags in it.
pub proof fn lemma_started_congruent(
    pre: Seq<VoiceData>,
    a: Seq<VoiceData>,
    b: Seq<VoiceData>,
    i: int,
)
    requires
        forall|k: int| 0 <= k < i ==> (#[trigger] a[k]).is_on == b[k].is_on,
    ensures
        started_before(pre, a, i) == started_before(pre, b, i),
    decreases i,
{
    if i > 0 {
        lemma_started_congruent(pre, a, b, i - 1);
    }
}

/// The spread fraction of the claimed voice of rank `m` (zero-based, in
/// slot order): full scale for the first claim, falling evenly to zero
/// for the last of the unisono stack, or zero outright for a single
/// voice.
pub open spec fn spec_spread_f(unisono: int, m: int) -> int {
    if unisono > 1 {
        ((unisono - 1 - m) * FP_ONE) / (unisono - 1)
    } else {
        0
    }
}

/// The unisono detune of the claimed voice of rank `m`: its spread
/// fraction of the detune amount.
pub open spec fn spec_spread_detune(unisono: int, m: int, detune_amt: int) -> int {
    (spec_spread_f(unisono, m) * detune_amt) / (FP_ONE as int)
}

/// The pan position of the claimed voice of rank `m`: the spread fraction
/// recentred and scaled by the pan amount, around the middle.
pub open spec fn spec_spread_pan(unisono: int, m: int, pan_amt: int) -> int {
    spec_tdiv((spec_spread_f(unisono, m) - FP_ONE / 2) * (2 * pan_amt - FP_ONE), FP_ONE as int)
        + FP_ONE / 2
}

/// What claiming voices for a fired note does to the pool: sounding
/// voices are untouched, exactly min(unisono, free) silent slots — the
/// first free ones, in slot order — start sounding the note with the
/// documented detune and pan spread by claim rank, the rest stay as they
/// were, and a full pool leaves the pool exactly unchanged.
pub open spec fn spec_alloc_effect(
    vd0: Seq<VoiceData>,
    vd1: Seq<VoiceData>,
    note: int,
    unisono: int,
    detune_amt: int,
    pan_amt: int,
) -> bool {
    &&& vd0.len() == VOICE_COUNT
    &&& vd1.len() == VOICE_COUNT
    &&& (forall|i: int| 0 <= i < VOICE_COUNT && vd0[i].is_on ==> #[trigger] vd1[i] == vd0[i])
    &&& (forall|i: int| 0 <= i < VOICE_COUNT && !vd0[i].is_on && (#[trigger] vd1[i]).is_on
        ==> {
        &&& vd1[i].note == note
        &&& vd1[i].current_note == note * NOTE_ONE
        &&& !vd1[i].slide_active
        &&& vd1[i].detune == spec_spread_detune(unisono, started_before(vd0, vd1, i),
            detune_amt)
        &&& vd1[i].pan == spec_spread_pan(unisono, started_before(vd0, vd1, i), pan_amt)
    })
    &&& (forall|i: int| 0 <= i < VOICE_COUNT && !vd0[i].is_on && !(#[trigger] vd1[i]).is_on
        ==> vd1[i] == vd0[i])
    &&& spec_count_on(vd1) == spec_count_on(vd0) + imin(unisono, VOICE_COUNT - spec_count_on(
        vd0))
    &&& (spec_count_on(vd0) == VOICE_COUNT ==> vd1 == vd0)
}

/// The device fields note dispatch acts on — the voice pool, the
/// mono-legato bookkeeping and the parameters — taken apart from the
/// event queue, so a dispatch's effect can be stated independently of
/// how the queue ages around it.
pub open spec fn dispatch_view(d: SynthDevice) -> (
    Seq<VoiceData>,
    bool,
    Seq<i32>,
    int,
    Seq<bool>,
    SynthDeviceParams,
) {
    (d.voice_data@, d.mono_active, d.note_log@, d.note_count as int, d.active_notes@, d.params)
}

/// What dispatching a due note-on does to the dispatch view.  Polyphonic:
/// the note claims free voices with the documented spread and the mono
/// bookkeeping is untouched.  Mono-legato: a full note stack drops the
/// event; otherwise the note is marked held and pushed, the first note
/// claims voices like the polyphonic case, and every later one glides the
/// sounding voices toward it — the set of sounding voices unchanged.
pub open spec fn spec_note_on_effect(
    pre: (Seq<VoiceData>, bool, Seq<i32>, int, Seq<bool>, SynthDeviceParams),
    post: (Seq<VoiceData>, bool, Seq<i32>, int, Seq<bool>, SynthDeviceParams),
    note: int,
    velocity: int,
) -> bool {
    let (vd0, mono0, log0, nc0, act0, p0) = pre;
    let (vd1, mono1, log1, nc1, act1, p1) = post;
    &&& p1 == p0
    &&& if p0.voice_mode == VoiceMode::Polyphonic {
        &&& spec_alloc_effect(vd0, vd1, note, p0.voices_unisono as int,
            p0.voices_detune as int, p0.voices_pan as int)
        &&& mono1 == mono0
        &&& log1 == log0
        &&& nc1 == nc0
        &&& act1 == act0
    } else if nc0 >= NOTE_RANGE {
        post == pre
    } else {
        &&& act1 == act0.update(note, true)
        &&& nc1 == nc0 + 1
        &&& log1 == log0.update(nc0, note as i32)
        &&& mono1
        &&& if !mono0 {
            spec_alloc_effect(vd0, vd1, note, p0.voices_unisono as int,
                p0.voices_detune as int, p0.voices_pan as int)
        } else {
            &&& vd0.len() == VOICE_COUNT
            &&& vd1.len() == VOICE_COUNT
            &&& spec_count_on(vd1) == spec_count_on(vd0)
            &&& (forall|i: int| 0 <= i < VOICE_COUNT ==> (#[trigger] vd1[i]).is_on
                == vd0[i].is_on)
            &&& (forall|i: int| 0 <= i < VOICE_COUNT && vd0[i].is_on ==> {
                &&& (#[trigger] vd1[i]).slide_active
                &&& vd1[i].destination_note == note
            })
            &&& (forall|i: int| 0 <= i < VOICE_COUNT && !vd0[i].is_on ==> #[trigger] vd1[i]
                == vd0[i])
        }
    }
}

/// What dispatching a due note-off does to the dispatch view.
/// Polyphonic: exactly the voices sounding the note fall silent, all else
/// untouched.  Mono-legato: the note's held mark clears; if it topped the
/// note stack, either a note still held below takes over by a glide with
/// the sounding set unchanged, or the stack empties and every voice and
/// held mark clears.
pub open spec fn spec_note_off_effect(
    pre: (Seq<VoiceData>, bool, Seq<i32>, int, Seq<bool>, SynthDeviceParams),
    post: (Seq<VoiceData>, bool, Seq<i32>, int, Seq<bool>, SynthDeviceParams),
    note: int,
) -> bool {
    let (vd0, mono0, log0, nc0, act0, p0) = pre;
    let (vd1, mono1, log1, nc1, act1, p1) = post;
    &&& p1 == p0
    &&& log1 == log0
    &&& if p0.voice_mode == VoiceMode::Polyphonic {
        &&& mono1 == mono0
        &&& nc1 == nc0
        &&& act1 == act0
        &&& vd0.len() == VOICE_COUNT
        &&& vd1.len() == VOICE_COUNT
        &&& (forall|i: int| 0 <= i < VOICE_COUNT ==> #[trigger] vd1[i] == (if vd0[i].is_on
            && vd0[i].note == note {
            VoiceData { is_on: false, ..vd0[i] }
        } else {
            vd0[i]
        }))
    } else {
        ||| {
            &&& vd1 == vd0
            &&& nc1 == nc0
            &&& mono1 == mono0
            &&& act1 == act0.update(note, false)
        }
        ||| {
            &&& 1 <= nc1 <= nc0
            &&& mono1 == mono0
            &&& act1 == act0.update(note, false)
            &&& vd0.len() == VOICE_COUNT
            &&& vd1.len() == VOICE_COUNT
            &&& act1[log1[nc1 - 1] as int]
            &&& (forall|i: int| 0 <= i < VOICE_COUNT ==> (#[trigger] vd1[i]).is_on
                == vd0[i].is_on)
            &&& (forall|i: int| 0 <= i < VOICE_COUNT && vd0[i].is_on ==> {
                &&& (#[trigger] vd1[i]).slide_active
                &&& vd1[i].destination_note == log1[nc1 - 1]
            })
        }
        ||| {
            &&& nc1 == 0
            &&& !mono1
            &&& vd1.len() == VOICE_COUNT
            &&& (forall|i: int| 0 <= i < VOICE_COUNT ==> !(#[trigger] vd1[i]).is_on)
            &&& (forall|i: int| 0 <= i < NOTE_RANGE ==> !(#[trigger] act1[i]))
        }
    }
}

/// What firing one queued event does to the dispatch view: a note-on or
/// note-off effect; an empty slot fires nothing.
pub open spec fn spec_dispatch_ok(
    pre: (Seq<VoiceData>, bool, Seq<i32>, int, Seq<bool>, SynthDeviceParams),
    post: (Seq<VoiceData>, bool, Seq<i32>, int, Seq<bool>, SynthDeviceParams),
    typ: EventType,
    note: int,
    velocity: int,
) -> bool {
    match typ {
        EventType::NoteOn => spec_note_on_effect(pre, post, note, velocity),
        EventType::NoteOff => spec_note_off_effect(pre, post, note),
        EventType::Empty => post == pre,
    }
}

/// A pool of silent voices counts zero.
pub proof fn lemma_count_off_zero(vds: Seq<VoiceData>, k: int)
    requires
        forall|i: int| 0 <= i < vds.len() ==> !(#[trigger] vds[i]).is_on,
    ensures
        count_on_from(vds, k) == 0,
    decreases vds.len() - k,
{
    if 0 <= k < vds.len() {
        lemma_count_off_zero(vds, k + 1);
    }
}

} // verus!
