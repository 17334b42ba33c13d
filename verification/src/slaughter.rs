//! The slaughter voice's parameter surface, and the engine builder.
//!
//! The voice itself — three band-limited oscillators into the filter,
//! shaped by three envelopes — renders floating-point audio outside this
//! crate; everything it is controlled by lives here: the thirty-three
//! named control ports, their fixed-point defaults, and the device that
//! schedules its notes.

use vstd::prelude::*;
use crate::parameters::FP_ONE;
use crate::parameters::FilterType;
use crate::helpers::SignalIOParams;
use crate::synth_device::SynthDevice;
use crate::synth_device::spec_count_on;

verus! {

/// Every control the slaughter voice reads, resolved to plain fixed-point
/// values.
pub struct SlaughterParams {
    pub params: SignalIOParams,
    pub osc1_waveform: i64,
    pub osc1_pulse_width: i64,
    pub osc1_volume: i64,
    pub osc1_detune_coarse: i64,
    pub osc1_detune_fine: i64,
    pub osc2_waveform: i64,
    pub osc2_pulse_width: i64,
    pub osc2_volume: i64,
    pub osc2_detune_coarse: i64,
    pub osc2_detune_fine: i64,
    pub osc3_waveform: i64,
    pub osc3_pulse_width: i64,
    pub osc3_volume: i64,
    pub osc3_detune_coarse: i64,
    pub osc3_detune_fine: i64,
    pub noise_volume: i64,
    pub filter_type: FilterType,
    pub filter_freq: i64,
    pub filter_resonance: i64,
    pub filter_mod_amt: i64,
    pub amp_attack: i64,
    pub amp_decay: i64,
    pub amp_sustain: i64,
    pub amp_release: i64,
    pub mod_attack: i64,
    pub mod_decay: i64,
    pub mod_sustain: i64,
    pub mod_release: i64,
    pub pitch_attack: i64,
    pub pitch_decay: i64,
    pub pitch_sustain: i64,
    pub pitch_release: i64,
    pub pitch_env_amt: i64,
}

impl SlaughterParams {
    /// Declares the thirty-three control ports and loads their defaults:
    /// full oscillator volumes, sawtooth waveforms, centred pulse widths,
    /// a wide-open lowpass, and the stock envelope times.
    #[verifier::rlimit(50)]
    pub fn new() -> (sp: SlaughterParams)
        ensures
            sp.params.wf(),
            sp.params.names@.len() == 33,
            sp.osc1_volume == FP_ONE,
            sp.osc2_volume == FP_ONE,
            sp.osc3_volume == FP_ONE,
            sp.noise_volume == FP_ONE,
            sp.osc1_waveform == 0,
            sp.osc2_waveform == 0,
            sp.osc3_waveform == 0,
            sp.osc1_pulse_width == FP_ONE / 2,
            sp.osc2_pulse_width == FP_ONE / 2,
            sp.osc3_pulse_width == FP_ONE / 2,
            sp.osc1_detune_coarse == 0,
            sp.osc2_detune_coarse == 0,
            sp.osc3_detune_coarse == 0,
            sp.osc1_detune_fine == 0,
            sp.osc2_detune_fine == 0,
            sp.osc3_detune_fine == 0,
            sp.filter_type == FilterType::Lowpass,
            sp.filter_freq == 19980 * FP_ONE,
            sp.filter_resonance == FP_ONE,
            sp.filter_mod_amt == FP_ONE / 2,
            sp.amp_attack == FP_ONE,
            sp.amp_decay == 5 * FP_ONE,
            sp.amp_sustain == FP_ONE / 2,
            sp.amp_release == 3 * FP_ONE / 2,
            sp.mod_attack == FP_ONE,
            sp.mod_decay == 5 * FP_ONE,
            sp.mod_sustain == FP_ONE,
            sp.mod_release == 3 * FP_ONE / 2,
            sp.pitch_attack == FP_ONE,
            sp.pitch_decay == 5 * FP_ONE,
            sp.pitch_sustain == FP_ONE / 2,
            sp.pitch_release == 3 * FP_ONE / 2,
            sp.pitch_env_amt == 0,
    {
        let mut p = SignalIOParams::new();
        p.input(<String as vstd::string::StringExecFns>::from_str("o1_vol"), 0, FP_ONE, FP_ONE);
        p.input(<String as vstd::string::StringExecFns>::from_str("o2_vol"), 0, FP_ONE, FP_ONE);
        p.input(<String as vstd::string::StringExecFns>::from_str("o3_vol"), 0, FP_ONE, FP_ONE);
        p.input(<String as vstd::string::StringExecFns>::from_str("nse_vol"), 0, FP_ONE, FP_ONE);
        p.input(<String as vstd::string::StringExecFns>::from_str("o1_wav"), 0, FP_ONE, 0);
        p.input(<String as vstd::string::StringExecFns>::from_str("o2_wav"), 0, FP_ONE, 0);
        p.input(<String as vstd::string::StringExecFns>::from_str("o3_wav"), 0, FP_ONE, 0);
        p.input(<String as vstd::string::StringExecFns>::from_str("o1_pw"), 0, FP_ONE,
            FP_ONE / 2);
        p.input(<String as vstd::string::StringExecFns>::from_str("o2_pw"), 0, FP_ONE,
            FP_ONE / 2);
        p.input(<String as vstd::string::StringExecFns>::from_str("o3_pw"), 0, FP_ONE,
            FP_ONE / 2);
        p.input(<String as vstd::string::StringExecFns>::from_str("o1_detc"), 0, FP_ONE, 0);
        p.input(<String as vstd::string::StringExecFns>::from_str("o2_detc"), 0, FP_ONE, 0);
        p.input(<String as vstd::string::StringExecFns>::from_str("o3_detc"), 0, FP_ONE, 0);
        p.input(<String as vstd::string::StringExecFns>::from_str("o1_detf"), 0, FP_ONE, 0);
        p.input(<String as vstd::string::StringExecFns>::from_str("o2_detf"), 0, FP_ONE, 0);
        p.input(<String as vstd::string::StringExecFns>::from_str("o3_detf"), 0, FP_ONE, 0);
        p.input(<String as vstd::string::StringExecFns>::from_str("f_typ"), 0, FP_ONE, 0);
        p.input(<String as vstd::string::StringExecFns>::from_str("f_freq"), 0, 19980 * FP_ONE,
            19980 * FP_ONE);
        p.input(<String as vstd::string::StringExecFns>::from_str("f_res"), 0, FP_ONE, FP_ONE);
        p.input(<String as vstd::string::StringExecFns>::from_str("f_mod"), 0, FP_ONE,
            FP_ONE / 2);
        p.input(<String as vstd::string::StringExecFns>::from_str("amp_a"), 0, FP_ONE, FP_ONE);
        p.input(<String as vstd::string::StringExecFns>::from_str("amp_d"), 0, FP_ONE,
            5 * FP_ONE);
        p.input(<String as vstd::string::StringExecFns>::from_str("amp_s"), 0, FP_ONE,
            FP_ONE / 2);
        p.input(<String as vstd::string::StringExecFns>::from_str("amp_r"), 0, FP_ONE,
            3 * FP_ONE / 2);
        p.input(<String as vstd::string::StringExecFns>::from_str("mod_a"), 0, FP_ONE, FP_ONE);
        p.input(<String as vstd::string::StringExecFns>::from_str("mod_d"), 0, FP_ONE,
            5 * FP_ONE);
        p.input(<String as vstd::string::StringExecFns>::from_str("mod_s"), 0, FP_ONE, FP_ONE);
        p.input(<String as vstd::string::StringExecFns>::from_str("mod_r"), 0, FP_ONE,
            3 * FP_ONE / 2);
        p.input(<String as vstd::string::StringExecFns>::from_str("pit_a"), 0, FP_ONE, FP_ONE);
        p.input(<String as vstd::string::StringExecFns>::from_str("pit_d"), 0, FP_ONE,
            5 * FP_ONE);
        p.input(<String as vstd::string::StringExecFns>::from_str("pit_s"), 0, FP_ONE,
            FP_ONE / 2);
        p.input(<String as vstd::string::StringExecFns>::from_str("pit_r"), 0, FP_ONE,
            3 * FP_ONE / 2);
        p.input(<String as vstd::string::StringExecFns>::from_str("pit_eamt"), 0, FP_ONE, 0);

        let osc1_volume: i64 = p.v(0);
        let osc2_volume: i64 = p.v(1);
        let osc3_volume: i64 = p.v(2);
        let noise_volume: i64 = p.v(3);
        let osc1_waveform: i64 = p.v(4);
        let osc2_waveform: i64 = p.v(5);
        let osc3_waveform: i64 = p.v(6);
        let osc1_pulse_width: i64 = p.v(7);
        let osc2_pulse_width: i64 = p.v(8);
        let osc3_pulse_width: i64 = p.v(9);
        let osc1_detune_coarse: i64 = p.v(10);
        let osc2_detune_coarse: i64 = p.v(11);
        let osc3_detune_coarse: i64 = p.v(12);
        let osc1_detune_fine: i64 = p.v(13);
        let osc2_detune_fine: i64 = p.v(14);
        let osc3_detune_fine: i64 = p.v(15);
        let filter_type: FilterType = FilterType::from_value(p.v(16));
        let filter_freq: i64 = p.v(17);
        let filter_resonance: i64 = p.v(18);
        let filter_mod_amt: i64 = p.v(19);
        let amp_attack: i64 = p.v(20);
        let amp_decay: i64 = p.v(21);
        let amp_sustain: i64 = p.v(22);
        let amp_release: i64 = p.v(23);
        let mod_attack: i64 = p.v(24);
        let mod_decay: i64 = p.v(25);
        let mod_sustain: i64 = p.v(26);
        let mod_release: i64 = p.v(27);
        let pitch_attack: i64 = p.v(28);
        let pitch_decay: i64 = p.v(29);
        let pitch_sustain: i64 = p.v(30);
        let pitch_release: i64 = p.v(31);
        let pitch_env_amt: i64 = p.v(32);
        SlaughterParams {
            osc1_volume,
            osc2_volume,
            osc3_volume,
            noise_volume,
            osc1_waveform,
            osc2_waveform,
            osc3_waveform,
            osc1_pulse_width,
            osc2_pulse_width,
            osc3_pulse_width,
            osc1_detune_coarse,
            osc2_detune_coarse,
            osc3_detune_coarse,
            osc1_detune_fine,
            osc2_detune_fine,
            osc3_detune_fine,
            filter_type,
            filter_freq,
            filter_resonance,
            filter_mod_amt,
            amp_attack,
            amp_decay,
            amp_sustain,
            amp_release,
            mod_attack,
            mod_decay,
            mod_sustain,
            mod_release,
            pitch_attack,
            pitch_decay,
            pitch_sustain,
            pitch_release,
            pitch_env_amt,
            params: p,
        }
    }
}

impl SlaughterParams {
    /// Reloads every resolved field from the port bank through its
    /// documented mapping: pulse widths and resonance invert, the cutoff
    /// and envelope times go through their curves, and the pitch-envelope
    /// amount is centred.  Out-of-range port values are clamped into the
    /// normalized range first, so no mapping ever sees a value outside its
    /// domain.
    pub fn exec(&mut self)
        requires
            old(self).params.wf(),
            old(self).params.names@.len() == 33,
        ensures
            final(self).params == old(self).params,
            ({
                let v = |i: int| crate::helpers::spec_clamp01(old(self).params.inputs@[i] as int);
                &&& final(self).osc1_volume == v(0)
                &&& final(self).osc2_volume == v(1)
                &&& final(self).osc3_volume == v(2)
                &&& final(self).noise_volume == v(3)
                &&& final(self).osc1_waveform == v(4)
                &&& final(self).osc2_waveform == v(5)
                &&& final(self).osc3_waveform == v(6)
                &&& final(self).osc1_pulse_width == FP_ONE - v(7)
                &&& final(self).osc2_pulse_width == FP_ONE - v(8)
                &&& final(self).osc3_pulse_width == FP_ONE - v(9)
                &&& final(self).osc1_detune_coarse == v(10)
                &&& final(self).osc2_detune_coarse == v(11)
                &&& final(self).osc3_detune_coarse == v(12)
                &&& final(self).osc1_detune_fine == v(13)
                &&& final(self).osc2_detune_fine == v(14)
                &&& final(self).osc3_detune_fine == v(15)
                &&& final(self).filter_type == crate::parameters::spec_filter_type_from_value(
                    v(16))
                &&& final(self).filter_freq == crate::helpers::spec_param_to_frequency(v(17))
                &&& final(self).filter_resonance == FP_ONE - v(18)
                &&& final(self).filter_mod_amt == v(19)
                &&& final(self).amp_attack == crate::helpers::spec_scalar_to_env_value(v(20))
                &&& final(self).amp_decay == crate::helpers::spec_scalar_to_env_value(v(21))
                &&& final(self).amp_sustain == v(22)
                &&& final(self).amp_release == crate::helpers::spec_scalar_to_env_value(v(23))
                &&& final(self).mod_attack == crate::helpers::spec_scalar_to_env_value(v(24))
                &&& final(self).mod_decay == crate::helpers::spec_scalar_to_env_value(v(25))
                &&& final(self).mod_sustain == v(26)
                &&& final(self).mod_release == crate::helpers::spec_scalar_to_env_value(v(27))
                &&& final(self).pitch_attack == crate::helpers::spec_scalar_to_env_value(v(28))
                &&& final(self).pitch_decay == crate::helpers::spec_scalar_to_env_value(v(29))
                &&& final(self).pitch_sustain == v(30)
                &&& final(self).pitch_release == crate::helpers::spec_scalar_to_env_value(v(31))
                &&& final(self).pitch_env_amt == (v(32) - FP_ONE / 2) * 72
            }),
    {
        self.osc1_volume = clamp01(self.params.v(0));
        self.osc2_volume = clamp01(self.params.v(1));
        self.osc3_volume = clamp01(self.params.v(2));
        self.noise_volume = clamp01(self.params.v(3));
        self.osc1_waveform = clamp01(self.params.v(4));
        self.osc2_waveform = clamp01(self.params.v(5));
        self.osc3_waveform = clamp01(self.params.v(6));
        self.osc1_pulse_width = FP_ONE - clamp01(self.params.v(7));
        self.osc2_pulse_width = FP_ONE - clamp01(self.params.v(8));
        self.osc3_pulse_width = FP_ONE - clamp01(self.params.v(9));
        self.osc1_detune_coarse = clamp01(self.params.v(10));
        self.osc2_detune_coarse = clamp01(self.params.v(11));
        self.osc3_detune_coarse = clamp01(self.params.v(12));
        self.osc1_detune_fine = clamp01(self.params.v(13));
        self.osc2_detune_fine = clamp01(self.params.v(14));
        self.osc3_detune_fine = clamp01(self.params.v(15));
        self.filter_type = crate::parameters::FilterType::from_value(clamp01(self.params.v(16)));
        self.filter_freq = crate::helpers::param_to_frequency(clamp01(self.params.v(17)));
        self.filter_resonance = FP_ONE - clamp01(self.params.v(18));
        self.filter_mod_amt = clamp01(self.params.v(19));
        self.amp_attack = crate::helpers::scalar_to_env_value(clamp01(self.params.v(20)));
        self.amp_decay = crate::helpers::scalar_to_env_value(clamp01(self.params.v(21)));
        self.amp_sustain = clamp01(self.params.v(22));
        self.amp_release = crate::helpers::scalar_to_env_value(clamp01(self.params.v(23)));
        self.mod_attack = crate::helpers::scalar_to_env_value(clamp01(self.params.v(24)));
        self.mod_decay = crate::helpers::scalar_to_env_value(clamp01(self.params.v(25)));
        self.mod_sustain = clamp01(self.params.v(26));
        self.mod_release = crate::helpers::scalar_to_env_value(clamp01(self.params.v(27)));
        self.pitch_attack = crate::helpers::scalar_to_env_value(clamp01(self.params.v(28)));
        self.pitch_decay = crate::helpers::scalar_to_env_value(clamp01(self.params.v(29)));
        self.pitch_sustain = clamp01(self.params.v(30));
        self.pitch_release = crate::helpers::scalar_to_env_value(clamp01(self.params.v(31)));
        self.pitch_env_amt = (clamp01(self.params.v(32)) - FP_ONE / 2) * 72;
    }
}

/// Clamps a port value into the normalized parameter range.
fn clamp01(v: i64) -> (r: i64)
    ensures
        r == crate::helpers::spec_clamp01(v as int),
        0 <= r <= FP_ONE,
{
    if v < 0 {
        0
    } else if v > FP_ONE {
        FP_ONE
    } else {
        v
    }
}

/// Whole semitones of coarse detune a control value selects: the value
/// scaled just shy of twenty-five and truncated, so full range gives two
/// octaves.
pub fn coarse_detune(detune: i64) -> (semis: i64)
    requires
        0 <= detune <= FP_ONE,
    ensures
        semis == (detune * 2499) / (100 * FP_ONE as int),
        0 <= semis <= 24,
{
    proof {
        assert(0 <= detune * 2499 <= 0x1_0000i64 * 2499) by (nonlinear_arith)
            requires 0 <= detune <= 0x1_0000i64;
        assert((detune * 2499) / (100 * FP_ONE as int) <= 24) by (nonlinear_arith)
            requires 0 <= detune * 2499 <= 0x1_0000i64 * 2499, FP_ONE == 0x1_0000i64;
        vstd::arithmetic::div_mod::lemma_div_pos_is_pos(detune as int * 2499,
            100 * FP_ONE as int);
    }
    detune * 2499 / (100 * FP_ONE)
}

/// Builds the engine that schedules slaughter voices, together with the
/// voice's control surface.
pub fn new_slaughter(sample_rate: u32) -> (r: (SynthDevice, SlaughterParams))
    requires
        1 <= sample_rate <= 1_000_000,
    ensures
        r.0.wf(),
        r.0.sample_rate == sample_rate,
        spec_count_on(r.0.voice_data@) == 0,
        forall|i: int| 0 <= i < crate::synth_device::VOICE_COUNT ==>
            !(#[trigger] r.0.voice_data@[i]).is_on,
        forall|i: int| 0 <= i < crate::synth_device::EVENT_COUNT ==>
            (#[trigger] r.0.events@[i]).typ == crate::synth_device::EventType::Empty,
        r.1.params.wf(),
        r.1.params.names@.len() == 33,
{
    let params = SlaughterParams::new();
    let sd = SynthDevice::new(sample_rate);
    (sd, params)
}

} // verus!
