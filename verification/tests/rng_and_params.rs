use slaughter::helpers::SignalIOParams;
use slaughter::parameters::{FilterType, FP_ONE};
use slaughter::rng::{next_xoroshiro128, RandGen};
use slaughter::slaughter::{coarse_detune, new_slaughter, SlaughterParams};
use slaughter::synth_device::SynthDeviceParams;

#[test]
fn xoroshiro_produces_known_sequence() {
    let mut state: [u64; 2] = [0x193a6754a8a7d469, 0x97830e05113ba7bb];
    assert_eq!(next_xoroshiro128(&mut state), 0xb0bd7559b9e37c24);
    assert_eq!(state, [0xe0619a050f3ca038, 0x99c73d28eb96951b]);
    assert_eq!(next_xoroshiro128(&mut state), 0x7a28d72dfad33553);
    assert_eq!(next_xoroshiro128(&mut state), 0x16c1410205cfde51);
}

#[test]
fn randgen_matches_free_function() {
    let mut g = RandGen::new();
    let mut state: [u64; 2] = g.r;
    for _ in 0..10 {
        assert_eq!(g.next(), next_xoroshiro128(&mut state));
    }
}

#[test]
fn randgen_with_time_still_steps() {
    let mut g = RandGen::new_with_time();
    let a = g.next();
    let b = g.next();
    // Nothing is promised of the seed, but the generator must keep
    // stepping deterministically from wherever it started.
    let mut h = RandGen { r: g.r };
    assert_eq!(h.next(), g.next());
    let _ = (a, b);
}

#[test]
fn signal_io_params_set_by_name() {
    let mut p = SignalIOParams::new();
    p.input(String::from("alpha"), 0, FP_ONE, 10);
    p.input(String::from("beta"), 0, FP_ONE, 20);
    assert_eq!(p.v(0), 10);
    assert_eq!(p.v(1), 20);
    assert!(p.set(&String::from("beta"), 99, false));
    assert_eq!(p.v(1), 99);
    assert_eq!(p.defaults[1], 20);
    assert!(p.set(&String::from("beta"), 55, true));
    assert_eq!(p.defaults[1], 55);
    assert!(!p.set(&String::from("gamma"), 1, false), "an unknown name stores nothing");
    assert_eq!(p.v(0), 10);
}

#[test]
fn device_params_defaults() {
    let mut bank = SignalIOParams::new();
    let dp = SynthDeviceParams::new_with_params(&mut bank);
    assert_eq!(bank.names.len(), 9);
    assert_eq!(dp.master_level, FP_ONE);
    assert_eq!(dp.voices_unisono, 1);
    assert_eq!(dp.vibrato_freq, 7 * FP_ONE);
    assert_eq!(dp.slide, 0);
}

#[test]
fn slaughter_params_defaults_and_exec() {
    let mut sp = SlaughterParams::new();
    assert_eq!(sp.params.names.len(), 33);
    assert_eq!(sp.osc1_volume, FP_ONE);
    assert_eq!(sp.osc1_pulse_width, FP_ONE / 2);
    assert_eq!(sp.filter_type, FilterType::Lowpass);
    assert_eq!(sp.filter_freq, 19980 * FP_ONE);
    assert_eq!(sp.amp_decay, 5 * FP_ONE);

    // Drive the cutoff port and refresh: the resolved field follows the
    // documented square-law mapping of the clamped port value.
    assert!(sp.params.set(&String::from("f_freq"), FP_ONE / 2, false));
    sp.exec();
    assert_eq!(
        sp.filter_freq,
        slaughter::helpers::param_to_frequency(FP_ONE / 2)
    );
    // Pulse width inverts.
    assert!(sp.params.set(&String::from("o1_pw"), FP_ONE / 4, false));
    sp.exec();
    assert_eq!(sp.osc1_pulse_width, FP_ONE - FP_ONE / 4);
}

#[test]
fn coarse_detune_spans_two_octaves() {
    assert_eq!(coarse_detune(0), 0);
    assert_eq!(coarse_detune(FP_ONE), 24);
    assert_eq!(coarse_detune(FP_ONE / 2), 12);
}

#[test]
fn new_slaughter_builds_a_quiet_engine() {
    let (dev, params) = new_slaughter(44100);
    assert_eq!(dev.sample_rate, 44100);
    assert!(dev.voice_data.iter().all(|v| !v.is_on));
    assert_eq!(params.params.names.len(), 33);
}
