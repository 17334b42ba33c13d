use slaughter::parameters::{FilterType, Spread, VoiceMode, FP_ONE};
use slaughter::helpers;

#[test]
fn test_into_and_from() {
    let x: f32 = FilterType::Bandpass.value() as f32;
    assert_eq!(x, 2.0);
    let y: FilterType = FilterType::from_value(2 * FP_ONE);
    assert_eq!(y, FilterType::Bandpass);
}

#[test]
fn filter_type_values_enumerate() {
    assert_eq!(FilterType::Lowpass.value(), 0);
    assert_eq!(FilterType::Highpass.value(), 1);
    assert_eq!(FilterType::Bandpass.value(), 2);
    assert_eq!(FilterType::Notch.value(), 3);
    assert_eq!(FilterType::from_value(0), FilterType::Lowpass);
}

#[test]
fn filter_type_round_trip() {
    for t in [
        FilterType::Lowpass,
        FilterType::Highpass,
        FilterType::Bandpass,
        FilterType::Notch,
    ] {
        assert_eq!(FilterType::from_value(t.value() * FP_ONE), t);
    }
}

#[test]
fn voice_mode_round_trip() {
    for m in [VoiceMode::Polyphonic, VoiceMode::MonoLegatoTrill] {
        assert_eq!(VoiceMode::from_value(m.value()), m);
    }
}

#[test]
fn spread_round_trip() {
    for s in [Spread::Mono, Spread::FullInvert, Spread::ModInvert] {
        assert_eq!(Spread::from_value(s.value()), s);
    }
}

#[test]
fn frequency_mapping_endpoints() {
    assert_eq!(helpers::param_to_frequency(0), 20 * FP_ONE);
    assert_eq!(helpers::param_to_frequency(FP_ONE), 20000 * FP_ONE);
}

#[test]
fn frequency_round_trip_dense() {
    // One fixed-point count is about 1.5e-5, so a slack of three counts is
    // well inside the 1e-4 tolerance.
    for p in 0..=FP_ONE {
        let rt = helpers::frequency_to_param(helpers::param_to_frequency(p));
        let d = p - rt;
        assert!((0..=3).contains(&d), "p={} rt={}", p, rt);
    }
}

#[test]
fn q_round_trip_dense() {
    for p in 0..=FP_ONE {
        let rt = helpers::q_to_param(helpers::param_to_q(p));
        let d = p - rt;
        assert!((0..=1).contains(&d), "p={} rt={}", p, rt);
        if p >= FP_ONE / 2 {
            assert_eq!(rt, p);
        }
    }
}

#[test]
fn resonance_round_trip_dense() {
    for p in 0..=FP_ONE {
        let rt = helpers::resonance_to_param(helpers::param_to_resonance(p));
        let d = p - rt;
        assert!((0..=1).contains(&d), "p={} rt={}", p, rt);
    }
}

#[test]
fn unisono_round_trip_exact() {
    for u in 1..=16 {
        assert_eq!(helpers::param_to_unisono(helpers::unisono_to_param(u)), u);
    }
    assert_eq!(helpers::param_to_unisono(0), 1);
    assert_eq!(helpers::param_to_unisono(FP_ONE), 16);
}

#[test]
fn boolean_round_trip() {
    assert!(helpers::param_to_boolean(helpers::boolean_to_param(true)));
    assert!(!helpers::param_to_boolean(helpers::boolean_to_param(false)));
}

#[test]
fn vibrato_round_trip_dense() {
    assert_eq!(helpers::param_to_vibrato_freq(0), 7 * FP_ONE);
    // Below the quantization floor of the square-law curve the inverse can
    // be short by a few dozen counts; past it the pair is tight.
    for p in 470..=FP_ONE {
        let rt = helpers::vibrato_freq_to_param(helpers::param_to_vibrato_freq(p));
        let d = p - rt;
        assert!((0..=1).contains(&d), "p={} rt={}", p, rt);
    }
}

#[test]
fn env_value_round_trip_dense() {
    assert_eq!(helpers::scalar_to_env_value(0), FP_ONE);
    for p in 0..=FP_ONE {
        let rt = helpers::env_value_to_scalar(helpers::scalar_to_env_value(p));
        let d = p - rt;
        assert!((0..=4).contains(&d), "p={} rt={}", p, rt);
    }
}

#[test]
fn volume_round_trip_sampled() {
    // volume_to_scalar squares 0.4 * v; scalar_to_volume inverts it.  The
    // squared scalar is quantized, so the inverse is coarse for quiet
    // volumes and tightens as the volume rises.
    for v in (0..=(5 * FP_ONE / 2)).step_by(37) {
        let rt = helpers::scalar_to_volume(helpers::volume_to_scalar(v));
        assert!(rt <= v, "v={} rt={}", v, rt);
        let tolerance = if v < 1000 { 660 } else { 210_000 / v + 4 };
        assert!((v - rt).abs() <= tolerance, "v={} rt={}", v, rt);
    }
    assert_eq!(helpers::volume_to_scalar(0), 0);
    assert_eq!(helpers::volume_to_scalar(5 * FP_ONE / 2), FP_ONE);
}

#[test]
fn db_mapping_round_trip_sampled() {
    let range = 24 * FP_ONE;
    for p in (0..=FP_ONE).step_by(13) {
        let db = helpers::param_to_db(p, range);
        let rt = helpers::db_to_param(db, range);
        assert!((p - rt).abs() <= 2, "p={} rt={}", p, rt);
    }
    assert_eq!(helpers::param_to_db(FP_ONE / 2, range), 0);
    assert_eq!(helpers::param_to_db(FP_ONE, range), range);
}

#[test]
fn pan_weights_match_isqrt() {
    assert_eq!(helpers::pan_to_scalar_left(0), FP_ONE);
    assert_eq!(helpers::pan_to_scalar_right(FP_ONE), FP_ONE);
    assert_eq!(helpers::pan_to_scalar_right(0), 0);
    let mid = helpers::pan_to_scalar_right(FP_ONE / 2);
    // sqrt(0.5) is about 0.7071.
    let expect = (0.5f64.sqrt() * FP_ONE as f64) as i64;
    assert!((mid - expect).abs() <= 2, "mid={} expect={}", mid, expect);
}

#[test]
fn clamp_and_mix_basics() {
    assert_eq!(helpers::clamp(5, 0, 10), 5);
    assert_eq!(helpers::clamp(-5, 0, 10), 0);
    assert_eq!(helpers::clamp(15, 0, 10), 10);
    assert_eq!(helpers::mix(FP_ONE, 3 * FP_ONE, 0), FP_ONE);
    assert_eq!(helpers::mix(FP_ONE, 3 * FP_ONE, FP_ONE), 3 * FP_ONE);
    assert_eq!(helpers::mix(FP_ONE, 3 * FP_ONE, FP_ONE / 2), 2 * FP_ONE);
}

#[test]
fn isqrt_exact_values() {
    assert_eq!(helpers::isqrt(0), 0);
    assert_eq!(helpers::isqrt(1), 1);
    assert_eq!(helpers::isqrt(3), 1);
    assert_eq!(helpers::isqrt(4), 2);
    assert_eq!(helpers::isqrt(u64::MAX), 0xFFFF_FFFF);
}
