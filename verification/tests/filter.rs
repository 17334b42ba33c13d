use slaughter::parameters::{FilterType, FP_ONE};
use slaughter::state_variable_filter::Filter;
use slaughter::trig::{CosTab, COS_TAB_SIZE};

fn build_tab() -> CosTab {
    let mut entries: Vec<i64> = Vec::new();
    for i in 0..=COS_TAB_SIZE {
        let phase = (i as f64) * (std::f64::consts::PI * 2.0) / (COS_TAB_SIZE as f64);
        let mut v = (phase.cos() * FP_ONE as f64).round() as i64;
        v = v.clamp(-FP_ONE, FP_ONE);
        entries.push(v);
    }
    entries[COS_TAB_SIZE] = entries[0];
    CosTab::init_cos_tab(entries).unwrap()
}

#[test]
fn impulse_response_is_bounded_and_decays() {
    let tab = build_tab();
    let mut fl = Filter::new(44100);
    fl.set_freq(1000 * FP_ONE);
    fl.set_q(FP_ONE);
    let mut early: i64 = 0;
    let mut late: i64 = 0;
    for n in 0..10_000 {
        let input = if n == 0 { FP_ONE } else { 0 };
        let out = fl.next(&tab, input);
        assert!(out.abs() <= 4 * FP_ONE, "unbounded response at sample {}: {}", n, out);
        if n < 1000 {
            early += out.abs();
        }
        if n >= 9000 {
            late += out.abs();
        }
    }
    assert!(early > 0, "the impulse produced no response");
    // Fixed-point rounding can leave a tiny limit cycle, so the tail is
    // required to be far below full scale rather than exactly silent.
    assert!(
        late <= 1000 * 16 && late * 5 < early,
        "the response did not decay: early={} late={}",
        early,
        late
    );
}

#[test]
fn coefficient_matches_prewarped_sine() {
    let tab = build_tab();
    let mut fl = Filter::new(44100);
    fl.set_freq(1000 * FP_ONE);
    fl.next(&tab, 0);
    // 1.5 * sin(pi * 1000 / (2 * 44100)) ~ 0.0534.
    let want = (1.5 * (std::f64::consts::PI * 1000.0 / (2.0 * 44100.0)).sin()
        * FP_ONE as f64) as i64;
    assert!((fl.f - want).abs() <= 80, "f={} want={}", fl.f, want);
}

#[test]
fn dirty_flag_is_lazy() {
    let tab = build_tab();
    let mut fl = Filter::new(44100);
    fl.next(&tab, 0);
    assert!(!fl.recalculate);
    fl.set_freq(fl.freq);
    assert!(!fl.recalculate, "setting the same cutoff keeps the coefficient");
    fl.set_freq(500 * FP_ONE);
    assert!(fl.recalculate);
    fl.set_type(FilterType::Highpass);
    assert!(fl.recalculate);
    fl.next(&tab, 0);
    assert!(!fl.recalculate);
}

#[test]
fn lowpass_passes_dc() {
    let tab = build_tab();
    let mut fl = Filter::new(44100);
    fl.set_freq(5000 * FP_ONE);
    fl.set_q(FP_ONE);
    let mut out = 0;
    for _ in 0..5000 {
        out = fl.next(&tab, FP_ONE / 2);
    }
    // A lowpass settles near the constant input level.
    assert!((out - FP_ONE / 2).abs() < FP_ONE / 8, "settled at {}", out);
}
