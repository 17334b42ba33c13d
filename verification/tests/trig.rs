use slaughter::parameters::FP_ONE;
use slaughter::trig::{self, CosTab, COS_TAB_SIZE, PHASE_PERIOD, PHASE_QUARTER};

fn build_tab() -> CosTab {
    let mut entries: Vec<i64> = Vec::new();
    for i in 0..=COS_TAB_SIZE {
        let phase = (i as f64) * (std::f64::consts::PI * 2.0) / (COS_TAB_SIZE as f64);
        let mut v = (phase.cos() * FP_ONE as f64).round() as i64;
        if v > FP_ONE {
            v = FP_ONE;
        }
        if v < -FP_ONE {
            v = -FP_ONE;
        }
        entries.push(v);
    }
    // Close the period exactly.
    entries[COS_TAB_SIZE] = entries[0];
    CosTab::init_cos_tab(entries).expect("a true cosine table satisfies the table invariant")
}

#[test]
fn test_sin_cos() {
    let tab = build_tab();
    assert_eq!(tab.at_zero(), FP_ONE);
    assert_eq!(trig::fast_cos(&tab, 0), FP_ONE);
}

#[test]
fn cos_is_bounded_everywhere() {
    let tab = build_tab();
    let mut phase: u64 = 0;
    while phase < PHASE_PERIOD {
        let c = trig::fast_cos(&tab, phase);
        assert!((-FP_ONE..=FP_ONE).contains(&c), "phase={} c={}", phase, c);
        phase += 1_234_567;
    }
}

#[test]
fn cos_has_exact_period() {
    let tab = build_tab();
    for k in 0..200u64 {
        let phase = k * 17_654_321;
        assert_eq!(
            trig::fast_cos(&tab, phase),
            trig::fast_cos(&tab, phase + PHASE_PERIOD)
        );
    }
}

#[test]
fn cos_matches_reference_cosine() {
    let tab = build_tab();
    for k in 0..2000u64 {
        let phase = k * 2_147_483;
        let x = (phase % PHASE_PERIOD) as f64 / PHASE_PERIOD as f64
            * (2.0 * std::f64::consts::PI);
        let want = x.cos();
        let got = trig::fast_cos(&tab, phase) as f64 / FP_ONE as f64;
        assert!((got - want).abs() < 1e-3, "phase={} got={} want={}", phase, got, want);
    }
}

#[test]
fn sin_is_cos_shifted() {
    let tab = build_tab();
    // A quarter period before the peak, the sine peaks.
    assert_eq!(trig::fast_sin(&tab, PHASE_QUARTER), FP_ONE);
    let s0 = trig::fast_sin(&tab, 0);
    assert!(s0.abs() <= FP_ONE / 128, "sin(0) ~ 0, got {}", s0);
}

#[test]
fn square_waves_are_bounded() {
    let tab = build_tab();
    for k in 0..500u64 {
        let phase = (k * 8_588_934) % PHASE_PERIOD;
        let s135 = trig::square_135(&tab, phase);
        let s35 = trig::square_35(&tab, phase);
        assert!((-2 * FP_ONE..=2 * FP_ONE).contains(&s135));
        assert!((-FP_ONE..=FP_ONE).contains(&s35));
    }
}

#[test]
fn bad_tables_are_rejected() {
    assert!(CosTab::init_cos_tab(vec![0; 10]).is_none());
    let mut too_big = vec![0i64; COS_TAB_SIZE + 1];
    too_big[3] = 2 * FP_ONE;
    assert!(CosTab::init_cos_tab(too_big).is_none());
    let mut unclosed = vec![0i64; COS_TAB_SIZE + 1];
    unclosed[0] = 5;
    assert!(CosTab::init_cos_tab(unclosed).is_none());
}
