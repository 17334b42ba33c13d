use slaughter::envelope::{Envelope, EnvelopeState};
use slaughter::parameters::FP_ONE;

#[test]
fn new_envelope_defaults() {
    let e = Envelope::new(44100);
    assert_eq!(e.state, EnvelopeState::Finished);
    assert_eq!(e.attack, FP_ONE);
    assert_eq!(e.decay, 5 * FP_ONE);
    assert_eq!(e.sustain, FP_ONE / 2);
    assert_eq!(e.release, 3 * FP_ONE / 2);
    assert_eq!(e.get_value(), 0);
}

#[test]
fn attack_values_never_decrease() {
    let mut e = Envelope::new(44100);
    e.attack = 2 * FP_ONE;
    e.trigger();
    let mut last = e.get_value();
    let mut saw_attack = false;
    for _ in 0..400 {
        if e.state != EnvelopeState::Attack {
            break;
        }
        saw_attack = true;
        let v = e.get_value();
        assert!(v >= last, "attack fell from {} to {}", last, v);
        last = v;
        e.next();
    }
    assert!(saw_attack);
}

#[test]
fn decay_boundary_starts_at_full_level() {
    let mut e = Envelope::new(1000);
    // One position unit per sample at 1 kHz: the first tick ends a
    // one-unit attack exactly, leaving the decay position at zero.
    e.attack = 65536;
    e.trigger();
    e.next();
    assert_eq!(e.state, EnvelopeState::Decay);
    assert_eq!(e.pos, 0);
    assert_eq!(e.get_value(), FP_ONE);
}

#[test]
fn release_is_continuous_mid_attack() {
    let mut e = Envelope::new(44100);
    e.attack = 40 * FP_ONE;
    e.trigger();
    for _ in 0..500 {
        e.next();
    }
    assert_eq!(e.state, EnvelopeState::Attack);
    let before = e.get_value();
    assert!(before > 0);
    e.off();
    assert_eq!(e.state, EnvelopeState::Release);
    assert_eq!(e.get_value(), before);
}

#[test]
fn release_is_continuous_mid_decay() {
    let mut e = Envelope::new(44100);
    e.attack = FP_ONE / 4;
    e.decay = 100 * FP_ONE;
    e.trigger();
    for _ in 0..2000 {
        e.next();
    }
    assert_eq!(e.state, EnvelopeState::Decay);
    let before = e.get_value();
    e.off();
    assert_eq!(e.get_value(), before);
}

#[test]
fn full_cycle_reaches_silence() {
    let mut e = Envelope::new(1000);
    e.attack = 2 * FP_ONE;
    e.decay = 2 * FP_ONE;
    e.release = 2 * FP_ONE;
    e.sustain = FP_ONE / 2;
    e.trigger();
    for _ in 0..10 {
        e.next();
    }
    assert_eq!(e.state, EnvelopeState::Sustain);
    assert_eq!(e.get_value(), FP_ONE / 2);
    e.off();
    for _ in 0..10 {
        e.next();
    }
    assert_eq!(e.state, EnvelopeState::Finished);
    assert_eq!(e.get_value(), 0);
}

#[test]
fn trigger_restarts_from_any_state() {
    let mut e = Envelope::new(1000);
    e.trigger();
    for _ in 0..50 {
        e.next();
    }
    e.trigger();
    assert_eq!(e.state, EnvelopeState::Attack);
    assert_eq!(e.pos, 0);
    assert_eq!(e.get_value(), 0);
}

#[test]
fn release_is_continuous_from_sustain() {
    let mut e = Envelope::new(1000);
    e.attack = FP_ONE;
    e.decay = FP_ONE;
    e.sustain = 3 * FP_ONE / 4;
    e.trigger();
    for _ in 0..5 {
        e.next();
    }
    assert_eq!(e.state, EnvelopeState::Sustain);
    let before = e.get_value();
    assert_eq!(before, 3 * FP_ONE / 4);
    e.off();
    assert_eq!(e.get_value(), before);
}
