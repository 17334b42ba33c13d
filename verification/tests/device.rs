use slaughter::parameters::{VoiceMode, FP_ONE};
use slaughter::synth_device::{
    slide_samples_for, Event, EventType, SynthDevice, VoiceData, NOTE_ONE, VOICE_COUNT,
};

fn count_on(dev: &SynthDevice) -> usize {
    dev.voice_data.iter().filter(|v| v.is_on).count()
}

#[test]
fn scheduler_fires_at_exact_offsets() {
    let mut dev = SynthDevice::new(44100);
    dev.note_on(60, 100, 0);
    dev.note_on(64, 100, 10);
    dev.note_off(60, 10);
    dev.note_on(72, 100, 50);
    let (segments, fired) = dev.run(64);

    let offsets: Vec<i64> = fired.iter().map(|f| f.offset).collect();
    assert_eq!(offsets, vec![0, 10, 10, 50]);
    assert_eq!(fired[0].typ, EventType::NoteOn);
    assert_eq!(fired[0].note, 60);
    assert_eq!(fired[1].typ, EventType::NoteOn);
    assert_eq!(fired[1].note, 64);
    assert_eq!(fired[2].typ, EventType::NoteOff);
    assert_eq!(fired[2].note, 60);
    assert_eq!(fired[3].typ, EventType::NoteOn);
    assert_eq!(fired[3].note, 72);

    // The segments partition the 64-sample block at the event boundaries.
    assert_eq!(segments[0].offset, 0);
    let mut end = 0;
    for s in &segments {
        assert_eq!(s.offset, end);
        assert!(s.length >= 1);
        end = s.offset + s.length;
    }
    assert_eq!(end, 64);
    // Everything fired; the queue is empty again.
    assert!(dev.events.iter().all(|e| e.typ == EventType::Empty));
}

#[test]
fn scheduler_keeps_far_events_for_later_blocks() {
    let mut dev = SynthDevice::new(44100);
    dev.note_on(60, 100, 100);
    let (_, fired) = dev.run(64);
    assert!(fired.is_empty());
    let pending: Vec<&Event> = dev
        .events
        .iter()
        .filter(|e| e.typ != EventType::Empty)
        .collect();
    assert_eq!(pending.len(), 1);
    assert_eq!(pending[0].delta_samples, 36);
    let (_, fired2) = dev.run(64);
    assert_eq!(fired2.len(), 1);
    assert_eq!(fired2[0].offset, 36);
    assert_eq!(count_on(&dev), 1);
}

#[test]
fn mono_legato_keeps_one_voice() {
    let mut dev = SynthDevice::new(44100);
    dev.set_voice_mode(VoiceMode::MonoLegatoTrill);

    dev.note_on(60, 100, 0);
    dev.run(5);
    assert_eq!(count_on(&dev), 1);

    dev.note_on(64, 100, 0);
    dev.run(5);
    assert_eq!(count_on(&dev), 1);
    let gliding: Vec<&VoiceData> = dev.voice_data.iter().filter(|v| v.is_on).collect();
    assert_eq!(gliding[0].destination_note, 64);

    dev.note_off(64, 0);
    dev.run(10);
    assert_eq!(count_on(&dev), 1, "releasing the top note glides back, still sounding");
    let back: Vec<&VoiceData> = dev.voice_data.iter().filter(|v| v.is_on).collect();
    assert_eq!(back[0].destination_note, 60);

    dev.note_off(60, 0);
    dev.run(10);
    assert_eq!(count_on(&dev), 0, "releasing the last held note silences the voice");
    assert!(!dev.mono_active);
}

#[test]
fn voice_pool_exhaustion_drops_notes() {
    let mut dev = SynthDevice::new(44100);
    dev.params.voices_unisono = 16;
    // Sixteen unisono voices per note: seventeen notes want 272 slots, but
    // the pool holds 256; the overflow is dropped, deterministically.
    for n in 0..17 {
        dev.note_on(n, 100, 0);
        dev.run(1);
    }
    assert_eq!(count_on(&dev), VOICE_COUNT);
    dev.note_on(100, 100, 0);
    dev.run(1);
    assert_eq!(count_on(&dev), VOICE_COUNT, "a full pool drops the note-on");
}

#[test]
fn polyphonic_note_off_matches_by_note() {
    let mut dev = SynthDevice::new(44100);
    dev.note_on(60, 100, 0);
    dev.note_on(64, 100, 0);
    dev.run(1);
    assert_eq!(count_on(&dev), 2);
    dev.note_off(60, 0);
    dev.run(1);
    assert_eq!(count_on(&dev), 1);
    let left: Vec<&VoiceData> = dev.voice_data.iter().filter(|v| v.is_on).collect();
    assert_eq!(left[0].note, 64);
}

#[test]
fn unisono_spread_detunes_and_pans() {
    let mut dev = SynthDevice::new(44100);
    dev.params.voices_unisono = 3;
    dev.params.voices_detune = FP_ONE;
    dev.params.voices_pan = FP_ONE;
    dev.note_on(60, 100, 0);
    dev.run(1);
    assert_eq!(count_on(&dev), 3);
    let on: Vec<&VoiceData> = dev.voice_data.iter().filter(|v| v.is_on).collect();
    // Spread indices 1, 1/2, 0 over the three voices.
    assert_eq!(on[0].detune, FP_ONE);
    assert_eq!(on[1].detune, FP_ONE / 2);
    assert_eq!(on[2].detune, 0);
    assert_eq!(on[0].pan, FP_ONE);
    assert_eq!(on[1].pan, FP_ONE / 2);
    assert_eq!(on[2].pan, 0);
    assert!(on.iter().all(|v| v.note == 60));
}

#[test]
fn all_notes_off_resets_everything() {
    let mut dev = SynthDevice::new(44100);
    dev.note_on(60, 100, 0);
    dev.note_on(61, 100, 30);
    dev.run(1);
    dev.all_notes_off();
    assert_eq!(count_on(&dev), 0);
    assert!(dev.events.iter().all(|e| e.typ == EventType::Empty));
    assert_eq!(dev.note_count, 0);
}

#[test]
fn switching_voice_mode_silences_first() {
    let mut dev = SynthDevice::new(44100);
    dev.note_on(60, 100, 0);
    dev.run(1);
    assert_eq!(count_on(&dev), 1);
    dev.set_voice_mode(VoiceMode::MonoLegatoTrill);
    assert_eq!(count_on(&dev), 0);
    assert_eq!(dev.get_voice_mode(), VoiceMode::MonoLegatoTrill);
    dev.set_voice_mode(VoiceMode::MonoLegatoTrill);
    assert_eq!(dev.get_voice_mode(), VoiceMode::MonoLegatoTrill);
}

#[test]
fn slide_samples_follow_quartic_curve() {
    // Full slide: ten seconds of glide at the sample rate.
    assert_eq!(slide_samples_for(FP_ONE, 44100), 441000);
    assert_eq!(slide_samples_for(0, 44100), 0);
    // Half slide: 10 * (1/2)^4 = 0.625 seconds.
    assert_eq!(slide_samples_for(FP_ONE / 2, 48000), 30000);
}

#[test]
fn voice_glide_converges_and_snaps() {
    let mut v = VoiceData::new(44100);
    v.note_on(60, 100, 0, FP_ONE / 2);
    v.note_slide(100, 72);
    let mut last = v.current_note;
    for _ in 0..100 {
        let n = v.get_note();
        assert!(n >= last, "glide moved away from its destination");
        assert!(n <= 72 * NOTE_ONE, "glide overshot its destination");
        last = n;
    }
    // The counter has run out: the next step snaps exactly.
    let n = v.get_note();
    assert_eq!(n, 72 * NOTE_ONE);
    assert!(!v.slide_active);
    assert_eq!(v.note, 72);
}

#[test]
fn event_queue_overflow_drops_events() {
    let mut dev = SynthDevice::new(44100);
    for i in 0..300 {
        dev.note_on(60, 100, i);
    }
    let pending = dev.events.iter().filter(|e| e.typ != EventType::Empty).count();
    assert_eq!(pending, 256);
}

#[test]
fn mono_stack_survives_overflow() {
    let mut dev = SynthDevice::new(44100);
    dev.set_voice_mode(VoiceMode::MonoLegatoTrill);
    // More pushes than the note stack can hold: the engine keeps going and
    // never claims a second voice.
    for _ in 0..130 {
        dev.note_on(60, 100, 0);
        dev.run(1);
        assert!(count_on(&dev) <= 1);
    }
    dev.note_off(60, 0);
    dev.run(1);
    assert_eq!(count_on(&dev), 0);
}

#[test]
fn zero_length_glide_snaps_next_sample() {
    let mut v = VoiceData::new(44100);
    v.note_on(60, 100, 0, FP_ONE / 2);
    v.note_slide(0, 72);
    let n = v.get_note();
    assert_eq!(n, 72 * NOTE_ONE);
    assert!(!v.slide_active);
}
