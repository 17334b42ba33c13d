use slaughter::parameters::FP_ONE;
use slaughter::sample_player::{LoopBoundaryMode, LoopMode, SamplePlayer, POS_ONE};

fn player_with(len: usize) -> SamplePlayer {
    let mut sp = SamplePlayer::new(44100);
    sp.sample_len = len;
    sp.sample_loop_start = 0;
    sp.sample_loop_length = len as i64;
    sp
}

#[test]
fn unit_pitch_walks_frames_in_order() {
    let mut sp = player_with(8);
    sp.loop_mode = LoopMode::Disabled;
    sp.calc_pitch(POS_ONE);
    sp.init_pos();
    sp.run_prep();
    for want in 0..8 {
        let step = sp.next().expect("active inside the sample");
        assert_eq!(step.index, want);
        assert_eq!(step.fract, 0);
    }
    assert!(sp.next().is_none(), "past the end the player deactivates");
    assert!(!sp.is_active);
}

#[test]
fn repeat_mode_wraps_to_loop_start() {
    let mut sp = player_with(8);
    sp.loop_mode = LoopMode::Repeat;
    sp.calc_pitch(POS_ONE);
    sp.init_pos();
    sp.run_prep();
    let mut indices = Vec::new();
    for _ in 0..20 {
        indices.push(sp.next().unwrap().index);
    }
    assert_eq!(indices, vec![0, 1, 2, 3, 4, 5, 6, 7, 0, 1, 2, 3, 4, 5, 6, 7, 0, 1, 2, 3]);
}

#[test]
fn repeat_interpolation_neighbour_wraps_at_loop_end() {
    // At the last loop frame the right-hand neighbour is the loop start.
    let mut sp = player_with(8);
    sp.loop_mode = LoopMode::Repeat;
    sp.calc_pitch(POS_ONE);
    sp.init_pos();
    sp.run_prep();
    let mut last = sp.next().unwrap();
    for _ in 0..7 {
        last = sp.next().unwrap();
    }
    assert_eq!(last.index, 7);
    assert_eq!(last.right_index, 0);
}

#[test]
fn ping_pong_reflects_and_reverses() {
    let mut sp = player_with(4);
    sp.loop_mode = LoopMode::PingPong;
    sp.calc_pitch(POS_ONE);
    sp.init_pos();
    sp.run_prep();
    let mut indices = Vec::new();
    for _ in 0..10 {
        indices.push(sp.next().unwrap().index);
    }
    assert_eq!(indices, vec![0, 1, 2, 3, 3, 2, 1, 0, 0, 1]);
    assert!(sp.is_active);
}

#[test]
fn manual_loop_bounds_are_clamped() {
    let mut sp = player_with(100);
    sp.loop_boundary_mode = LoopBoundaryMode::Manual;
    sp.loop_start = FP_ONE / 2;
    sp.loop_length = FP_ONE;
    sp.run_prep();
    assert_eq!(sp.rounded_loop_start, 50);
    assert_eq!(sp.rounded_loop_end, 100);
    assert_eq!(sp.rounded_loop_len, 50);

    let mut sp = player_with(10);
    sp.sample_loop_start = 50;
    sp.sample_loop_length = 0;
    sp.run_prep();
    assert_eq!(sp.rounded_loop_start, 9);
    assert_eq!(sp.rounded_loop_len, 1);
    assert_eq!(sp.rounded_loop_end, 10);
}

#[test]
fn reverse_playback_starts_at_far_end() {
    let mut sp = player_with(8);
    sp.reverse = true;
    sp.loop_mode = LoopMode::Disabled;
    sp.init_pos();
    sp.calc_pitch(POS_ONE);
    sp.run_prep();
    let step = sp.next().unwrap();
    assert_eq!(step.index, 7);
    let step = sp.next().unwrap();
    assert_eq!(step.index, 6);
}

#[test]
fn half_pitch_interpolates_between_frames() {
    let mut sp = player_with(8);
    sp.loop_mode = LoopMode::Disabled;
    sp.calc_pitch(POS_ONE / 2);
    sp.init_pos();
    sp.run_prep();
    let a = sp.next().unwrap();
    let b = sp.next().unwrap();
    let c = sp.next().unwrap();
    assert_eq!((a.index, a.fract), (0, 0));
    assert_eq!((b.index, b.fract), (0, POS_ONE / 2));
    assert_eq!((c.index, c.fract), (1, 0));
    assert_eq!(b.right_index, 1);
    assert!(b.right_in_range);
}
