use hexatune_dsp::rain_player::RainPlayer;

fn next(player: &mut RainPlayer<f32>) -> (f32, f32) {
    player.next_sample().unwrap_or((0.0, 0.0))
}

#[test]
fn rain_player_empty_player_returns_silence() {
    let mut player = RainPlayer::<f32>::new();
    let sample = next(&mut player);
    assert_eq!(sample.0, 0.0);
    assert_eq!(sample.1, 0.0);
}

#[test]
fn rain_player_mono_load_duplicates_channels() {
    let mut player = RainPlayer::new();
    player.load_raw_mono(vec![0.1, 0.2, 0.3]);

    let s1 = next(&mut player);
    assert_eq!(s1.0, 0.1);
    assert_eq!(s1.1, 0.1);

    let s2 = next(&mut player);
    assert_eq!(s2.0, 0.2);
    assert_eq!(s2.1, 0.2);
}

#[test]
fn rain_player_loops_at_end_of_buffer() {
    let mut player = RainPlayer::new();
    player.load_raw_mono(vec![1.0, 2.0]);

    let _ = next(&mut player);
    let _ = next(&mut player);
    let s3 = next(&mut player);
    assert_eq!(s3.0, 1.0);
}

#[test]
fn rain_player_stereo_load_deinterleaves() {
    let mut player = RainPlayer::new();
    player.load_raw_stereo(vec![0.1, 0.3], vec![0.2, 0.4]);

    let s1 = next(&mut player);
    assert_eq!(s1.0, 0.1);
    assert_eq!(s1.1, 0.2);

    let s2 = next(&mut player);
    assert_eq!(s2.0, 0.3);
    assert_eq!(s2.1, 0.4);
}

#[test]
fn rain_player_reset_and_state() {
    let mut player: RainPlayer<f32> = RainPlayer::default();
    assert!(!player.is_loaded());
    assert!(player.is_empty());
    player.load_raw_mono(vec![1.0, 2.0, 3.0]);
    assert!(player.is_loaded());
    assert_eq!(player.len(), 3);
    next(&mut player);
    player.reset();
    assert_eq!(next(&mut player).0, 1.0);
    player.load_raw_mono(vec![]);
    assert!(!player.is_loaded());
    assert_eq!(player.next_sample(), None);
}
