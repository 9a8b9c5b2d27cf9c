use varmint::audio::{channel, Period, PlaybackState, MAX_PERIOD_BYTES};
use varmint::virtio::snd::PeriodSink;

#[test]
fn silence_while_stopped() {
    let playback = PlaybackState::new();
    let (mut sink, mut renderer) = channel(&playback);
    assert!(sink.push(1, &[1, 2, 3, 4]));
    let mut out = vec![9u8; 8];
    assert_eq!(renderer.render(&mut out), (0, None));
    assert_eq!(out, vec![0; 8]);
}

#[test]
fn plays_periods_in_order_then_silence() {
    let playback = PlaybackState::new();
    let (mut sink, mut renderer) = channel(&playback);
    assert!(sink.push(7, &[1, 2, 3]));
    assert!(sink.push(8, &[4, 5]));
    sink.start();
    let mut out = vec![9u8; 8];
    assert_eq!(renderer.render(&mut out), (5, Some(8)));
    assert_eq!(out, vec![1, 2, 3, 4, 5, 0, 0, 0]);
}

#[test]
fn a_period_spans_two_buffers() {
    let playback = PlaybackState::new();
    let (mut sink, mut renderer) = channel(&playback);
    assert!(sink.push(3, &[1, 2, 3, 4, 5, 6]));
    sink.start();
    let mut out = vec![0u8; 4];
    assert_eq!(renderer.render(&mut out), (4, None));
    assert_eq!(out, vec![1, 2, 3, 4]);
    assert_eq!(renderer.render(&mut out), (2, Some(3)));
    assert_eq!(out, vec![5, 6, 0, 0]);
}

#[test]
fn reset_makes_queued_periods_stale() {
    let playback = PlaybackState::new();
    let (mut sink, mut renderer) = channel(&playback);
    assert!(sink.push(1, &[1, 1]));
    sink.reset();
    assert!(sink.push(2, &[2, 2]));
    sink.start();
    let mut out = vec![9u8; 4];
    assert_eq!(renderer.render(&mut out), (2, Some(2)));
    assert_eq!(out, vec![2, 2, 0, 0]);
}

#[test]
fn oversized_periods_and_a_full_ring_are_refused() {
    let playback = PlaybackState::new();
    let (mut sink, _renderer) = channel(&playback);
    assert!(!sink.push(0, &vec![0u8; MAX_PERIOD_BYTES + 1]));
    for seq in 0..8 {
        assert!(sink.push(seq, &[0]));
    }
    assert!(!sink.push(8, &[0]));
}

#[test]
fn offer_and_play_current_steps() {
    let playback = PlaybackState::new();
    let (_sink, mut renderer) = channel(&playback);
    assert!(!renderer.offer(Period { seq: 1, generation: 5, data: vec![1] }, 6));
    assert!(renderer.offer(Period { seq: 2, generation: 6, data: vec![1, 2, 3] }, 6));
    let mut out = vec![0u8; 5];
    assert_eq!(renderer.play_current(&mut out, 3), (5, None));
    assert_eq!(out, vec![0, 0, 0, 1, 2]);
    renderer.drop_stale(6);
    assert_eq!(renderer.play_current(&mut out, 0), (1, Some((2, 6))));
    assert_eq!(out, vec![3, 0, 0, 1, 2]);
}

#[test]
fn stale_current_period_is_dropped() {
    let playback = PlaybackState::new();
    let (_sink, mut renderer) = channel(&playback);
    assert!(renderer.offer(Period { seq: 2, generation: 6, data: vec![1, 2, 3] }, 6));
    renderer.drop_stale(7);
    assert!(renderer.offer(Period { seq: 3, generation: 7, data: vec![4] }, 7));
}
