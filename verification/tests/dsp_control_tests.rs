use quasar::delay_line::DelayLine;
use quasar::fade::FadeProgress;
use quasar::node_graph::{connection_routable, scratch_channels, AudioConnection, AudioConnections};

#[test]
fn fade_progress_converges_in_blocks_not_samples() {
    // 15 ms at 48 kHz.
    let mut fade = FadeProgress::new(720);
    fade.retarget(true);
    assert!(!fade.is_complete());
    for _ in 0..10 {
        fade.advance(512);
    }
    assert!(fade.is_complete());
    assert_eq!(fade.frame_counter(), 720);
}

#[test]
fn fade_progress_completes_after_ceiling_blocks() {
    let mut fade = FadeProgress::new(720);
    fade.retarget(true);
    assert!(fade.advance(512));
    assert!(!fade.is_complete());
    assert_eq!(fade.frame_counter(), 512);
    assert!(fade.advance(512));
    assert!(fade.is_complete());
    assert_eq!(fade.frame_counter(), 720);
}

#[test]
fn fade_progress_stays_converged() {
    let mut fade = FadeProgress::new(720);
    fade.retarget(true);
    for _ in 0..20 {
        fade.advance(256);
    }
    assert!(fade.is_complete());
    assert!(!fade.advance(256));
    assert_eq!(fade.frame_counter(), fade.fade_frames());
}

#[test]
fn fade_progress_partial_block_still_converges() {
    // 2 ms at 48 kHz: shorter than one block.
    let mut fade = FadeProgress::new(96);
    fade.retarget(true);
    fade.advance(512);
    assert!(fade.is_complete());
}

#[test]
fn fade_snaps_when_source_changes() {
    let mut fade = FadeProgress::new(720);
    fade.retarget(true);
    fade.advance(100);
    fade.retarget(false);
    assert!(fade.is_complete());
    assert_eq!(fade.frame_counter(), 720);
}

#[test]
fn zero_length_fade_is_one_frame_long() {
    let mut fade = FadeProgress::new(0);
    assert_eq!(fade.fade_frames(), 1);
    assert_eq!(fade.frame_counter(), 0);
    assert!(!fade.is_complete());
    assert!(fade.advance(1));
    assert!(fade.is_complete());
}

#[test]
fn fresh_fade_starts_complete() {
    let fade = FadeProgress::new(480);
    assert!(fade.is_complete());
    assert_eq!(fade.fade_frames(), 480);
}

#[test]
fn graph_connections_and_disconnect() {
    let mut conns: AudioConnections<f32> = AudioConnections::new();
    conns.connect(0, 0, 1, 0, 1.0);
    conns.connect(1, 1, 2, 0, 0.5);
    conns.connect(2, 0, 3, 1, 0.25);
    assert_eq!(conns.connection_count(), 3);
    conns.disconnect_node(1);
    assert_eq!(conns.connection_count(), 1);
    let c = conns.get(0);
    assert_eq!(c.from_node, 2);
    assert_eq!(c.to_node, 3);
    assert_eq!(c.to_channel, 1);
    assert_eq!(c.gain, 0.25);
    conns.disconnect_node(7);
    assert_eq!(conns.connection_count(), 1);
}

#[test]
fn routability_needs_both_ends() {
    let c = AudioConnection { from_node: 0, from_channel: 0, to_node: 2, to_channel: 0, gain: 1.0f32 };
    assert!(connection_routable(&c, 3));
    assert!(!connection_routable(&c, 2));
    let d = AudioConnection { from_node: 5, from_channel: 0, to_node: 0, to_channel: 0, gain: 1.0f32 };
    assert!(!connection_routable(&d, 3));
}

#[test]
fn scratch_buffers_default_to_stereo() {
    assert_eq!(scratch_channels(0), 2);
    assert_eq!(scratch_channels(1), 1);
    assert_eq!(scratch_channels(6), 6);
}

#[test]
fn delay_line_remembers_pushes() {
    let mut line = DelayLine::new(5, 0i32);
    assert_eq!(line.len(), 5);
    for x in 1..=3 {
        line.push(x);
    }
    assert_eq!(line.back(0), 3);
    assert_eq!(line.back(1), 2);
    assert_eq!(line.back(2), 1);
    assert_eq!(line.back(3), 0);
    assert_eq!(line.write_pos(), 3);
}

#[test]
fn delay_line_impulse_reaches_integer_delay() {
    let mut line = DelayLine::new(8, 0.0f32);
    line.push(1.0);
    for _ in 0..4 {
        line.push(0.0);
    }
    assert_eq!(line.back(4), 1.0);
    assert_eq!(line.back(3), 0.0);
    assert_eq!(line.back(5), 0.0);
}

#[test]
fn delay_line_wraps_and_forgets_oldest() {
    let mut line = DelayLine::new(3, 0u8);
    for x in 1..=5u8 {
        line.push(x);
    }
    assert_eq!((line.back(0), line.back(1), line.back(2)), (5, 4, 3));
    assert_eq!(line.write_pos(), 2);
    line.clear(0);
    assert_eq!(line.write_pos(), 0);
    assert_eq!(line.back(0), 0);
}
