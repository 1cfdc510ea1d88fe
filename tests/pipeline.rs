use overlay::ipc::AmplitudeMessage;
use overlay::pipeline::{drain_available, Pipeline, CHANNEL_CAPACITY, OVERLAY_HEIGHT};
use overlay::render::{draw_waveform, Scene};
use overlay::waveform::WaveformState;
use std::sync::mpsc;

fn msg(amplitude: i64, recording: bool) -> AmplitudeMessage {
    AmplitudeMessage { amplitude, recording }
}

#[test]
fn new_pipeline_has_default_size() {
    let p = Pipeline::new();
    assert_eq!((p.width(), p.height()), (1, OVERLAY_HEIGHT));
}

#[test]
fn resize_treats_zero_as_one_and_reports_change() {
    let mut p = Pipeline::new();
    assert!(p.resize(0, 0));
    assert_eq!((p.width(), p.height()), (1, 1));
    assert!(!p.resize(1, 0));
    assert!(p.resize(800, 48));
    assert_eq!((p.width(), p.height()), (800, 48));
    assert!(!p.resize(800, 48));
}

#[test]
fn tick_with_samples_composes_and_redraws() {
    let mut p = Pipeline::new();
    let out = p.tick(&vec![msg(300, true), msg(1500, true)], 5);
    assert!(out.compose);
    assert!(out.request_redraw);
}

#[test]
fn tick_without_samples_waits_for_cadence() {
    let mut p = Pipeline::new();
    let out = p.tick(&vec![msg(300, true)], 100);
    assert!(out.request_redraw);
    let out = p.tick(&vec![], 120);
    assert!(!out.compose);
    assert!(!out.request_redraw);
    let out = p.tick(&vec![], 133);
    assert!(!out.compose);
    assert!(out.request_redraw);
    let out = p.tick(&vec![], 140);
    assert!(!out.request_redraw);
}

#[test]
fn compose_uses_folded_samples_and_current_size() {
    let mut p = Pipeline::new();
    p.resize(800, 48);
    p.tick(&vec![msg(100, true), msg(500, true), msg(900, true)], 0);
    let mut scene = Scene::new();
    p.compose(&mut scene);
    let mut expected_state = WaveformState::new();
    expected_state.update(100, true);
    expected_state.update(500, true);
    expected_state.update(900, true);
    let mut expected = Scene::new();
    draw_waveform(&mut expected, &expected_state, 800, 48);
    assert_eq!(scene.shapes, expected.shapes);
    assert_eq!(scene.shapes.len(), 4);
}

#[test]
fn last_sample_sets_recording_flag() {
    let mut p = Pipeline::new();
    p.resize(800, 48);
    p.tick(&vec![msg(100, true), msg(500, false)], 0);
    let mut scene = Scene::new();
    p.compose(&mut scene);
    assert!(scene.shapes.is_empty());
}

#[test]
fn drain_takes_queued_samples_in_order() {
    let (tx, rx) = mpsc::sync_channel(CHANNEL_CAPACITY);
    tx.send(msg(1, true)).unwrap();
    tx.send(msg(2, false)).unwrap();
    tx.send(msg(3, true)).unwrap();
    assert_eq!(drain_available(&rx), vec![msg(1, true), msg(2, false), msg(3, true)]);
    assert!(drain_available(&rx).is_empty());
}

#[test]
fn drain_is_bounded_per_tick() {
    let (tx, rx) = mpsc::channel();
    for i in 0..150 {
        tx.send(msg(i, true)).unwrap();
    }
    let first = drain_available(&rx);
    assert_eq!(first.len(), CHANNEL_CAPACITY);
    assert_eq!(first[0], msg(0, true));
    assert_eq!(drain_available(&rx).len(), 50);
}

#[test]
fn drain_after_sender_gone_returns_what_was_left() {
    let (tx, rx) = mpsc::channel();
    tx.send(msg(7, true)).unwrap();
    drop(tx);
    assert_eq!(drain_available(&rx), vec![msg(7, true)]);
    assert!(drain_available(&rx).is_empty());
}

#[test]
fn allocated_frame_has_current_size_and_is_transparent() {
    let mut p = Pipeline::new();
    p.resize(120, 48);
    let frame = p.allocate_frame();
    assert_eq!((frame.width, frame.height), (120, 48));
    assert_eq!((frame.pixmap.width(), frame.pixmap.height()), (120, 48));
    assert_eq!(frame.pixmap.data().len(), 120 * 48 * 4);
    assert!(frame.pixmap.data().iter().all(|b| *b == 0));
    assert!(p.frame_matches(&frame));
}

#[test]
fn oversized_frame_falls_back_to_one_pixel() {
    let mut p = Pipeline::new();
    p.resize(600_000_000, 2);
    let frame = p.allocate_frame();
    assert_eq!((frame.width, frame.height), (1, 1));
    assert_eq!((frame.pixmap.width(), frame.pixmap.height()), (1, 1));
    assert!(!p.frame_matches(&frame));
}

#[test]
fn stale_frame_does_not_match_after_resize() {
    let mut p = Pipeline::new();
    p.resize(200, 48);
    let frame = p.allocate_frame();
    assert!(p.resize(300, 48));
    assert!(!p.frame_matches(&frame));
    assert!(p.frame_matches(&p.allocate_frame()));
}
