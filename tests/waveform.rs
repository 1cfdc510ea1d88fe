use overlay::waveform::{WaveformState, AMPLITUDE_SCALE, HISTORY_SIZE};

fn history(s: &WaveformState) -> Vec<u32> {
    s.get_history().iter().copied().collect()
}

#[test]
fn new_state_is_empty_and_idle() {
    let s = WaveformState::new();
    assert!(history(&s).is_empty());
    assert!(!s.is_recording());
}

#[test]
fn update_clamps_above_full_scale() {
    let mut s = WaveformState::new();
    s.update(1700, true);
    assert_eq!(history(&s), vec![AMPLITUDE_SCALE]);
    assert!(s.is_recording());
}

#[test]
fn update_clamps_below_zero() {
    let mut s = WaveformState::new();
    s.update(-300, true);
    assert_eq!(history(&s), vec![0]);
}

#[test]
fn update_keeps_in_range_value() {
    let mut s = WaveformState::new();
    s.update(420, false);
    s.update(0, true);
    s.update(1000, false);
    assert_eq!(history(&s), vec![420, 0, 1000]);
    assert!(!s.is_recording());
}

#[test]
fn history_keeps_latest_samples_oldest_evicted_first() {
    let mut s = WaveformState::new();
    for a in 0..70i64 {
        s.update(a, true);
        assert!(s.get_history().len() <= HISTORY_SIZE);
    }
    let expected: Vec<u32> = (10..70u32).collect();
    assert_eq!(history(&s), expected);
}

#[test]
fn history_at_exact_capacity_keeps_all() {
    let mut s = WaveformState::new();
    for a in 0..60i64 {
        s.update(a * 10, true);
    }
    assert_eq!(s.get_history().len(), HISTORY_SIZE);
    assert_eq!(history(&s)[0], 0);
    s.update(5000, true);
    assert_eq!(history(&s)[0], 10);
    assert_eq!(history(&s)[HISTORY_SIZE - 1], AMPLITUDE_SCALE);
}

#[test]
fn clear_resets_history_and_flag() {
    let mut s = WaveformState::new();
    s.update(500, true);
    s.clear();
    assert!(history(&s).is_empty());
    assert!(!s.is_recording());
}
