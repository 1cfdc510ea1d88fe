use overlay::render::{
    amplitude_to_color, draw_bars, draw_pill_background, draw_waveform, Color, RoundedRect, Scene,
    Shape,
};
use overlay::waveform::WaveformState;

fn rgba(red: u8, green: u8, blue: u8, alpha: u8) -> Color {
    Color { red, green, blue, alpha }
}

fn state_with(amps: &[i64], recording: bool) -> WaveformState {
    let mut s = WaveformState::new();
    for &a in amps {
        s.update(a, recording);
    }
    s
}

fn frame(state: &WaveformState, width: u32, height: u32) -> Vec<Shape> {
    let mut scene = Scene::new();
    draw_waveform(&mut scene, state, width, height);
    scene.shapes
}

#[test]
fn color_at_band_edges() {
    assert_eq!(amplitude_to_color(0), rgba(80, 200, 120, 255));
    assert_eq!(amplitude_to_color(400), rgba(180, 255, 100, 255));
    assert_eq!(amplitude_to_color(700), rgba(255, 200, 50, 255));
    assert_eq!(amplitude_to_color(1000), rgba(255, 80, 80, 255));
}

#[test]
fn color_inside_bands() {
    assert_eq!(amplitude_to_color(200), rgba(130, 227, 110, 255));
    assert_eq!(amplitude_to_color(550), rgba(217, 227, 75, 255));
    assert_eq!(amplitude_to_color(850), rgba(255, 140, 65, 255));
}

#[test]
fn color_clamps_above_full_scale() {
    assert_eq!(amplitude_to_color(5000), amplitude_to_color(1000));
}

#[test]
fn idle_frame_is_blank_whatever_the_history() {
    let s = state_with(&[100, 900, 500], false);
    assert!(frame(&s, 800, 48).is_empty());
}

#[test]
fn idle_frame_replaces_previous_content() {
    let mut scene = Scene::new();
    draw_waveform(&mut scene, &state_with(&[500], true), 800, 48);
    assert_eq!(scene.shapes.len(), 2);
    draw_waveform(&mut scene, &state_with(&[500], false), 800, 48);
    assert!(scene.shapes.is_empty());
}

#[test]
fn recording_with_empty_history_draws_background_only() {
    let mut scene = Scene::new();
    draw_pill_background(&mut scene, 800, 48);
    draw_bars(&mut scene, &WaveformState::new(), 800, 48);
    let pill = Shape {
        rect: RoundedRect { x: 200_000, y: 0, width: 400_000, height: 48_000, radius: 24_000 },
        color: rgba(20, 20, 25, 220),
    };
    assert_eq!(scene.shapes, vec![pill]);
}

#[test]
fn newest_sample_is_the_leftmost_bar() {
    let s = state_with(&[100, 500, 900], true);
    let shapes = frame(&s, 800, 48);
    assert_eq!(shapes.len(), 4);
    assert_eq!(
        shapes[1],
        Shape {
            rect: RoundedRect { x: 391_000, y: 13_200, width: 4_000, height: 21_600, radius: 2_000 },
            color: amplitude_to_color(900),
        }
    );
    assert_eq!(shapes[2].color, amplitude_to_color(500));
    assert_eq!(shapes[3].color, amplitude_to_color(100));
    assert_eq!(shapes[2].rect.x, 398_000);
    assert_eq!(shapes[3].rect.x, 405_000);
    assert_eq!(shapes[3].rect.height, 4_000);
    assert_eq!(shapes[3].rect.y, 22_000);
}

#[test]
fn bar_count_is_capped_by_width() {
    let amps: Vec<i64> = (0..60).map(|i| i * 10).collect();
    let s = state_with(&amps, true);
    // 100 px leave 76 px between the paddings: ten bars of 7 px.
    let shapes = frame(&s, 100, 48);
    assert_eq!(shapes.len(), 11);
    assert_eq!(shapes[1].color, amplitude_to_color(590));
    assert_eq!(shapes[10].color, amplitude_to_color(500));
}

#[test]
fn narrow_surface_shows_no_bars() {
    let s = state_with(&[500, 600], true);
    let shapes = frame(&s, 30, 48);
    assert_eq!(shapes.len(), 1);
    let shapes = frame(&s, 10, 48);
    assert_eq!(shapes.len(), 1);
    assert_eq!(
        shapes[0].rect,
        RoundedRect { x: 0, y: 0, width: 10_000, height: 48_000, radius: 5_000 }
    );
}

#[test]
fn short_surface_keeps_minimum_bar_height() {
    let s = state_with(&[1000], true);
    let shapes = frame(&s, 800, 10);
    assert_eq!(shapes[1].rect.height, 4_000);
    assert_eq!(shapes[1].rect.y, 3_000);
    assert_eq!(shapes[0].rect.radius, 5_000);
}
