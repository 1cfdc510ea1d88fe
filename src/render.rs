//! Frame compositor: turns the waveform state and the surface size into the
//! list of filled rounded rectangles that make up one frame.
//!
//! Geometry is fixed-point: `SUBPIXEL` units make one pixel. It equals
//! `AMPLITUDE_SCALE`, so an amplitude times a length in pixels is a length in
//! units, with nothing rounded.

use crate::waveform::{WaveformState, AMPLITUDE_SCALE, HISTORY_SIZE};
use vstd::prelude::*;

verus! {

/// Units per pixel.
pub const SUBPIXEL: i64 = 1000;

pub const BAR_WIDTH: i64 = 4 * SUBPIXEL;

pub const BAR_SPACING: i64 = 3 * SUBPIXEL;

pub const BAR_RADIUS: i64 = 2 * SUBPIXEL;

pub const CONTAINER_RADIUS: i64 = 24 * SUBPIXEL;

/// Gap between the pill's edge and the bars, in pixels.
pub const CONTAINER_PADDING_PX: i64 = 12;

pub const PILL_WIDTH: i64 = 400 * SUBPIXEL;

pub const MIN_BAR_HEIGHT: i64 = 4 * SUBPIXEL;

/// Straight-alpha RGBA colour.
#[derive(Clone, Copy, Debug, PartialEq, Eq, Structural)]
pub struct Color {
    pub red: u8,
    pub green: u8,
    pub blue: u8,
    pub alpha: u8,
}

/// A rectangle with four quadratic corners of the given radius, in units.
#[derive(Clone, Copy, Debug, PartialEq, Eq, Structural)]
pub struct RoundedRect {
    pub x: i64,
    pub y: i64,
    pub width: i64,
    pub height: i64,
    pub radius: i64,
}

/// A rounded rectangle filled with one colour (non-zero winding, anti-aliased).
#[derive(Clone, Copy, Debug, PartialEq, Eq, Structural)]
pub struct Shape {
    pub rect: RoundedRect,
    pub color: Color,
}

/// One frame: shapes painted in order over a fully transparent surface.
pub struct Scene {
    pub shapes: Vec<Shape>,
}

pub open spec fn min3(a: int, b: int, c: int) -> int {
    let ab = if a <= b { a } else { b };
    if ab <= c { ab } else { c }
}

/// A rounded rectangle whose radius is clamped to half its smaller side.
pub open spec fn rounded_shape(x: int, y: int, w: int, h: int, r: int, color: Color) -> Shape {
    Shape {
        rect: RoundedRect {
            x: x as i64,
            y: y as i64,
            width: w as i64,
            height: h as i64,
            radius: min3(r, w / 2, h / 2) as i64,
        },
        color,
    }
}

/// `start + delta * offset / span`, rounded down.
pub open spec fn ramp(start: int, delta: int, offset: int, span: int) -> int {
    (start * span + delta * offset) / span
}

/// Colour of a bar: three bands (green to yellow-green, to yellow-orange, to
/// red), each a linear ramp of the channels over its part of the amplitude.
pub open spec fn amplitude_color(amplitude: int) -> Color {
    let a = if amplitude > AMPLITUDE_SCALE { AMPLITUDE_SCALE as int } else { amplitude };
    if a < 400 {
        Color {
            red: ramp(80, 100, a, 400) as u8,
            green: ramp(200, 55, a, 400) as u8,
            blue: ramp(120, -20, a, 400) as u8,
            alpha: 255,
        }
    } else if a < 700 {
        Color {
            red: ramp(180, 75, a - 400, 300) as u8,
            green: ramp(255, -55, a - 400, 300) as u8,
            blue: ramp(100, -50, a - 400, 300) as u8,
            alpha: 255,
        }
    } else {
        Color {
            red: 255,
            green: ramp(200, -120, a - 700, 300) as u8,
            blue: ramp(50, 30, a - 700, 300) as u8,
            alpha: 255,
        }
    }
}

pub open spec fn pill_color() -> Color {
    Color { red: 20, green: 20, blue: 25, alpha: 220 }
}

/// The background: full height, `PILL_WIDTH` wide (or the surface width if
/// narrower), centred horizontally.
pub open spec fn pill_shape(width: u32, height: u32) -> Shape {
    let w = width * SUBPIXEL;
    let pill_w = if PILL_WIDTH <= w { PILL_WIDTH as int } else { w };
    rounded_shape((w - pill_w) / 2, 0, pill_w, height * SUBPIXEL, CONTAINER_RADIUS as int, pill_color())
}

/// How many bars fit between the paddings of a surface `width` pixels wide.
pub open spec fn max_bars(width: u32) -> int {
    let available = width * SUBPIXEL - 2 * CONTAINER_PADDING_PX * SUBPIXEL;
    if available < 0 {
        0
    } else {
        available / (BAR_WIDTH + BAR_SPACING)
    }
}

/// How many bars a frame shows for a history of `len` samples.
pub open spec fn bar_count(len: int, width: u32) -> int {
    if len <= max_bars(width) { len } else { max_bars(width) }
}

/// Left edge of the first of `n` bars, the group being centred.
pub open spec fn bars_start(width: u32, n: int) -> int {
    (width * SUBPIXEL - (n * (BAR_WIDTH + BAR_SPACING) - BAR_SPACING)) / 2
}

/// Height of a bar: the amplitude's share of the height inside the paddings,
/// but never below `MIN_BAR_HEIGHT`.
pub open spec fn bar_height(amplitude: int, height: u32) -> int {
    let h = amplitude * (height - 2 * CONTAINER_PADDING_PX);
    if h >= MIN_BAR_HEIGHT { h } else { MIN_BAR_HEIGHT as int }
}

/// Bar `i` of `n`, counted from the left, showing `amplitude`.
pub open spec fn bar_shape(amplitude: int, i: int, n: int, width: u32, height: u32) -> Shape {
    let h = bar_height(amplitude, height);
    rounded_shape(
        bars_start(width, n) + i * (BAR_WIDTH + BAR_SPACING),
        height * SUBPIXEL / 2 - h / 2,
        BAR_WIDTH as int,
        h,
        BAR_RADIUS as int,
        amplitude_color(amplitude),
    )
}

/// The bars of a frame: the newest sample leftmost, older ones to its right.
pub open spec fn bar_shapes(history: Seq<u32>, width: u32, height: u32) -> Seq<Shape> {
    let n = bar_count(history.len() as int, width);
    Seq::new(
        n as nat,
        |i: int| bar_shape(history[history.len() - 1 - i] as int, i, n, width, height),
    )
}

/// The whole frame: nothing when not recording, else the pill then the bars.
pub open spec fn waveform_scene(history: Seq<u32>, recording: bool, width: u32, height: u32) -> Seq<
    Shape,
> {
    if !recording {
        Seq::empty()
    } else {
        seq![pill_shape(width, height)] + bar_shapes(history, width, height)
    }
}

/// When not recording, a frame holds no shape at all, whatever the history:
/// every pixel stays fully transparent.
pub proof fn lemma_idle_frame_is_blank(history: Seq<u32>, width: u32, height: u32)
    ensures
        waveform_scene(history, false, width, height) == Seq::<Shape>::empty(),
{
}

/// When recording with an empty history, the frame is the background alone.
pub proof fn lemma_empty_history_draws_background_only(width: u32, height: u32)
    ensures
        waveform_scene(Seq::empty(), true, width, height) == seq![pill_shape(width, height)],
{
    assert(bar_shapes(Seq::empty(), width, height) =~= Seq::<Shape>::empty());
    assert(seq![pill_shape(width, height)] + Seq::<Shape>::empty() =~= seq![pill_shape(width, height)]);
}

/// When recording, the frame is the background followed by one bar for each
/// of the newest `min(len, max_bars)` samples; the leftmost bar shows the
/// newest sample, and each further bar, one step older, stands further right.
pub proof fn lemma_newest_bar_leftmost(history: Seq<u32>, width: u32, height: u32)
    requires
        history.len() <= HISTORY_SIZE,
    ensures
        ({
            let scene = waveform_scene(history, true, width, height);
            let n = bar_count(history.len() as int, width);
            &&& scene.len() == n + 1
            &&& n <= history.len()
            &&& n <= max_bars(width)
            &&& scene[0] == pill_shape(width, height)
            &&& n > 0 ==> scene[1] == bar_shape(history.last() as int, 0, n, width, height)
            &&& n > 0 ==> scene[1].color == amplitude_color(history.last() as int)
            &&& forall|k: int|
                1 <= k <= n ==> #[trigger] scene[k].color == amplitude_color(
                    history[history.len() - k] as int,
                )
            &&& forall|k: int, l: int|
                1 <= k < l <= n ==> #[trigger] scene[k].rect.x < #[trigger] scene[l].rect.x
        }),
{
    let scene = waveform_scene(history, true, width, height);
    let n = bar_count(history.len() as int, width);
    let bars = bar_shapes(history, width, height);
    assert(scene =~= seq![pill_shape(width, height)] + bars);
    assert forall|k: int| 1 <= k <= n implies #[trigger] scene[k] == bars[k - 1] && scene[k].rect.x
        == bars_start(width, n) + (k - 1) * 7000 by {
        let i = k - 1;
        assert(scene[k] == bars[i]);
        let x = bars_start(width, n) + i * 7000;
        assert(0 <= n <= 60);
        assert(0 <= i * 7000 <= 60 * 7000) by (nonlinear_arith)
            requires
                0 <= i < 60,
        ;
        assert(-0x1_0000_0000_0000 <= bars_start(width, n) <= 0x1_0000_0000_0000);
        assert(i64::MIN <= x <= i64::MAX);
    }
    assert forall|k: int, l: int| 1 <= k < l <= n implies #[trigger] scene[k].rect.x
        < #[trigger] scene[l].rect.x by {
        assert((k - 1) * 7000 < (l - 1) * 7000) by (nonlinear_arith)
            requires
                k < l,
        ;
    }
}

impl Scene {
    pub fn new() -> (r: Self)
        ensures
            r.shapes@ == Seq::<Shape>::empty(),
    {
        Scene { shapes: Vec::new() }
    }
}

pub fn amplitude_to_color(amplitude: u32) -> (r: Color)
    ensures
        r == amplitude_color(amplitude as int),
{
    let a: u32 = if amplitude > AMPLITUDE_SCALE { AMPLITUDE_SCALE } else { amplitude };
    if a < 400 {
        Color {
            red: ((80 * 400 + 100 * a) / 400) as u8,
            green: ((200 * 400 + 55 * a) / 400) as u8,
            blue: ((120 * 400 - 20 * a) / 400) as u8,
            alpha: 255,
        }
    } else if a < 700 {
        let d: u32 = a - 400;
        Color {
            red: ((180 * 300 + 75 * d) / 300) as u8,
            green: ((255 * 300 - 55 * d) / 300) as u8,
            blue: ((100 * 300 - 50 * d) / 300) as u8,
            alpha: 255,
        }
    } else {
        let d: u32 = a - 700;
        Color {
            red: 255,
            green: ((200 * 300 - 120 * d) / 300) as u8,
            blue: ((50 * 300 + 30 * d) / 300) as u8,
            alpha: 255,
        }
    }
}

/// Appends a rounded rectangle, its radius clamped to half its smaller side.
pub fn draw_rounded_bar(
    scene: &mut Scene,
    x: i64,
    y: i64,
    width: i64,
    height: i64,
    radius: i64,
    color: Color,
)
    requires
        width >= 0,
        height >= 0,
    ensures
        final(scene).shapes@ == old(scene).shapes@.push(
            rounded_shape(x as int, y as int, width as int, height as int, radius as int, color),
        ),
{
    let half_w = width / 2;
    let half_h = height / 2;
    let r0 = if radius <= half_w { radius } else { half_w };
    let r = if r0 <= half_h { r0 } else { half_h };
    scene.shapes.push(Shape { rect: RoundedRect { x, y, width, height, radius: r }, color });
}

/// Appends the background pill.
pub fn draw_pill_background(scene: &mut Scene, width: u32, height: u32)
    ensures
        final(scene).shapes@ == old(scene).shapes@.push(pill_shape(width, height)),
{
    let w: i64 = width as i64 * SUBPIXEL;
    let pill_w: i64 = if PILL_WIDTH <= w { PILL_WIDTH } else { w };
    let pill_x: i64 = (w - pill_w) / 2;
    let color = Color { red: 20, green: 20, blue: 25, alpha: 220 };
    draw_rounded_bar(scene, pill_x, 0, pill_w, height as i64 * SUBPIXEL, CONTAINER_RADIUS, color);
}

/// Appends one bar per shown sample, newest first from the left.
pub fn draw_bars(scene: &mut Scene, state: &WaveformState, width: u32, height: u32)
    requires
        state.wf(),
    ensures
        final(scene).shapes@ == old(scene).shapes@ + bar_shapes(
            state.history_view(),
            width,
            height,
        ),
{
    let history = state.get_history();
    let len = history.len();
    proof {
        state.lemma_wf();
    }
    let bar_total_width: i64 = BAR_WIDTH + BAR_SPACING;
    let available: i64 = width as i64 * SUBPIXEL - 2 * CONTAINER_PADDING_PX * SUBPIXEL;
    let max_bars: i64 = if available < 0 { 0 } else { available / bar_total_width };
    let num_bars: usize = if (len as i64) <= max_bars { len } else { max_bars as usize };
    assert(0 <= num_bars * bar_total_width <= 60 * 7000) by (nonlinear_arith)
        requires
            num_bars <= 60,
            bar_total_width == 7000,
    ;
    let start_x: i64 = (width as i64 * SUBPIXEL - (num_bars as i64 * bar_total_width - BAR_SPACING)) / 2;
    let inner_height: i64 = height as i64 - 2 * CONTAINER_PADDING_PX;
    let centre: i64 = height as i64 * SUBPIXEL / 2;
    assert(-0x1_0000_0000_0000 <= start_x <= 0x1_0000_0000_0000);
    let ghost shown = bar_shapes(state.history_view(), width, height);
    assert(shown.len() == num_bars);
    let mut i: usize = 0;
    while i < num_bars
        invariant
            i <= num_bars,
            num_bars <= len,
            len == history@.len(),
            history@ == state.history_view(),
            len <= HISTORY_SIZE,
            forall|k: int| 0 <= k < len ==> history@[k] <= AMPLITUDE_SCALE,
            shown == bar_shapes(state.history_view(), width, height),
            shown.len() == num_bars,
            start_x == bars_start(width, num_bars as int),
            inner_height == height - 2 * CONTAINER_PADDING_PX,
            centre == height * SUBPIXEL / 2,
            bar_total_width == BAR_WIDTH + BAR_SPACING,
            -0x1_0000_0000_0000 <= start_x <= 0x1_0000_0000_0000,
            scene.shapes@ == old(scene).shapes@ + shown.subrange(0, i as int),
        decreases num_bars - i,
    {
        let amplitude: u32 = history[len - 1 - i];
        proof {
            let a = amplitude as int;
            let ih = inner_height as int;
            assert(0 <= a <= 1000);
            assert(-24 <= ih <= 0x1_0000_0000);
            assert(-24000 <= a * ih <= 1000 * 0x1_0000_0000) by (nonlinear_arith)
                requires
                    0 <= a <= 1000,
                    -24 <= ih <= 0x1_0000_0000,
            ;
        }
        let raw: i64 = amplitude as i64 * inner_height;
        let bar_h: i64 = if raw >= MIN_BAR_HEIGHT { raw } else { MIN_BAR_HEIGHT };
        assert(0 <= i * bar_total_width <= 60 * 7000) by (nonlinear_arith)
            requires
                i < 60,
                bar_total_width == 7000,
        ;
        let x: i64 = start_x + i as i64 * bar_total_width;
        let y: i64 = centre - bar_h / 2;
        let color = amplitude_to_color(amplitude);
        draw_rounded_bar(scene, x, y, BAR_WIDTH, bar_h, BAR_RADIUS, color);
        proof {
            assert(shown[i as int] == bar_shape(amplitude as int, i as int, num_bars as int, width, height));
            assert(shown.subrange(0, i + 1) =~= shown.subrange(0, i as int).push(shown[i as int]));
        }
        i = i + 1;
    }
    assert(shown.subrange(0, num_bars as int) =~= shown);
}

/// Composes one frame of the waveform into `scene`, replacing what it held.
pub fn draw_waveform(scene: &mut Scene, state: &WaveformState, width: u32, height: u32)
    requires
        state.wf(),
    ensures
        final(scene).shapes@ == waveform_scene(
            state.history_view(),
            state.recording_view(),
            width,
            height,
        ),
{
    scene.shapes.clear();
    if !state.is_recording() {
        return;
    }
    draw_pill_background(scene, width, height);
    draw_bars(scene, state, width, height);
    assert(scene.shapes@ =~= seq![pill_shape(width, height)] + bar_shapes(
        state.history_view(),
        width,
        height,
    ));
}

} // verus!
