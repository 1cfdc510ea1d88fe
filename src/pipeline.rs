//! Render-side coordinator: drains the sample channel without waiting, folds
//! the samples into the waveform, keeps the surface size, and decides when a
//! frame is composed and when a redraw is requested.

use crate::ipc::AmplitudeMessage;
use crate::render::{draw_waveform, waveform_scene, Scene};
use crate::waveform::{history_after, WaveformState};
use std::sync::mpsc::Receiver;
use tiny_skia::Pixmap;
use vstd::prelude::*;

verus! {

/// Height of the overlay surface before the host gives a size.
pub const OVERLAY_HEIGHT: u32 = 48;

pub const TARGET_FPS: u64 = 30;

/// Redraw cadence when no sample arrives.
pub const REFRESH_INTERVAL_MS: u64 = 1000 / TARGET_FPS;

/// Capacity of the sample channel, and the most samples taken in one tick.
pub const CHANNEL_CAPACITY: usize = 100;

/// std's channel receiver, carried opaque.
#[verifier::external_type_specification]
#[verifier::external_body]
#[verifier::reject_recursive_types(T)]
pub struct ExReceiver<T>(Receiver<T>);

/// tiny-skia's pixel buffer, carried opaque.
#[verifier::external_type_specification]
#[verifier::external_body]
pub struct ExPixmap(Pixmap);

/// Whether `tiny_skia::Pixmap::new` accepts the size: both sides non-zero,
/// a row of at most `i32::MAX` bytes, the whole buffer within `usize`.
pub open spec fn pixmap_fits(width: u32, height: u32) -> bool {
    &&& width > 0
    &&& height > 0
    &&& 4 * width <= i32::MAX
    &&& 4 * width * height <= usize::MAX
}

/// Relies on `tiny_skia::Pixmap::new`: `None` exactly when the size does not
/// fit as `pixmap_fits` says; otherwise a fully transparent pixmap of that
/// size (a failed allocation aborts, as any allocation does).
#[verifier::external_body]
fn new_pixmap(width: u32, height: u32) -> (r: Option<Pixmap>)
    ensures
        r.is_some() == pixmap_fits(width, height),
{
    Pixmap::new(width, height)
}

/// Relies on `std::sync::mpsc::Receiver::try_recv`: a queued sample if there
/// is one, without waiting; nothing when the queue is empty or the sender is
/// gone. Which of these holds depends on the other thread.
#[verifier::external_body]
fn try_receive(rx: &Receiver<AmplitudeMessage>) -> (r: Option<AmplitudeMessage>) {
    rx.try_recv().ok()
}

/// Takes the samples queued now, oldest first, never waiting for more, and
/// at most `CHANNEL_CAPACITY` of them so that one tick stays bounded.
pub fn drain_available(rx: &Receiver<AmplitudeMessage>) -> (r: Vec<AmplitudeMessage>)
    ensures
        r@.len() <= CHANNEL_CAPACITY,
{
    let mut out: Vec<AmplitudeMessage> = Vec::new();
    while out.len() < CHANNEL_CAPACITY
        invariant
            out@.len() <= CHANNEL_CAPACITY,
        decreases CHANNEL_CAPACITY - out@.len(),
    {
        match try_receive(rx) {
            Some(m) => out.push(m),
            None => break,
        }
    }
    out
}

/// The amplitudes of `samples`, in order.
pub open spec fn amplitudes_of(samples: Seq<AmplitudeMessage>) -> Seq<i64> {
    samples.map_values(|m: AmplitudeMessage| m.amplitude)
}

/// `v` but at least 1.
pub open spec fn at_least_one(v: u32) -> u32 {
    if v == 0 { 1 } else { v }
}

/// What one tick decided.
#[derive(Clone, Copy, Debug, PartialEq, Eq, Structural)]
pub struct TickOutcome {
    /// New samples arrived: compose a frame now.
    pub compose: bool,
    /// Ask the host for a redraw: new samples, or the cadence is due.
    pub request_redraw: bool,
}

/// A transparent frame buffer and the size it was made with.
pub struct Frame {
    pub pixmap: Pixmap,
    pub width: u32,
    pub height: u32,
}

pub struct Pipeline {
    waveform: WaveformState,
    width: u32,
    height: u32,
    last_refresh_ms: u64,
}

impl Pipeline {
    pub closed spec fn history_view(&self) -> Seq<u32> {
        self.waveform.history_view()
    }

    pub closed spec fn recording_view(&self) -> bool {
        self.waveform.recording_view()
    }

    pub closed spec fn width_view(&self) -> u32 {
        self.width
    }

    pub closed spec fn height_view(&self) -> u32 {
        self.height
    }

    pub closed spec fn last_refresh_view(&self) -> u64 {
        self.last_refresh_ms
    }

    /// The waveform is well formed and the size is never zero.
    pub closed spec fn wf(&self) -> bool {
        &&& self.waveform.wf()
        &&& self.width >= 1
        &&& self.height >= 1
    }

    /// Empty history, not recording, 1 pixel wide and `OVERLAY_HEIGHT` high,
    /// last refreshed at time 0.
    pub fn new() -> (r: Self)
        ensures
            r.wf(),
            r.history_view() == Seq::<u32>::empty(),
            !r.recording_view(),
            r.width_view() == 1,
            r.height_view() == OVERLAY_HEIGHT,
            r.last_refresh_view() == 0,
    {
        Pipeline { waveform: WaveformState::new(), width: 1, height: OVERLAY_HEIGHT, last_refresh_ms: 0 }
    }

    pub fn width(&self) -> (r: u32)
        ensures
            r == self.width_view(),
    {
        self.width
    }

    pub fn height(&self) -> (r: u32)
        ensures
            r == self.height_view(),
    {
        self.height
    }

    /// Takes the size the host gives, a zero side counting as 1; tells
    /// whether the size changed, in which case the frame buffer must be
    /// made anew before the next frame.
    pub fn resize(&mut self, width: u32, height: u32) -> (changed: bool)
        requires
            old(self).wf(),
        ensures
            final(self).wf(),
            final(self).width_view() == at_least_one(width),
            final(self).height_view() == at_least_one(height),
            changed == (at_least_one(width) != old(self).width_view() || at_least_one(height)
                != old(self).height_view()),
            final(self).history_view() == old(self).history_view(),
            final(self).recording_view() == old(self).recording_view(),
            final(self).last_refresh_view() == old(self).last_refresh_view(),
    {
        let w: u32 = if width == 0 { 1 } else { width };
        let h: u32 = if height == 0 { 1 } else { height };
        let changed = w != self.width || h != self.height;
        self.width = w;
        self.height = h;
        changed
    }

    /// Folds `samples` into the waveform, in order.
    pub fn fold_samples(&mut self, samples: &Vec<AmplitudeMessage>)
        requires
            old(self).wf(),
        ensures
            final(self).wf(),
            final(self).history_view() == history_after(
                old(self).history_view(),
                amplitudes_of(samples@),
            ),
            final(self).recording_view() == if samples@.len() == 0 {
                old(self).recording_view()
            } else {
                samples@.last().recording
            },
            final(self).width_view() == old(self).width_view(),
            final(self).height_view() == old(self).height_view(),
            final(self).last_refresh_view() == old(self).last_refresh_view(),
    {
        let mut i: usize = 0;
        while i < samples.len()
            invariant
                i <= samples@.len(),
                self.wf(),
                self.waveform.history_view() == history_after(
                    old(self).history_view(),
                    amplitudes_of(samples@.subrange(0, i as int)),
                ),
                self.waveform.recording_view() == if i == 0 {
                    old(self).recording_view()
                } else {
                    samples@[i - 1].recording
                },
                self.width == old(self).width,
                self.height == old(self).height,
                self.last_refresh_ms == old(self).last_refresh_ms,
            decreases samples@.len() - i,
        {
            let m = samples[i];
            self.waveform.update(m.amplitude, m.recording);
            proof {
                let before = amplitudes_of(samples@.subrange(0, i as int));
                let after = amplitudes_of(samples@.subrange(0, i + 1));
                assert(after.drop_last() =~= before);
                assert(after.last() == m.amplitude);
            }
            i = i + 1;
        }
        assert(samples@.subrange(0, samples@.len() as int) =~= samples@);
    }

    /// One tick of the host loop: folds the drained samples in; a frame is
    /// composed when any arrived, and a redraw is requested then or once
    /// `REFRESH_INTERVAL_MS` has passed since the last one. A tick with no
    /// sample before that deadline changes nothing.
    pub fn tick(&mut self, samples: &Vec<AmplitudeMessage>, now_ms: u64) -> (r: TickOutcome)
        requires
            old(self).wf(),
        ensures
            final(self).wf(),
            final(self).history_view() == history_after(
                old(self).history_view(),
                amplitudes_of(samples@),
            ),
            final(self).recording_view() == if samples@.len() == 0 {
                old(self).recording_view()
            } else {
                samples@.last().recording
            },
            final(self).width_view() == old(self).width_view(),
            final(self).height_view() == old(self).height_view(),
            r.compose == (samples@.len() > 0),
            r.request_redraw == (samples@.len() > 0 || (now_ms >= old(self).last_refresh_view()
                && now_ms - old(self).last_refresh_view() >= REFRESH_INTERVAL_MS)),
            final(self).last_refresh_view() == if r.request_redraw {
                now_ms
            } else {
                old(self).last_refresh_view()
            },
    {
        self.fold_samples(samples);
        let compose = samples.len() > 0;
        let due = now_ms >= self.last_refresh_ms && now_ms - self.last_refresh_ms
            >= REFRESH_INTERVAL_MS;
        let request_redraw = compose || due;
        if request_redraw {
            self.last_refresh_ms = now_ms;
        }
        TickOutcome { compose, request_redraw }
    }

    /// A transparent frame buffer of the current size; where no pixmap of
    /// that size can be made, a 1 by 1 one.
    pub fn allocate_frame(&self) -> (r: Frame)
        ensures
            pixmap_fits(self.width_view(), self.height_view()) ==> r.width == self.width_view()
                && r.height == self.height_view(),
            !pixmap_fits(self.width_view(), self.height_view()) ==> r.width == 1 && r.height == 1,
    {
        match new_pixmap(self.width, self.height) {
            Some(pixmap) => Frame { pixmap, width: self.width, height: self.height },
            None => {
                let fallback = new_pixmap(1, 1);
                Frame { pixmap: fallback.unwrap(), width: 1, height: 1 }
            },
        }
    }

    /// Whether `frame` has the current size, so that a frame composed now
    /// may be painted into it.
    pub fn frame_matches(&self, frame: &Frame) -> (r: bool)
        ensures
            r == (frame.width == self.width_view() && frame.height == self.height_view()),
    {
        frame.width == self.width && frame.height == self.height
    }

    /// Composes the frame for the current waveform at the current size.
    pub fn compose(&self, scene: &mut Scene)
        requires
            self.wf(),
        ensures
            final(scene).shapes@ == waveform_scene(
                self.history_view(),
                self.recording_view(),
                self.width_view(),
                self.height_view(),
            ),
    {
        draw_waveform(scene, &self.waveform, self.width, self.height);
    }
}

} // verus!
