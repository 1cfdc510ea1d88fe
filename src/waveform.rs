//! Bounded history of normalised amplitudes plus the recording flag.

use std::collections::VecDeque;
use vstd::prelude::*;

verus! {

/// Amplitudes are fixed-point: this value stands for full scale (1.0).
pub const AMPLITUDE_SCALE: u32 = 1000;

/// How many samples the history keeps.
pub const HISTORY_SIZE: usize = 60;

/// `a` clamped to the range `[0, AMPLITUDE_SCALE]`.
pub open spec fn clamp_amplitude(a: int) -> int {
    if a < 0 {
        0
    } else if a > AMPLITUDE_SCALE {
        AMPLITUDE_SCALE as int
    } else {
        a
    }
}

/// The history after one more sample: `a` is appended and, once the history
/// would exceed its capacity, the oldest sample is dropped.
pub open spec fn push_bounded(h: Seq<u32>, a: u32) -> Seq<u32> {
    let grown = h.push(a);
    if grown.len() > HISTORY_SIZE {
        grown.subrange(grown.len() - HISTORY_SIZE, grown.len() as int)
    } else {
        grown
    }
}

/// The history after `update` with each amplitude of `amps`, in order.
pub open spec fn history_after(h: Seq<u32>, amps: Seq<i64>) -> Seq<u32>
    decreases amps.len(),
{
    if amps.len() == 0 {
        h
    } else {
        push_bounded(
            history_after(h, amps.drop_last()),
            clamp_amplitude(amps.last() as int) as u32,
        )
    }
}

/// Each amplitude of `amps`, clamped.
pub open spec fn clamped_all(amps: Seq<i64>) -> Seq<u32> {
    amps.map_values(|a: i64| clamp_amplitude(a as int) as u32)
}

/// The last `n` elements of `s` (all of them where there are fewer).
pub open spec fn latest(s: Seq<u32>, n: nat) -> Seq<u32> {
    if s.len() > n {
        s.subrange(s.len() - n, s.len() as int)
    } else {
        s
    }
}

/// Appending to the latest `HISTORY_SIZE` samples and keeping the bound gives
/// the latest `HISTORY_SIZE` samples of the longer sequence.
proof fn lemma_push_latest(s: Seq<u32>, a: u32)
    ensures
        push_bounded(latest(s, HISTORY_SIZE as nat), a) == latest(s.push(a), HISTORY_SIZE as nat),
{
    let l = latest(s, HISTORY_SIZE as nat);
    let grown = l.push(a);
    if grown.len() > HISTORY_SIZE {
        assert(grown.subrange(grown.len() - HISTORY_SIZE, grown.len() as int) =~= latest(
            s.push(a),
            HISTORY_SIZE as nat,
        ));
    } else {
        assert(grown =~= latest(s.push(a), HISTORY_SIZE as nat));
    }
}

/// Whatever sequence of updates is applied to a history within capacity,
/// the history stays within capacity and holds exactly the latest
/// `HISTORY_SIZE` samples, clamped, in call order: the oldest leave first.
pub proof fn lemma_history_keeps_latest(h: Seq<u32>, amps: Seq<i64>)
    requires
        h.len() <= HISTORY_SIZE,
    ensures
        history_after(h, amps) == latest(h + clamped_all(amps), HISTORY_SIZE as nat),
        history_after(h, amps).len() <= HISTORY_SIZE,
        amps.len() >= HISTORY_SIZE ==> history_after(h, amps) == clamped_all(amps).subrange(
            amps.len() - HISTORY_SIZE,
            amps.len() as int,
        ),
    decreases amps.len(),
{
    if amps.len() == 0 {
        assert(h + clamped_all(amps) =~= h);
    } else {
        let prev = amps.drop_last();
        let c = clamp_amplitude(amps.last() as int) as u32;
        lemma_history_keeps_latest(h, prev);
        lemma_push_latest(h + clamped_all(prev), c);
        assert((h + clamped_all(prev)).push(c) =~= h + clamped_all(amps));
    }
    let all = h + clamped_all(amps);
    if amps.len() >= HISTORY_SIZE {
        assert(all.subrange(all.len() - HISTORY_SIZE, all.len() as int) =~= clamped_all(
            amps,
        ).subrange(amps.len() - HISTORY_SIZE, amps.len() as int));
    }
}

pub struct WaveformState {
    history: VecDeque<u32>,
    recording: bool,
}

impl WaveformState {
    /// Stored amplitudes, oldest first.
    pub closed spec fn history_view(&self) -> Seq<u32> {
        self.history@
    }

    pub closed spec fn recording_view(&self) -> bool {
        self.recording
    }

    /// At most `HISTORY_SIZE` samples, each within `[0, AMPLITUDE_SCALE]`.
    pub closed spec fn wf(&self) -> bool {
        &&& self.history@.len() <= HISTORY_SIZE
        &&& forall|i: int| 0 <= i < self.history@.len() ==> self.history@[i] <= AMPLITUDE_SCALE
    }

    /// What a well-formed state holds.
    pub proof fn lemma_wf(&self)
        requires
            self.wf(),
        ensures
            self.history_view().len() <= HISTORY_SIZE,
            forall|i: int|
                0 <= i < self.history_view().len() ==> self.history_view()[i] <= AMPLITUDE_SCALE,
    {
    }

    pub fn new() -> (r: Self)
        ensures
            r.wf(),
            r.history_view() == Seq::<u32>::empty(),
            !r.recording_view(),
    {
        WaveformState { history: VecDeque::with_capacity(HISTORY_SIZE), recording: false }
    }

    /// Records one sample: the flag is replaced, the clamped amplitude is
    /// appended, and the oldest sample leaves once the history is full.
    pub fn update(&mut self, amplitude: i64, recording: bool)
        requires
            old(self).wf(),
        ensures
            final(self).wf(),
            final(self).history_view() == push_bounded(
                old(self).history_view(),
                clamp_amplitude(amplitude as int) as u32,
            ),
            final(self).recording_view() == recording,
    {
        self.recording = recording;
        if self.history.len() >= HISTORY_SIZE {
            self.history.pop_front();
        }
        let a: u32 = if amplitude < 0 {
            0
        } else if amplitude > AMPLITUDE_SCALE as i64 {
            AMPLITUDE_SCALE
        } else {
            amplitude as u32
        };
        self.history.push_back(a);
        proof {
            let grown = old(self).history@.push(a);
            if grown.len() > HISTORY_SIZE {
                assert(self.history@ =~= grown.subrange(
                    grown.len() - HISTORY_SIZE,
                    grown.len() as int,
                ));
            } else {
                assert(self.history@ =~= grown);
            }
        }
    }

    pub fn get_history(&self) -> (r: &VecDeque<u32>)
        ensures
            r@ == self.history_view(),
    {
        &self.history
    }

    pub fn is_recording(&self) -> (r: bool)
        ensures
            r == self.recording_view(),
    {
        self.recording
    }

    /// Empties the history and clears the recording flag.
    pub fn clear(&mut self)
        ensures
            final(self).wf(),
            final(self).history_view() == Seq::<u32>::empty(),
            !final(self).recording_view(),
    {
        self.history.clear();
        self.recording = false;
    }
}

} // verus!
