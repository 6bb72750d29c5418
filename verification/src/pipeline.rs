//! One playing track's signal path: every decoded sample runs through the
//! per-channel equalizer cascade, and each completed frame's channel average
//! feeds the spectrum window.
//!
//! Samples arrive frame-interleaved (channel 0 first); `frame_pos` tracks
//! the channel the next sample belongs to, and `frame_acc` the running sum
//! of the current frame's filtered samples for the downmix.

use crate::eq::{chain_out, chain_state, channel_zeroed, eq_state_wf, EqState, Equalizer};
use crate::fixed::{div_trunc, div_tz, lemma_div_tz_bound, CLIP, SCALE};
use crate::spectrum::{SpectrumWindow, WINDOW};
use vstd::prelude::*;

verus! {

/// The signal path of one loaded track.
pub struct Pipeline {
    pub eq: Equalizer,
    pub window: SpectrumWindow,
    pub frame_acc: i64,
    pub frame_pos: u16,
    pub channel_count: u16,
}

impl Pipeline {
    /// Equalizer and window well-formed, one filter pair per channel, and
    /// the frame accumulator bounded by the samples it has summed.
    pub open spec fn wf(self) -> bool {
        &&& self.eq.wf()
        &&& self.window.wf()
        &&& 1 <= self.channel_count
        &&& self.eq.channels.len() == self.channel_count
        &&& self.frame_pos < self.channel_count
        &&& -(self.frame_pos as int * CLIP) <= self.frame_acc <= self.frame_pos as int * CLIP
    }

    /// Every stage at rest: zeroed filter registers, empty window, no
    /// partially summed frame.
    pub open spec fn zeroed(self) -> bool {
        &&& forall|i: int|
            0 <= i < self.eq.channels.len() ==> channel_zeroed(#[trigger] self.eq.channels@[i])
        &&& self.window.buf.len() == 0
        &&& self.window.total == 0
        &&& self.frame_acc == 0
        &&& self.frame_pos == 0
    }

    /// A fresh pipeline for a track with `channel_count` channels, filters
    /// designed for the given gains, all state zeroed: no carry-over from
    /// any earlier track.
    pub fn new(channel_count: u16, gains: EqState) -> (p: Self)
        requires
            channel_count >= 1,
            eq_state_wf(gains),
        ensures
            p.wf(),
            p.zeroed(),
            p.channel_count == channel_count,
            p.eq.bass_used == gains.bass,
            p.eq.treble_used == gains.treble,
    {
        Pipeline {
            eq: Equalizer::new(channel_count, gains),
            window: SpectrumWindow::new(),
            frame_acc: 0,
            frame_pos: 0,
            channel_count,
        }
    }

    /// Adopt new gains; filter history, window and frame bookkeeping are all
    /// untouched.
    pub fn set_gains(&mut self, gains: EqState)
        requires
            old(self).wf(),
            eq_state_wf(gains),
        ensures
            final(self).wf(),
            final(self).eq.bass_used == gains.bass,
            final(self).eq.treble_used == gains.treble,
            final(self).eq.channels == old(self).eq.channels,
            final(self).window == old(self).window,
            final(self).frame_acc == old(self).frame_acc,
            final(self).frame_pos == old(self).frame_pos,
            final(self).channel_count == old(self).channel_count,
    {
        self.eq.set_gains(gains);
    }

    /// Feed one decoded sample (of the channel `frame_pos` points at)
    /// through the equalizer; the filtered sample is the first result. When
    /// the sample closes a frame, the frame's channel average goes into the
    /// analysis window, and a completed window is handed out as the second
    /// result.
    pub fn process(&mut self, x: i64) -> (r: (i64, Option<Vec<i64>>))
        requires
            old(self).wf(),
            -SCALE <= x <= SCALE,
            old(self).window.total < u64::MAX,
        ensures
            final(self).wf(),
            r.0 == chain_out(
                old(self).eq.low_coeffs,
                old(self).eq.high_coeffs,
                old(self).eq.channels@[old(self).frame_pos as int],
                x as int,
            ),
            final(self).eq.channels@[old(self).frame_pos as int] == chain_state(
                old(self).eq.low_coeffs,
                old(self).eq.high_coeffs,
                old(self).eq.channels@[old(self).frame_pos as int],
                x as int,
            ),
            forall|i: int|
                0 <= i < old(self).eq.channels.len() && i != old(self).frame_pos as int
                    ==> final(self).eq.channels@[i] == old(self).eq.channels@[i],
            final(self).eq.low_coeffs == old(self).eq.low_coeffs,
            final(self).eq.high_coeffs == old(self).eq.high_coeffs,
            final(self).eq.bass_used == old(self).eq.bass_used,
            final(self).eq.treble_used == old(self).eq.treble_used,
            final(self).channel_count == old(self).channel_count,
            old(self).frame_pos + 1 < old(self).channel_count ==> {
                &&& final(self).frame_pos == old(self).frame_pos + 1
                &&& final(self).frame_acc == old(self).frame_acc + r.0
                &&& final(self).window == old(self).window
                &&& r.1 is None
            },
            old(self).frame_pos + 1 == old(self).channel_count ==> {
                let avg = div_tz(
                    old(self).frame_acc + r.0,
                    old(self).channel_count as int,
                );
                &&& final(self).frame_pos == 0
                &&& final(self).frame_acc == 0
                &&& final(self).window.total == old(self).window.total + 1
                &&& (old(self).window.total as int + 1) % (WINDOW as int) == 0 ==> {
                    &&& r.1 is Some
                    &&& r.1->Some_0@ == old(self).window.buf@.push(avg as i64)
                    &&& r.1->Some_0.len() == WINDOW
                    &&& final(self).window.buf.len() == 0
                }
                &&& (old(self).window.total as int + 1) % (WINDOW as int) != 0 ==> {
                    &&& r.1 is None
                    &&& final(self).window.buf@ == old(self).window.buf@.push(avg as i64)
                }
            },
    {
        let ch = self.frame_pos as usize;
        let y = self.eq.process(ch, x);
        if self.frame_pos + 1 < self.channel_count {
            self.frame_acc = self.frame_acc + y;
            self.frame_pos = self.frame_pos + 1;
            (y, None)
        } else {
            let sum = self.frame_acc + y;
            let cc = self.channel_count as i64;
            proof {
                lemma_div_tz_bound(sum as int, self.channel_count as int * CLIP, cc as int);
                vstd::arithmetic::div_mod::lemma_div_multiples_vanish(
                    CLIP as int,
                    self.channel_count as int,
                );
                assert(self.channel_count as int * CLIP == cc as int * (CLIP as int));
            }
            let avg = div_trunc(sum, cc);
            let emitted = self.window.push(avg);
            self.frame_acc = 0;
            self.frame_pos = 0;
            (y, emitted)
        }
    }
}

} // verus!
