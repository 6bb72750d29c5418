//! The two-band equalizer: a low shelf and a high shelf in cascade, with one
//! independent pair of filter sections per audio channel.
//!
//! Coefficients are recomputed only when a gain setting actually moved; the
//! delay registers are never touched by a gain change, so updates are
//! glitch-free. The unity-gain law and the channel-independence law are
//! proved here over the spec-level model of the cascade.

use crate::biquad::{
    coeffs_wf, lemma_passthrough_step, lemma_unity_shelf, mirrored,
    shelf_coeffs, shelf_coeffs_spec, state_wf, step_out, step_state, Biquad, BiquadCoeffs,
};
use crate::fixed::{CLIP, SCALE};
use vstd::prelude::*;

verus! {

/// Cosine of the low shelf's cutoff (about 200 Hz at a 44.1 kHz rate), fixed
/// point.
pub const COS_LOW: i64 = 16770405;

/// Sine of the low shelf's cutoff.
pub const SIN_LOW: i64 = 478005;

/// Cosine of the high shelf's cutoff (about 4 kHz at a 44.1 kHz rate).
pub const COS_HIGH: i64 = 14125629;

/// Sine of the high shelf's cutoff.
pub const SIN_HIGH: i64 = 9052159;

/// The control path's equalizer setting: linear gains, one is `SCALE`.
#[derive(Clone, Copy, Debug, PartialEq, Eq, Structural)]
pub struct EqState {
    pub bass: i64,
    pub treble: i64,
}

/// A gain is admissible between zero and two.
pub open spec fn gain_wf(g: int) -> bool {
    0 <= g <= 2 * SCALE
}

/// Both gains admissible.
pub open spec fn eq_state_wf(e: EqState) -> bool {
    gain_wf(e.bass as int) && gain_wf(e.treble as int)
}

impl EqState {
    /// The flat setting: both shelves at unity.
    pub fn flat() -> (e: EqState)
        ensures
            e.bass == SCALE,
            e.treble == SCALE,
            eq_state_wf(e),
    {
        EqState { bass: SCALE, treble: SCALE }
    }
}

/// The two filter sections of one audio channel.
#[derive(Clone, Copy, Debug, PartialEq, Eq, Structural)]
pub struct ChannelFilters {
    pub low: Biquad,
    pub high: Biquad,
}

/// Registers of both sections in range.
pub open spec fn channel_wf(ch: ChannelFilters) -> bool {
    state_wf(ch.low) && state_wf(ch.high)
}

/// All four delay registers of both sections are zero.
pub open spec fn channel_zeroed(ch: ChannelFilters) -> bool {
    ch == (ChannelFilters {
        low: Biquad { x1: 0i64, x2: 0i64, y1: 0i64, y2: 0i64 },
        high: Biquad { x1: 0i64, x2: 0i64, y1: 0i64, y2: 0i64 },
    })
}

/// Output of the cascade (low shelf, then high shelf) for one sample.
pub open spec fn chain_out(lc: BiquadCoeffs, hc: BiquadCoeffs, ch: ChannelFilters, x: int) -> int {
    step_out(hc, ch.high, step_out(lc, ch.low, x))
}

/// State of the cascade after one sample.
pub open spec fn chain_state(
    lc: BiquadCoeffs,
    hc: BiquadCoeffs,
    ch: ChannelFilters,
    x: int,
) -> ChannelFilters {
    ChannelFilters {
        low: step_state(lc, ch.low, x),
        high: step_state(hc, ch.high, step_out(lc, ch.low, x)),
    }
}

/// The equalizer: per-channel filter state plus the coefficients currently
/// in force and the gains they were computed from.
pub struct Equalizer {
    pub channels: Vec<ChannelFilters>,
    pub low_coeffs: BiquadCoeffs,
    pub high_coeffs: BiquadCoeffs,
    pub bass_used: i64,
    pub treble_used: i64,
}

impl Equalizer {
    /// The coefficients are exactly the shelf design at the recorded gains,
    /// and every channel's registers are in range.
    pub open spec fn wf(self) -> bool {
        &&& gain_wf(self.bass_used as int)
        &&& gain_wf(self.treble_used as int)
        &&& self.low_coeffs == shelf_coeffs_spec(
            self.bass_used as int,
            COS_LOW as int,
            SIN_LOW as int,
            true,
        )
        &&& self.high_coeffs == shelf_coeffs_spec(
            self.treble_used as int,
            COS_HIGH as int,
            SIN_HIGH as int,
            false,
        )
        &&& coeffs_wf(self.low_coeffs)
        &&& coeffs_wf(self.high_coeffs)
        &&& forall|i: int| 0 <= i < self.channels.len() ==> channel_wf(#[trigger] self.channels@[i])
    }

    /// A fresh equalizer: one zeroed filter pair per channel, coefficients
    /// designed for the given gains.
    pub fn new(channel_count: u16, gains: EqState) -> (eq: Self)
        requires
            eq_state_wf(gains),
            channel_count >= 1,
        ensures
            eq.wf(),
            eq.channels.len() == channel_count,
            eq.bass_used == gains.bass,
            eq.treble_used == gains.treble,
            forall|i: int| 0 <= i < eq.channels.len() ==> channel_zeroed(#[trigger] eq.channels@[i]),
    {
        let low_coeffs = shelf_coeffs(gains.bass, COS_LOW, SIN_LOW, true);
        let high_coeffs = shelf_coeffs(gains.treble, COS_HIGH, SIN_HIGH, false);
        let mut channels: Vec<ChannelFilters> = Vec::new();
        let mut i: u16 = 0;
        while i < channel_count
            invariant
                i <= channel_count,
                channels.len() == i,
                forall|j: int| 0 <= j < i ==> channel_zeroed(#[trigger] channels@[j]),
            decreases channel_count - i,
        {
            channels.push(ChannelFilters { low: Biquad::new(), high: Biquad::new() });
            i = i + 1;
        }
        Equalizer {
            channels,
            low_coeffs,
            high_coeffs,
            bass_used: gains.bass,
            treble_used: gains.treble,
        }
    }

    /// Adopt a new setting. Each shelf's coefficients are recomputed only if
    /// its gain actually moved; the delay registers are untouched either way,
    /// so a gain change cannot glitch the signal history.
    pub fn set_gains(&mut self, gains: EqState)
        requires
            old(self).wf(),
            eq_state_wf(gains),
        ensures
            final(self).wf(),
            final(self).bass_used == gains.bass,
            final(self).treble_used == gains.treble,
            final(self).channels == old(self).channels,
    {
        if gains.bass != self.bass_used {
            self.low_coeffs = shelf_coeffs(gains.bass, COS_LOW, SIN_LOW, true);
            self.bass_used = gains.bass;
        }
        if gains.treble != self.treble_used {
            self.high_coeffs = shelf_coeffs(gains.treble, COS_HIGH, SIN_HIGH, false);
            self.treble_used = gains.treble;
        }
    }

    /// Filter one sample of channel `ch` through both shelves. Only that
    /// channel's registers move; every other channel is untouched.
    pub fn process(&mut self, ch: usize, x: i64) -> (y: i64)
        requires
            old(self).wf(),
            ch < old(self).channels.len(),
            -SCALE <= x <= SCALE,
        ensures
            final(self).wf(),
            y == chain_out(
                old(self).low_coeffs,
                old(self).high_coeffs,
                old(self).channels@[ch as int],
                x as int,
            ),
            final(self).channels@[ch as int] == chain_state(
                old(self).low_coeffs,
                old(self).high_coeffs,
                old(self).channels@[ch as int],
                x as int,
            ),
            forall|i: int|
                0 <= i < old(self).channels.len() && i != ch ==> final(self).channels@[i]
                    == old(self).channels@[i],
            final(self).channels.len() == old(self).channels.len(),
            final(self).low_coeffs == old(self).low_coeffs,
            final(self).high_coeffs == old(self).high_coeffs,
            final(self).bass_used == old(self).bass_used,
            final(self).treble_used == old(self).treble_used,
            -CLIP <= y <= CLIP,
    {
        let mut f = self.channels[ch];
        let y0 = f.low.process(&self.low_coeffs, x);
        let y = f.high.process(&self.high_coeffs, y0);
        self.channels.set(ch, f);
        y
    }
}

/// The outputs of one channel's cascade run over a whole input sequence.
pub open spec fn chain_run_outs(
    lc: BiquadCoeffs,
    hc: BiquadCoeffs,
    ch: ChannelFilters,
    xs: Seq<int>,
) -> Seq<int>
    decreases xs.len(),
{
    if xs.len() == 0 {
        Seq::empty()
    } else {
        seq![chain_out(lc, hc, ch, xs[0])] + chain_run_outs(
            lc,
            hc,
            chain_state(lc, hc, ch, xs[0]),
            xs.drop_first(),
        )
    }
}

/// Unity gain: with both shelves designed at gain one and the filters
/// starting mirrored (in particular, at rest), the equalizer returns every
/// in-range input sequence bit-exactly unchanged.
pub proof fn lemma_unity_gain(
    lc: BiquadCoeffs,
    hc: BiquadCoeffs,
    ch: ChannelFilters,
    xs: Seq<int>,
)
    requires
        lc == shelf_coeffs_spec(SCALE as int, COS_LOW as int, SIN_LOW as int, true),
        hc == shelf_coeffs_spec(SCALE as int, COS_HIGH as int, SIN_HIGH as int, false),
        mirrored(ch.low),
        mirrored(ch.high),
        forall|i: int| 0 <= i < xs.len() ==> -SCALE <= #[trigger] xs[i] <= SCALE,
    ensures
        chain_run_outs(lc, hc, ch, xs) == xs,
    decreases xs.len(),
{
    lemma_unity_shelf(COS_LOW as int, SIN_LOW as int, true);
    lemma_unity_shelf(COS_HIGH as int, SIN_HIGH as int, false);
    if xs.len() == 0 {
        assert(chain_run_outs(lc, hc, ch, xs) =~= xs);
    } else {
        lemma_passthrough_step(lc, ch.low, xs[0]);
        lemma_passthrough_step(hc, ch.high, xs[0]);
        let ch2 = chain_state(lc, hc, ch, xs[0]);
        lemma_unity_gain(lc, hc, ch2, xs.drop_first());
        assert(chain_run_outs(lc, hc, ch, xs) =~= xs);
    }
}

/// Channel independence: the sample a channel emits is a function of that
/// channel's own filter state and input alone, whatever the states of the
/// other channels are.
pub proof fn lemma_channel_independence(eq1: Equalizer, eq2: Equalizer, ch: int, x: int)
    requires
        eq1.low_coeffs == eq2.low_coeffs,
        eq1.high_coeffs == eq2.high_coeffs,
        0 <= ch < eq1.channels.len(),
        ch < eq2.channels.len(),
        eq1.channels@[ch] == eq2.channels@[ch],
    ensures
        chain_out(eq1.low_coeffs, eq1.high_coeffs, eq1.channels@[ch], x) == chain_out(
            eq2.low_coeffs,
            eq2.high_coeffs,
            eq2.channels@[ch],
            x,
        ),
        chain_state(eq1.low_coeffs, eq1.high_coeffs, eq1.channels@[ch], x) == chain_state(
            eq2.low_coeffs,
            eq2.high_coeffs,
            eq2.channels@[ch],
            x,
        ),
{
}

} // verus!
