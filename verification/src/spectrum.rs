//! The spectrum stage: accumulate downmixed post-EQ samples into a
//! fixed-size analysis window, hand each completed window out for a
//! frequency transform, and fold the resulting magnitudes into a small,
//! fixed number of display bars.
//!
//! The transform itself runs outside the signal path; this module owns the
//! cadence (exactly one completed window per `WINDOW` consumed samples) and
//! the banding rule, and keeps stale-but-valid bars when an analysis fails.

use crate::fixed::CLIP;
use vstd::prelude::*;

verus! {

/// Number of samples in one analysis window.
pub const WINDOW: usize = 1024;

/// Number of display bars published after each completed window.
pub const BAR_COUNT: usize = 20;

/// The analysis window: the tail of the downmixed stream since the last
/// completed window, plus the count of samples ever consumed.
pub struct SpectrumWindow {
    pub buf: Vec<i64>,
    pub total: u64,
}

impl SpectrumWindow {
    /// The buffer holds exactly `total % WINDOW` samples, all in range.
    pub open spec fn wf(self) -> bool {
        &&& self.buf.len() == self.total as int % (WINDOW as int)
        &&& forall|i: int| 0 <= i < self.buf.len() ==> -CLIP <= #[trigger] self.buf@[i] <= CLIP
    }

    /// An empty window, before any sample.
    pub fn new() -> (w: Self)
        ensures
            w.wf(),
            w.buf.len() == 0,
            w.total == 0,
    {
        SpectrumWindow { buf: Vec::new(), total: 0 }
    }

    /// Consume one downmixed sample. Exactly when it completes a window —
    /// once per `WINDOW` consumed samples — the filled window is handed out
    /// and the buffer resets to empty.
    pub fn push(&mut self, s: i64) -> (full: Option<Vec<i64>>)
        requires
            old(self).wf(),
            -CLIP <= s <= CLIP,
            old(self).total < u64::MAX,
        ensures
            final(self).wf(),
            final(self).total == old(self).total + 1,
            (old(self).total as int + 1) % (WINDOW as int) == 0 ==> {
                &&& full is Some
                &&& full->Some_0@ == old(self).buf@.push(s)
                &&& full->Some_0.len() == WINDOW
                &&& final(self).buf.len() == 0
            },
            (old(self).total as int + 1) % (WINDOW as int) != 0 ==> {
                &&& full is None
                &&& final(self).buf@ == old(self).buf@.push(s)
            },
    {
        self.buf.push(s);
        self.total = self.total + 1;
        if self.buf.len() == WINDOW {
            let mut out: Vec<i64> = Vec::new();
            core::mem::swap(&mut out, &mut self.buf);
            Some(out)
        } else {
            None
        }
    }
}

/// Overwrite the display bars from a completed window's magnitudes, bar `i`
/// taking magnitude `2 * i`: an even-stride sweep across the low half of the
/// spectrum. A magnitude set too short to cover a bar leaves that bar's
/// previous value standing, so a failed analysis (an empty set) keeps the
/// whole display stale but valid.
pub fn update_bins(bins: &mut Vec<i64>, mags: &Vec<i64>)
    requires
        old(bins).len() == BAR_COUNT,
    ensures
        final(bins).len() == BAR_COUNT,
        forall|i: int|
            0 <= i < BAR_COUNT ==> final(bins)@[i] == (if 2 * i < mags.len() {
                mags@[2 * i]
            } else {
                old(bins)@[i]
            }),
{
    let mut i: usize = 0;
    while i < BAR_COUNT
        invariant
            i <= BAR_COUNT,
            bins.len() == BAR_COUNT,
            forall|j: int|
                0 <= j < i ==> bins@[j] == (if 2 * j < mags.len() {
                    mags@[2 * j]
                } else {
                    old(bins)@[j]
                }),
            forall|j: int| i <= j < BAR_COUNT ==> bins@[j] == old(bins)@[j],
        decreases BAR_COUNT - i,
    {
        if 2 * i < mags.len() {
            let m = mags[2 * i];
            bins.set(i, m);
        }
        i = i + 1;
    }
}

/// How many windows complete over the first `n` consumed samples: one at
/// every sample count that is a multiple of `WINDOW`.
pub open spec fn emission_count(n: nat) -> int
    decreases n,
{
    if n == 0 {
        0
    } else {
        emission_count((n - 1) as nat) + if n as int % (WINDOW as int) == 0 {
            1int
        } else {
            0int
        }
    }
}

/// Spectrum cadence: a stream of `n` samples completes exactly `n / WINDOW`
/// windows, and (by `SpectrumWindow::wf`) the buffer holds `n % WINDOW`
/// samples afterward — zero immediately after each completion.
pub proof fn lemma_spectrum_cadence(n: nat)
    ensures
        emission_count(n) == n as int / (WINDOW as int),
    decreases n,
{
    if n > 0 {
        lemma_spectrum_cadence((n - 1) as nat);
    }
}

} // verus!
