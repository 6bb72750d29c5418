//! The playback session: the state machine behind the control surface.
//!
//! The player owns no device; it decides. Opening files, skipping within
//! them and feeding the output device happen outside, and hand their plain
//! results in. Every transition — load, play, pause, resume, stop, seek,
//! volume, equalizer setting — is pinned down exactly, including when a
//! command is refused and that a refused command changes nothing.

use crate::eq::{eq_state_wf, gain_wf, EqState};
use crate::fixed::SCALE;
use crate::pipeline::Pipeline;
use crate::spectrum::{update_bins, BAR_COUNT};
use vstd::prelude::*;

verus! {

/// Where the transport stands.
#[derive(Clone, Copy, Debug, PartialEq, Eq, Structural)]
pub enum PlaybackState {
    Idle,
    Playing,
    Paused,
}

/// Why a control command was refused.
#[derive(Clone, Copy, Debug, PartialEq, Eq, Structural)]
pub enum PlayerError {
    /// `play` with no session loaded: an explicit empty-state report, never
    /// a fallback file.
    NoTrackLoaded,
    /// The decoder could not open or read the file.
    OpenFailed,
    /// `seek` on a source that does not report its duration.
    UnknownDuration,
}

/// What the decoder reports once a file has opened.
pub struct TrackMeta {
    pub channel_count: u16,
    pub duration_ms: Option<u64>,
}

/// The outcome of a successful load: whether the sink must stop the old
/// pipeline first, and the fresh pipeline to append then play.
pub struct LoadPlan {
    pub stop_first: bool,
    pub pipeline: Pipeline,
}

/// The outcome of a successful seek: how far into the track the decoder
/// must skip, and the fresh pipeline to play from there.
pub struct SeekPlan {
    pub skip_ms: u64,
    pub pipeline: Pipeline,
}

/// The session state shared between the control path and the render path.
pub struct AudioPlayer {
    pub state: PlaybackState,
    pub current_path: Option<String>,
    pub current_duration_ms: Option<u64>,
    pub current_channels: u16,
    pub eq_state: EqState,
    pub volume: i64,
    pub bins: Vec<i64>,
    pub track_gen: u64,
}

impl AudioPlayer {
    /// Admissible gains, a full set of display bins, and a path on file
    /// whenever a track is active.
    pub open spec fn wf(self) -> bool {
        &&& eq_state_wf(self.eq_state)
        &&& self.bins.len() == BAR_COUNT
        &&& 0 <= self.volume
        &&& 1 <= self.current_channels
        &&& (self.state is Playing || self.state is Paused) ==> self.current_path is Some
    }

    /// The fields a transport command must not disturb.
    pub open spec fn same_session(self, other: AudioPlayer) -> bool {
        &&& self.current_path == other.current_path
        &&& self.current_duration_ms == other.current_duration_ms
        &&& self.current_channels == other.current_channels
        &&& self.eq_state == other.eq_state
        &&& self.volume == other.volume
        &&& self.bins == other.bins
        &&& self.track_gen == other.track_gen
    }

    /// A player with nothing loaded: idle, flat equalizer, full volume,
    /// all display bins at zero.
    pub fn new() -> (p: Self)
        ensures
            p.wf(),
            p.state is Idle,
            p.current_path is None,
            p.current_duration_ms is None,
            p.eq_state.bass == SCALE,
            p.eq_state.treble == SCALE,
            p.volume == SCALE,
            p.track_gen == 0,
            forall|i: int| 0 <= i < BAR_COUNT ==> p.bins@[i] == 0,
    {
        let mut bins: Vec<i64> = Vec::new();
        let mut i: usize = 0;
        while i < BAR_COUNT
            invariant
                i <= BAR_COUNT,
                bins.len() == i,
                forall|j: int| 0 <= j < i ==> bins@[j] == 0,
            decreases BAR_COUNT - i,
        {
            bins.push(0);
            i = i + 1;
        }
        AudioPlayer {
            state: PlaybackState::Idle,
            current_path: None,
            current_duration_ms: None,
            current_channels: 1,
            eq_state: EqState::flat(),
            volume: SCALE,
            bins,
            track_gen: 0,
        }
    }

    /// Load a file, given the decoder's report. On success the plan stops
    /// any active output before the fresh, fully zeroed pipeline starts, so
    /// no two pipelines ever feed the sink at once and nothing of the old
    /// track's signal survives into the new one. On failure the whole
    /// session is left exactly as it was.
    pub fn play_file(&mut self, path: String, opened: Option<TrackMeta>) -> (r: Result<
        LoadPlan,
        PlayerError,
    >)
        requires
            old(self).wf(),
            old(self).track_gen < u64::MAX,
            opened matches Some(m) ==> 1 <= m.channel_count,
        ensures
            final(self).wf(),
            opened is None ==> {
                &&& r matches Err(e) && e == PlayerError::OpenFailed
                &&& *final(self) == *old(self)
            },
            opened matches Some(m) ==> {
                &&& r is Ok
                &&& final(self).state is Playing
                &&& final(self).current_path == Some(path)
                &&& final(self).current_duration_ms == m.duration_ms
                &&& final(self).current_channels == m.channel_count
                &&& final(self).track_gen == old(self).track_gen + 1
                &&& final(self).eq_state == old(self).eq_state
                &&& final(self).volume == old(self).volume
                &&& final(self).bins == old(self).bins
                &&& r->Ok_0.stop_first == !(old(self).state is Idle)
                &&& r->Ok_0.pipeline.wf()
                &&& r->Ok_0.pipeline.zeroed()
                &&& r->Ok_0.pipeline.channel_count == m.channel_count
                &&& r->Ok_0.pipeline.eq.bass_used == old(self).eq_state.bass
                &&& r->Ok_0.pipeline.eq.treble_used == old(self).eq_state.treble
            },
    {
        match opened {
            None => Err(PlayerError::OpenFailed),
            Some(meta) => {
                let stop_first = !matches!(self.state, PlaybackState::Idle);
                let pipeline = Pipeline::new(meta.channel_count, self.eq_state);
                self.state = PlaybackState::Playing;
                self.current_path = Some(path);
                self.current_duration_ms = meta.duration_ms;
                self.current_channels = meta.channel_count;
                self.track_gen = self.track_gen + 1;
                Ok(LoadPlan { stop_first, pipeline })
            },
        }
    }

    /// Start or resume playback of the loaded session. With nothing loaded
    /// this reports the empty state instead of substituting any file.
    pub fn play(&mut self) -> (r: Result<(), PlayerError>)
        requires
            old(self).wf(),
        ensures
            final(self).wf(),
            old(self).state is Idle ==> {
                &&& r matches Err(e) && e == PlayerError::NoTrackLoaded
                &&& *final(self) == *old(self)
            },
            !(old(self).state is Idle) ==> {
                &&& r is Ok
                &&& final(self).state is Playing
                &&& final(self).same_session(*old(self))
            },
    {
        match self.state {
            PlaybackState::Idle => Err(PlayerError::NoTrackLoaded),
            _ => {
                self.state = PlaybackState::Playing;
                Ok(())
            },
        }
    }

    /// Halt the transport without touching pipeline or session state.
    pub fn pause(&mut self)
        requires
            old(self).wf(),
        ensures
            final(self).wf(),
            final(self).state == (if old(self).state is Playing {
                PlaybackState::Paused
            } else {
                old(self).state
            }),
            final(self).same_session(*old(self)),
    {
        if matches!(self.state, PlaybackState::Playing) {
            self.state = PlaybackState::Paused;
        }
    }

    /// Restart a paused transport; idle and playing sessions are unchanged.
    pub fn resume(&mut self)
        requires
            old(self).wf(),
        ensures
            final(self).wf(),
            final(self).state == (if old(self).state is Paused {
                PlaybackState::Playing
            } else {
                old(self).state
            }),
            final(self).same_session(*old(self)),
    {
        if matches!(self.state, PlaybackState::Paused) {
            self.state = PlaybackState::Playing;
        }
    }

    /// Discard the session: idle transport, no path, no duration. Equalizer
    /// setting, volume and the (now stale) display bins stay.
    pub fn stop(&mut self)
        requires
            old(self).wf(),
        ensures
            final(self).wf(),
            final(self).state is Idle,
            final(self).current_path is None,
            final(self).current_duration_ms is None,
            final(self).eq_state == old(self).eq_state,
            final(self).volume == old(self).volume,
            final(self).bins == old(self).bins,
            final(self).track_gen == old(self).track_gen,
    {
        self.state = PlaybackState::Idle;
        self.current_path = None;
        self.current_duration_ms = None;
    }

    /// Record the sink's output gain; independent of the equalizer.
    pub fn set_volume(&mut self, volume: i64)
        requires
            old(self).wf(),
            0 <= volume,
        ensures
            final(self).wf(),
            final(self).volume == volume,
            final(self).state == old(self).state,
            final(self).current_path == old(self).current_path,
            final(self).current_duration_ms == old(self).current_duration_ms,
            final(self).eq_state == old(self).eq_state,
            final(self).bins == old(self).bins,
            final(self).track_gen == old(self).track_gen,
    {
        self.volume = volume;
    }

    /// Whether the render path is currently consuming samples.
    pub fn is_playing(&self) -> (r: bool)
        ensures
            r == (self.state is Playing),
    {
        matches!(self.state, PlaybackState::Playing)
    }

    /// Adopt a new equalizer setting for the render path to pick up.
    pub fn set_eq(&mut self, bass: i64, treble: i64)
        requires
            old(self).wf(),
            gain_wf(bass as int),
            gain_wf(treble as int),
        ensures
            final(self).wf(),
            final(self).eq_state == (EqState { bass, treble }),
            final(self).state == old(self).state,
            final(self).current_path == old(self).current_path,
            final(self).current_duration_ms == old(self).current_duration_ms,
            final(self).volume == old(self).volume,
            final(self).bins == old(self).bins,
            final(self).track_gen == old(self).track_gen,
    {
        self.eq_state = EqState { bass, treble };
    }

    /// Seek to a fraction of the track. The skip target is exactly
    /// `floor(duration * fraction)` in milliseconds — the sample the decoder
    /// resumes at corresponds to that timestamp — and the plan's pipeline is
    /// fully zeroed: a seek is a deliberate discontinuity. Without a known
    /// duration the seek is unsupported and nothing changes; likewise with
    /// no track loaded.
    pub fn seek(&mut self, fraction: i64) -> (r: Result<SeekPlan, PlayerError>)
        requires
            old(self).wf(),
            0 <= fraction <= SCALE,
            old(self).track_gen < u64::MAX,
        ensures
            final(self).wf(),
            old(self).current_path is None || old(self).current_duration_ms is None ==> {
                &&& r matches Err(e) && e == PlayerError::UnknownDuration
                &&& *final(self) == *old(self)
            },
            (old(self).current_path is Some && old(self).current_duration_ms is Some) ==> {
                let d = old(self).current_duration_ms->Some_0;
                &&& r is Ok
                &&& r->Ok_0.skip_ms == (d as int * fraction as int) / (SCALE as int)
                &&& r->Ok_0.skip_ms <= d
                &&& r->Ok_0.pipeline.wf()
                &&& r->Ok_0.pipeline.zeroed()
                &&& r->Ok_0.pipeline.channel_count == old(self).current_channels
                &&& r->Ok_0.pipeline.eq.bass_used == old(self).eq_state.bass
                &&& r->Ok_0.pipeline.eq.treble_used == old(self).eq_state.treble
                &&& final(self).state is Playing
                &&& final(self).current_path == old(self).current_path
                &&& final(self).current_duration_ms == old(self).current_duration_ms
                &&& final(self).current_channels == old(self).current_channels
                &&& final(self).eq_state == old(self).eq_state
                &&& final(self).volume == old(self).volume
                &&& final(self).bins == old(self).bins
                &&& final(self).track_gen == old(self).track_gen + 1
            },
    {
        if self.current_path.is_none() || self.current_duration_ms.is_none() {
            return Err(PlayerError::UnknownDuration);
        }
        let d: u64 = *self.current_duration_ms.as_ref().unwrap();
        proof {
            assert(0 <= d as int * fraction as int <= d as int * SCALE as int) by (nonlinear_arith)
                requires
                    0 <= fraction as int <= SCALE as int,
                    0 <= d as int,
            ;
            assert(d as int * SCALE as int <= 0xffff_ffff_ffff_ffffu64 as int * 0x100_0000int) by (nonlinear_arith)
                requires
                    0 <= d as int <= 0xffff_ffff_ffff_ffffu64,
                    SCALE as int == 0x100_0000,
            ;
        }
        let wide: u128 = (d as u128) * (fraction as u128);
        let skip: u128 = wide / (SCALE as u128);
        proof {
            vstd::arithmetic::div_mod::lemma_div_is_ordered(
                d as int * fraction as int,
                d as int * SCALE as int,
                SCALE as int,
            );
            vstd::arithmetic::div_mod::lemma_div_multiples_vanish(d as int, SCALE as int);
            assert(d as int * SCALE as int == SCALE as int * d as int) by (nonlinear_arith);
            vstd::arithmetic::div_mod::lemma_div_pos_is_pos(d as int * fraction as int, SCALE as int);
            assert(d as int * fraction as int >= 0) by (nonlinear_arith)
                requires
                    0 <= fraction as int,
                    0 <= d as int,
            ;
        }
        let skip_ms: u64 = skip as u64;
        let pipeline = Pipeline::new(self.current_channels, self.eq_state);
        self.state = PlaybackState::Playing;
        self.track_gen = self.track_gen + 1;
        Ok(SeekPlan { skip_ms, pipeline })
    }

    /// Publish a completed window's magnitudes into the display bins (the
    /// render path's half of the visualization exchange). A failed analysis
    /// hands an empty set and leaves every bar stale but valid.
    pub fn store_bins(&mut self, mags: &Vec<i64>)
        requires
            old(self).wf(),
        ensures
            final(self).wf(),
            forall|i: int|
                0 <= i < BAR_COUNT ==> final(self).bins@[i] == (if 2 * i < mags.len() {
                    mags@[2 * i]
                } else {
                    old(self).bins@[i]
                }),
            final(self).state == old(self).state,
            final(self).current_path == old(self).current_path,
            final(self).current_duration_ms == old(self).current_duration_ms,
            final(self).eq_state == old(self).eq_state,
            final(self).volume == old(self).volume,
            final(self).track_gen == old(self).track_gen,
    {
        update_bins(&mut self.bins, mags);
    }

    /// The control path's snapshot of the display bins.
    pub fn bins_snapshot(&self) -> (r: Vec<i64>)
        requires
            self.wf(),
        ensures
            r@ == self.bins@,
    {
        let mut out: Vec<i64> = Vec::new();
        let mut i: usize = 0;
        while i < self.bins.len()
            invariant
                i <= self.bins.len(),
                out@ == self.bins@.subrange(0, i as int),
            decreases self.bins.len() - i,
        {
            let v = self.bins[i];
            out.push(v);
            proof {
                assert(out@ =~= self.bins@.subrange(0, i as int + 1));
            }
            i = i + 1;
        }
        proof {
            assert(self.bins@.subrange(0, self.bins.len() as int) =~= self.bins@);
        }
        out
    }
}

} // verus!
