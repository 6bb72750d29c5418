use reamp::eq::EqState;
use reamp::fixed::SCALE;
use reamp::pipeline::Pipeline;
use reamp::player::{AudioPlayer, PlaybackState, PlayerError, TrackMeta};
use reamp::spectrum::{update_bins, SpectrumWindow, BAR_COUNT, WINDOW};

fn assert_pipeline_zeroed(p: &Pipeline) {
    assert_eq!(p.frame_acc, 0);
    assert_eq!(p.frame_pos, 0);
    assert_eq!(p.window.total, 0);
    assert_eq!(p.window.buf.len(), 0);
    for ch in p.eq.channels.iter() {
        assert_eq!((ch.low.x1, ch.low.x2, ch.low.y1, ch.low.y2), (0, 0, 0, 0));
        assert_eq!((ch.high.x1, ch.high.x2, ch.high.y1, ch.high.y2), (0, 0, 0, 0));
    }
}

/// The window hands out a full batch exactly once per WINDOW samples and
/// is empty right afterward.
#[test]
fn spectrum_window_cadence() {
    let mut w = SpectrumWindow::new();
    for k in 1..=3 * WINDOW {
        let full = w.push(7);
        if k % WINDOW == 0 {
            let batch = full.expect("window must complete here");
            assert_eq!(batch.len(), WINDOW);
            assert_eq!(w.buf.len(), 0);
        } else {
            assert!(full.is_none());
            assert_eq!(w.buf.len(), k % WINDOW);
        }
    }
    assert_eq!(w.total as usize, 3 * WINDOW);
}

/// Through the whole pipeline: on mono input, one window completes per
/// 1024 processed samples, so 44100 samples yield 43 complete windows.
#[test]
fn pipeline_spectrum_cadence_per_second() {
    let mut p = Pipeline::new(1, EqState::flat());
    let mut windows = 0usize;
    for _ in 0..44100 {
        let (_, full) = p.process(1000);
        if full.is_some() {
            windows += 1;
        }
    }
    assert_eq!(windows, 43);
    assert_eq!(p.window.buf.len(), 44100 % WINDOW);
}

/// On stereo input the window consumes one downmixed sample per frame:
/// the channel average.
#[test]
fn stereo_downmix_averages_frame() {
    let mut p = Pipeline::new(2, EqState::flat());
    let mut emitted = None;
    for _ in 0..WINDOW {
        let (_, _) = p.process(1000);
        let (_, full) = p.process(3000);
        if full.is_some() {
            emitted = full;
        }
    }
    let batch = emitted.expect("one full window after WINDOW frames");
    assert_eq!(batch.len(), WINDOW);
    for &v in batch.iter() {
        assert_eq!(v, 2000);
    }
}

/// Under unity gain the completed window holds exactly the consumed
/// samples: the analysis sees what was played.
#[test]
fn window_holds_the_downmixed_stream() {
    let mut p = Pipeline::new(1, EqState::flat());
    let mut fed: Vec<i64> = Vec::new();
    let mut emitted: Option<Vec<i64>> = None;
    for k in 0..WINDOW {
        let x = (k as i64 % 2001) - 1000;
        fed.push(x);
        let (_, full) = p.process(x);
        if full.is_some() {
            emitted = full;
        }
    }
    assert_eq!(emitted.expect("window completes"), fed);
}

/// Display bins take every second magnitude; short inputs keep the stale
/// tail; an empty analysis changes nothing.
#[test]
fn bins_take_even_stride_and_stay_stale_on_failure() {
    let mut bins = vec![9i64; BAR_COUNT];
    let mags: Vec<i64> = (0..40).map(|i| i * 10).collect();
    update_bins(&mut bins, &mags);
    for i in 0..BAR_COUNT {
        assert_eq!(bins[i], (2 * i as i64) * 10);
    }
    let short: Vec<i64> = vec![5; 4];
    update_bins(&mut bins, &short);
    assert_eq!(bins[0], 5);
    assert_eq!(bins[1], 5);
    for i in 2..BAR_COUNT {
        assert_eq!(bins[i], (2 * i as i64) * 10);
    }
    let old = bins.clone();
    update_bins(&mut bins, &Vec::new());
    assert_eq!(bins, old);
}

/// A fresh player is idle, flat and silent.
#[test]
fn new_player_is_idle_and_flat() {
    let p = AudioPlayer::new();
    assert_eq!(p.state, PlaybackState::Idle);
    assert!(p.current_path.is_none());
    assert!(p.current_duration_ms.is_none());
    assert_eq!(p.eq_state, EqState { bass: SCALE, treble: SCALE });
    assert_eq!(p.volume, SCALE);
    assert_eq!(p.bins, vec![0i64; BAR_COUNT]);
    assert!(!p.is_playing());
}

/// Play with nothing loaded reports the empty state; nothing changes.
#[test]
fn play_without_track_is_an_error() {
    let mut p = AudioPlayer::new();
    assert_eq!(p.play(), Err(PlayerError::NoTrackLoaded));
    assert_eq!(p.state, PlaybackState::Idle);
}

/// A failed open leaves the whole session as it was.
#[test]
fn failed_open_changes_nothing() {
    let mut p = AudioPlayer::new();
    let r = p.play_file(String::from("missing.mp3"), None);
    assert!(matches!(r, Err(PlayerError::OpenFailed)));
    assert_eq!(p.state, PlaybackState::Idle);
    assert!(p.current_path.is_none());
}

/// A successful load starts playing a fresh, fully zeroed pipeline.
#[test]
fn load_starts_fresh_pipeline() {
    let mut p = AudioPlayer::new();
    let meta = TrackMeta { channel_count: 2, duration_ms: Some(60_000) };
    let plan = p
        .play_file(String::from("song.mp3"), Some(meta))
        .expect("load must succeed");
    assert!(!plan.stop_first);
    assert_pipeline_zeroed(&plan.pipeline);
    assert_eq!(plan.pipeline.channel_count, 2);
    assert_eq!(p.state, PlaybackState::Playing);
    assert_eq!(p.current_path.as_deref(), Some("song.mp3"));
    assert_eq!(p.current_duration_ms, Some(60_000));
    assert!(p.is_playing());
}

/// Loading over an active track stops the old output first and shares no
/// state with it: no overlap between the two tracks.
#[test]
fn reload_stops_active_output_first() {
    let mut p = AudioPlayer::new();
    let meta_a = TrackMeta { channel_count: 2, duration_ms: Some(30_000) };
    let plan_a = p.play_file(String::from("a.mp3"), Some(meta_a)).unwrap();
    assert!(!plan_a.stop_first);
    let gen_a = p.track_gen;

    // One second into playback, load another file.
    let meta_b = TrackMeta { channel_count: 2, duration_ms: Some(45_000) };
    let plan_b = p.play_file(String::from("b.mp3"), Some(meta_b)).unwrap();
    assert!(plan_b.stop_first, "an active track must be stopped before the new one starts");
    assert_pipeline_zeroed(&plan_b.pipeline);
    assert_eq!(p.track_gen, gen_a + 1);
    assert_eq!(p.current_path.as_deref(), Some("b.mp3"));
}

/// Pause and resume toggle the transport and keep the session.
#[test]
fn pause_resume_toggle_transport() {
    let mut p = AudioPlayer::new();
    let meta = TrackMeta { channel_count: 1, duration_ms: None };
    p.play_file(String::from("t.wav"), Some(meta)).unwrap();
    p.pause();
    assert_eq!(p.state, PlaybackState::Paused);
    assert!(!p.is_playing());
    p.resume();
    assert_eq!(p.state, PlaybackState::Playing);
    assert_eq!(p.current_path.as_deref(), Some("t.wav"));
}

/// Stop discards the session; a later play is an explicit error again.
#[test]
fn stop_discards_session() {
    let mut p = AudioPlayer::new();
    let meta = TrackMeta { channel_count: 1, duration_ms: Some(5000) };
    p.play_file(String::from("t.wav"), Some(meta)).unwrap();
    p.stop();
    assert_eq!(p.state, PlaybackState::Idle);
    assert!(p.current_path.is_none());
    assert!(p.current_duration_ms.is_none());
    assert_eq!(p.play(), Err(PlayerError::NoTrackLoaded));
}

/// Seek lands on exactly the floor of duration times fraction, with a
/// fully zeroed pipeline: the next sample corresponds to that timestamp.
#[test]
fn seek_computes_exact_target_and_resets_state() {
    let mut p = AudioPlayer::new();
    let meta = TrackMeta { channel_count: 2, duration_ms: Some(10_000) };
    p.play_file(String::from("t.flac"), Some(meta)).unwrap();
    let plan = p.seek(SCALE / 2).expect("seek with known duration succeeds");
    assert_eq!(plan.skip_ms, 5_000);
    assert_pipeline_zeroed(&plan.pipeline);
    assert_eq!(plan.pipeline.channel_count, 2);
    assert_eq!(p.state, PlaybackState::Playing);

    let quarter = p.seek(SCALE / 4).unwrap();
    assert_eq!(quarter.skip_ms, 2_500);
    let full = p.seek(SCALE).unwrap();
    assert_eq!(full.skip_ms, 10_000);
    let zero = p.seek(0).unwrap();
    assert_eq!(zero.skip_ms, 0);
}

/// Seek without a known duration is unsupported and changes nothing.
#[test]
fn seek_without_duration_is_unsupported() {
    let mut p = AudioPlayer::new();
    let meta = TrackMeta { channel_count: 1, duration_ms: None };
    p.play_file(String::from("stream.ogg"), Some(meta)).unwrap();
    let gen = p.track_gen;
    assert!(matches!(p.seek(SCALE / 2), Err(PlayerError::UnknownDuration)));
    assert_eq!(p.track_gen, gen);
    assert_eq!(p.state, PlaybackState::Playing);
}

/// Volume and equalizer settings are stored as given.
#[test]
fn volume_and_eq_are_stored() {
    let mut p = AudioPlayer::new();
    p.set_volume(SCALE / 4);
    assert_eq!(p.volume, SCALE / 4);
    p.set_eq(2 * SCALE, SCALE / 2);
    assert_eq!(p.eq_state, EqState { bass: 2 * SCALE, treble: SCALE / 2 });
}

/// The render path's bins reach the control path's snapshot.
#[test]
fn stored_bins_reach_snapshot() {
    let mut p = AudioPlayer::new();
    let mags: Vec<i64> = (0..40).collect();
    p.store_bins(&mags);
    let snap = p.bins_snapshot();
    for i in 0..BAR_COUNT {
        assert_eq!(snap[i], 2 * i as i64);
    }
}
