use reamp::biquad::{shelf_coeffs, Biquad};
use reamp::eq::{EqState, Equalizer, COS_HIGH, COS_LOW, SIN_HIGH, SIN_LOW};
use reamp::fixed::{div_trunc, isqrt, mul_fixed, sample_from_i16, sqrt_fixed, SCALE};
use reamp::pipeline::Pipeline;

fn sine_fixed(freq: f64, rate: f64, n: usize) -> Vec<i64> {
    let mut v = Vec::new();
    for i in 0..n {
        let x = (2.0 * std::f64::consts::PI * freq * (i as f64) / rate).sin();
        v.push((x * SCALE as f64).round() as i64);
    }
    v
}

fn rms(xs: &[i64]) -> f64 {
    let mut acc = 0.0f64;
    for &x in xs {
        let v = x as f64 / SCALE as f64;
        acc += v * v;
    }
    (acc / xs.len() as f64).sqrt()
}

/// Unity gain: a flat equalizer returns every sample bit-exactly.
#[test]
fn unity_gain_is_exact_identity() {
    let mut p = Pipeline::new(1, EqState::flat());
    let input = sine_fixed(440.0, 44100.0, 3000);
    for &x in &input {
        let (y, _) = p.process(x);
        assert_eq!(y, x);
    }
}

/// Unity gain on stereo as well, with a different tone per channel.
#[test]
fn unity_gain_stereo_identity() {
    let mut p = Pipeline::new(2, EqState::flat());
    let left = sine_fixed(100.0, 44100.0, 1000);
    let right = sine_fixed(997.0, 44100.0, 1000);
    for i in 0..1000 {
        let (yl, _) = p.process(left[i]);
        let (yr, _) = p.process(right[i]);
        assert_eq!(yl, left[i]);
        assert_eq!(yr, right[i]);
    }
}

/// The unity-gain shelf design collapses to a pass-through section, for
/// both shelves.
#[test]
fn unity_shelf_coefficients_are_passthrough() {
    let lc = shelf_coeffs(SCALE, COS_LOW, SIN_LOW, true);
    assert_eq!(lc.b0, SCALE);
    assert_eq!(lc.b1, lc.a1);
    assert_eq!(lc.b2, lc.a2);
    let hc = shelf_coeffs(SCALE, COS_HIGH, SIN_HIGH, false);
    assert_eq!(hc.b0, SCALE);
    assert_eq!(hc.b1, hc.a1);
    assert_eq!(hc.b2, hc.a2);
}

fn run_mono(bass: i64, treble: i64, input: &[i64]) -> Vec<i64> {
    let mut p = Pipeline::new(1, EqState { bass, treble });
    input.iter().map(|&x| p.process(x).0).collect()
}

/// Doubling the bass gain lifts a 100 Hz tone by the factor the shelf
/// design predicts at that frequency, within five percent.
#[test]
fn bass_shelf_gain_at_100hz_matches_design() {
    let input = sine_fixed(100.0, 44100.0, 2048);
    let out = run_mono(2 * SCALE, SCALE, &input);
    let measured = rms(&out) / rms(&input);

    // The shelf design evaluated in floating point, at 100 Hz.
    let a = 2.0f64.sqrt();
    let w0 = 2.0 * std::f64::consts::PI * 200.0 / 44100.0;
    let (cw, sw) = (w0.cos(), w0.sin());
    let alpha = sw / 2.0 * 2.0f64.sqrt();
    let b0 = a * ((a + 1.0) - (a - 1.0) * cw + 2.0 * a.sqrt() * alpha);
    let b1 = 2.0 * a * ((a - 1.0) - (a + 1.0) * cw);
    let b2 = a * ((a + 1.0) - (a - 1.0) * cw - 2.0 * a.sqrt() * alpha);
    let a0 = (a + 1.0) + (a - 1.0) * cw + 2.0 * a.sqrt() * alpha;
    let a1 = -2.0 * ((a - 1.0) + (a + 1.0) * cw);
    let a2 = (a + 1.0) + (a - 1.0) * cw - 2.0 * a.sqrt() * alpha;
    let w = 2.0 * std::f64::consts::PI * 100.0 / 44100.0;
    let nre = b0 + b1 * w.cos() + b2 * (2.0 * w).cos();
    let nim = b1 * w.sin() + b2 * (2.0 * w).sin();
    let dre = a0 + a1 * w.cos() + a2 * (2.0 * w).cos();
    let dim = a1 * w.sin() + a2 * (2.0 * w).sin();
    let expected = ((nre * nre + nim * nim) / (dre * dre + dim * dim)).sqrt();

    let rel = measured / expected - 1.0;
    assert!(
        rel.abs() < 0.05,
        "measured {} expected {} rel {}",
        measured,
        expected,
        rel
    );
}

/// Raising the bass gain through a 100 Hz tone strictly raises the output
/// amplitude; lowering it below one strictly lowers it.
#[test]
fn bass_gain_is_monotonic_in_passband() {
    let input = sine_fixed(100.0, 44100.0, 2048);
    let r_half = rms(&run_mono(SCALE / 2, SCALE, &input));
    let r_one = rms(&run_mono(SCALE, SCALE, &input));
    let r_three_half = rms(&run_mono(SCALE + SCALE / 2, SCALE, &input));
    let r_two = rms(&run_mono(2 * SCALE, SCALE, &input));
    assert!(r_half < r_one);
    assert!(r_one < r_three_half);
    assert!(r_three_half < r_two);
}

/// Distinct tones on left and right never leak across channels: each
/// channel of a stereo run equals its own mono run, sample for sample.
#[test]
fn channels_filter_independently() {
    let left = sine_fixed(100.0, 44100.0, 1500);
    let right = sine_fixed(5000.0, 44100.0, 1500);
    let bass = 2 * SCALE;
    let treble = SCALE / 2;
    let mono_left = run_mono(bass, treble, &left);
    let mono_right = run_mono(bass, treble, &right);
    let mut p = Pipeline::new(2, EqState { bass, treble });
    for i in 0..1500 {
        let (yl, _) = p.process(left[i]);
        let (yr, _) = p.process(right[i]);
        assert_eq!(yl, mono_left[i], "left channel diverged at {}", i);
        assert_eq!(yr, mono_right[i], "right channel diverged at {}", i);
    }
}

/// A silent channel stays silent whatever the other channel carries.
#[test]
fn silence_stays_silent_across_channels() {
    let left = sine_fixed(100.0, 44100.0, 1000);
    let mut p = Pipeline::new(2, EqState { bass: 2 * SCALE, treble: 2 * SCALE });
    for i in 0..1000 {
        let (_, _) = p.process(left[i]);
        let (yr, _) = p.process(0);
        assert_eq!(yr, 0);
    }
}

/// A gain change swaps coefficients lazily without touching delay state.
#[test]
fn gain_change_keeps_filter_history() {
    let mut eq = Equalizer::new(1, EqState::flat());
    let input = sine_fixed(440.0, 44100.0, 64);
    for &x in &input {
        eq.process(0, x);
    }
    let before = eq.channels[0];
    eq.set_gains(EqState { bass: 2 * SCALE, treble: SCALE / 2 });
    assert_eq!(eq.channels[0], before);
    assert_eq!(eq.bass_used, 2 * SCALE);
    assert_eq!(eq.treble_used, SCALE / 2);
}

/// A fresh section is at rest.
#[test]
fn biquad_starts_zeroed() {
    let b = Biquad::new();
    assert_eq!((b.x1, b.x2, b.y1, b.y2), (0, 0, 0, 0));
}

/// Exact values of the fixed-point primitives.
#[test]
fn fixed_point_primitives_exact() {
    assert_eq!(SCALE, 1 << 24);
    assert_eq!(isqrt(0), 0);
    assert_eq!(isqrt(15), 3);
    assert_eq!(isqrt(16), 4);
    assert_eq!(isqrt(u64::MAX), (1u64 << 32) - 1);
    assert_eq!(sqrt_fixed(SCALE), SCALE);
    assert_eq!(sqrt_fixed(4 * SCALE), 2 * SCALE);
    assert_eq!(mul_fixed(SCALE, SCALE), SCALE);
    assert_eq!(mul_fixed(3 * SCALE, SCALE / 2), SCALE + SCALE / 2);
    assert_eq!(mul_fixed(-2 * SCALE, SCALE / 2), -SCALE);
    assert_eq!(div_trunc(7, 2), 3);
    assert_eq!(div_trunc(-7, 2), -3);
    assert_eq!(sample_from_i16(0), 0);
    assert_eq!(sample_from_i16(-32768), -SCALE);
    assert_eq!(sample_from_i16(16384), SCALE / 2);
}
