//! Signal-processing core of a small audio player: a two-band shelving
//! equalizer over fixed-point samples, a windowed spectrum stage, a playback
//! session state machine, and the widget logic of the control surface.
//!
//! Everything here works on plain integer values; the fixed-point encoding
//! (`fixed::SCALE` is one) keeps the whole signal path inside exact
//! arithmetic, so filters, cadence and session transitions all carry
//! machine-checked contracts. Decoding, the output device, the window and
//! the file dialog live outside and exchange plain values with this crate.

pub mod biquad;
pub mod eq;
pub mod fixed;
pub mod gui;
pub mod pipeline;
pub mod player;
pub mod spectrum;
pub mod widgets;
