//! Slaughter: a polyphonic software-synthesizer core.
//!
//! The engine turns note-on/note-off events plus control parameters into
//! per-voice state, sample-accurately, with bounded per-callback latency.
//! All continuous quantities (envelope levels, fractional notes, parameter
//! mappings, the cosine table) are held in fixed-point integers so that the
//! whole signal-control path can be stated and proved exactly; the thin
//! audio-device and file edges live outside this crate.

pub mod envelope;
pub mod helpers;
pub mod parameters;
pub mod rng;
pub mod sample_player;
pub mod slaughter;
pub mod state_variable_filter;
pub mod synth_device;
pub mod trig;
