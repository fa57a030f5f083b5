//! Closed-loop neural-signal processing engine.
//!
//! The crate ingests a stream of digitized samples, isolates frequency bands
//! with recursive filters, normalizes them with running statistics, detects
//! waveform events, and decides sample by sample whether a stimulation pulse
//! is due. All signal amplitudes are fixed-point integers in micro-units so
//! that every stage of the pipeline carries an exact arithmetic contract.

pub mod bandpass;
pub mod clock;
pub mod config;
pub mod convolve;
pub mod detector;
pub mod errors;
pub mod fixed;
pub mod laws;
pub mod logfmt;
pub mod processor;
pub mod pulse;
pub mod ring;
pub mod threshold;
pub mod trig;
pub mod visualization;
pub mod wave_peak;
pub mod snapshot;
pub mod stats;
