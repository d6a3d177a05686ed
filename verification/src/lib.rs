//! A verified core for a live audio waveform visualizer.
//!
//! The library reduces a stream of interleaved stereo samples to a bounded
//! min/max envelope history and renders that history as an RGBA image.
//! Samples are canonical fixed-point values: an `i32` where
//! [`sample::SAMPLE_SCALE`] stands for full scale (1.0).

use vstd::prelude::*;

pub mod history;
pub mod pixels;
pub mod reduce;
pub mod render;
pub mod sample;
pub mod session;

verus! {

} // verus!
