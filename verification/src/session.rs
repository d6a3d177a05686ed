//! Capture-session decisions and the per-buffer pipeline step.
//!
//! The session's I/O — opening the default input device, building and
//! starting the stream — lives outside the library. What is decided here:
//! how a stream is configured from what the device reports, which sample
//! encodings are accepted, and what one delivered buffer does to the
//! reducer and the shared history.

use vstd::prelude::*;
use crate::history::History;
use crate::history::trimmed;
use crate::reduce::CHUNK_SIZE;
use crate::reduce::Reducer;
use crate::reduce::chunk_pairs;
use crate::reduce::leftover;

verus! {

/// The sample rate every stream is forced to, in hertz.
pub const TARGET_SAMPLE_RATE_HZ: u32 = 48000;

/// Hard ceiling on the requested buffer size, in frames.
pub const MAX_BUFFER_FRAMES: u32 = 4194304;

/// A sample encoding the device may report.
#[derive(Clone, Copy, PartialEq, Eq, Structural, Debug)]
pub enum SampleEncoding {
    /// 16-bit signed integer samples.
    SignedInt16,
    /// 32-bit floating-point samples.
    Float32,
    /// Any other encoding; not supported.
    Other,
}

/// The buffer sizing to request from the audio backend.
#[derive(Clone, Copy, PartialEq, Eq, Structural, Debug)]
pub enum BufferSizing {
    /// Request a fixed buffer of this many frames.
    Fixed(u32),
    /// Fall back to the backend's default sizing.
    BackendDefault,
}

/// Why a capture session could not be started.
#[derive(Clone, Copy, PartialEq, Eq, Structural, Debug)]
pub enum CaptureError {
    /// No input device is present.
    NoDevice,
    /// The device's sample encoding is not one of the supported kinds.
    UnsupportedFormat,
}

/// What the default input device reports about itself.
#[derive(Clone, Copy, Debug)]
pub struct DeviceConfig {
    /// Number of interleaved channels.
    pub channels: u16,
    /// The device's sample encoding.
    pub encoding: SampleEncoding,
    /// The reported buffer size range in frames, smallest and largest,
    /// if the device reports one.
    pub buffer_range: Option<(u32, u32)>,
}

/// The stream configuration to request from the audio backend.
#[derive(Clone, Copy, PartialEq, Eq, Structural, Debug)]
pub struct StreamPlan {
    /// Number of interleaved channels, taken from the device.
    pub channels: u16,
    /// The forced sample rate in hertz.
    pub sample_rate_hz: u32,
    /// The buffer sizing to request.
    pub sizing: BufferSizing,
    /// The accepted sample encoding, taken from the device.
    pub encoding: SampleEncoding,
}

/// The buffer sizing chosen from a reported range: the largest size not
/// exceeding [`MAX_BUFFER_FRAMES`], raised to the reported minimum if it
/// falls below it, and the backend default where the chosen size would
/// meet or exceed the reported maximum or no range is reported.
pub open spec fn chosen_sizing(range: Option<(u32, u32)>) -> BufferSizing {
    match range {
        Some((mn, mx)) => {
            let size = if mx < MAX_BUFFER_FRAMES {
                mx
            } else {
                MAX_BUFFER_FRAMES
            };
            if size < mn {
                BufferSizing::Fixed(mn)
            } else if size >= mx {
                BufferSizing::BackendDefault
            } else {
                BufferSizing::Fixed(size)
            }
        },
        None => BufferSizing::BackendDefault,
    }
}

/// Decide the stream configuration for the reported default input device.
///
/// Fails with [`CaptureError::NoDevice`] when no device is present and with
/// [`CaptureError::UnsupportedFormat`] when the device's encoding is
/// neither 16-bit signed integer nor 32-bit float. Otherwise the plan keeps
/// the device's channel count and encoding, forces the target sample rate,
/// and sizes the buffer by [`chosen_sizing`].
pub fn plan_stream(device: Option<DeviceConfig>) -> (r: Result<StreamPlan, CaptureError>)
    ensures
        device is None <==> r == Result::<StreamPlan, CaptureError>::Err(CaptureError::NoDevice),
        device is Some && device.unwrap().encoding is Other <==> r == Result::<
            StreamPlan,
            CaptureError,
        >::Err(CaptureError::UnsupportedFormat),
        r is Ok <==> device is Some && !(device.unwrap().encoding is Other),
        r is Ok ==> r.unwrap() == (StreamPlan {
            channels: device.unwrap().channels,
            sample_rate_hz: TARGET_SAMPLE_RATE_HZ,
            sizing: chosen_sizing(device.unwrap().buffer_range),
            encoding: device.unwrap().encoding,
        }),
{
    match device {
        None => Err(CaptureError::NoDevice),
        Some(cfg) => {
            match cfg.encoding {
                SampleEncoding::Other => Err(CaptureError::UnsupportedFormat),
                _ => {
                    let sizing = match cfg.buffer_range {
                        Some((mn, mx)) => {
                            let size = if mx < MAX_BUFFER_FRAMES {
                                mx
                            } else {
                                MAX_BUFFER_FRAMES
                            };
                            if size < mn {
                                BufferSizing::Fixed(mn)
                            } else if size >= mx {
                                BufferSizing::BackendDefault
                            } else {
                                BufferSizing::Fixed(size)
                            }
                        },
                        None => BufferSizing::BackendDefault,
                    };
                    Ok(
                        StreamPlan {
                            channels: cfg.channels,
                            sample_rate_hz: TARGET_SAMPLE_RATE_HZ,
                            sizing,
                            encoding: cfg.encoding,
                        },
                    )
                },
            }
        },
    }
}

/// Run one delivered buffer of canonical samples through the pipeline:
/// reduce it to envelope pairs and append them to the history under the
/// caller's single lock acquisition, trimming if the cap is exceeded.
pub fn handle_buffer(reducer: &mut Reducer, history: &mut History, input: &Vec<i32>)
    requires
        old(reducer).wf(),
        old(history).wf(),
        old(reducer).carry_view().len() + input@.len() <= usize::MAX,
        old(history).entries_view().len() + ((old(reducer).carry_view().len() + input@.len()) as int)
            / (CHUNK_SIZE as int) <= usize::MAX,
    ensures
        final(reducer).wf(),
        final(history).wf(),
        final(reducer).negate_left_flag() == old(reducer).negate_left_flag(),
        final(reducer).carry_view() == leftover(old(reducer).carry_view() + input@),
        final(history).cap() == old(history).cap(),
        final(history).target() == old(history).target(),
        final(history).entries_view() == trimmed(
            old(history).entries_view(),
            chunk_pairs(old(reducer).carry_view() + input@, old(reducer).negate_left_flag()),
            old(history).cap(),
            old(history).target(),
        ),
{
    let pairs = reducer.process(input);
    history.append_and_trim(&pairs);
}

} // verus!
