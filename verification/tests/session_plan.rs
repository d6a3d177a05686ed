use waveview::session::{
    plan_stream, BufferSizing, CaptureError, DeviceConfig, SampleEncoding, StreamPlan,
    MAX_BUFFER_FRAMES, TARGET_SAMPLE_RATE_HZ,
};

fn device(encoding: SampleEncoding, buffer_range: Option<(u32, u32)>) -> DeviceConfig {
    DeviceConfig { channels: 2, encoding, buffer_range }
}

#[test]
fn missing_device_is_reported() {
    assert_eq!(plan_stream(None), Err(CaptureError::NoDevice));
}

#[test]
fn unknown_encoding_is_rejected() {
    assert_eq!(
        plan_stream(Some(device(SampleEncoding::Other, None))),
        Err(CaptureError::UnsupportedFormat)
    );
}

#[test]
fn sample_rate_is_forced_to_target() {
    let plan = plan_stream(Some(device(SampleEncoding::Float32, None))).unwrap();
    assert_eq!(plan.sample_rate_hz, TARGET_SAMPLE_RATE_HZ);
    assert_eq!(plan.sample_rate_hz, 48000);
    assert_eq!(plan.channels, 2);
    assert_eq!(plan.encoding, SampleEncoding::Float32);
}

#[test]
fn no_reported_range_uses_backend_default() {
    let plan = plan_stream(Some(device(SampleEncoding::SignedInt16, None))).unwrap();
    assert_eq!(plan.sizing, BufferSizing::BackendDefault);
}

#[test]
fn small_range_falls_back_to_backend_default() {
    // The capped size equals the reported maximum, so the backend decides.
    let plan = plan_stream(Some(device(SampleEncoding::Float32, Some((64, 4096))))).unwrap();
    assert_eq!(plan.sizing, BufferSizing::BackendDefault);
}

#[test]
fn huge_range_is_capped_at_the_ceiling() {
    let plan =
        plan_stream(Some(device(SampleEncoding::Float32, Some((64, 10_000_000))))).unwrap();
    assert_eq!(plan.sizing, BufferSizing::Fixed(MAX_BUFFER_FRAMES));
    assert_eq!(plan.sizing, BufferSizing::Fixed(4_194_304));
}

#[test]
fn minimum_above_ceiling_is_respected() {
    let plan =
        plan_stream(Some(device(SampleEncoding::Float32, Some((5_000_000, 6_000_000))))).unwrap();
    assert_eq!(plan.sizing, BufferSizing::Fixed(5_000_000));
}

#[test]
fn plan_keeps_device_fields() {
    let plan = plan_stream(Some(DeviceConfig {
        channels: 1,
        encoding: SampleEncoding::SignedInt16,
        buffer_range: Some((64, 10_000_000)),
    }))
    .unwrap();
    assert_eq!(
        plan,
        StreamPlan {
            channels: 1,
            sample_rate_hz: 48000,
            sizing: BufferSizing::Fixed(4_194_304),
            encoding: SampleEncoding::SignedInt16,
        }
    );
}
