use drone_detector::capture::{
    CaptureDevice, CaptureSession, ConfigError, ContainerSpec, ReadAction, ReadOutcome,
    SampleFormat,
};
use drone_detector::window::WindowAccumulator;

fn device() -> CaptureDevice {
    CaptureDevice::new("hw:0", 2, 48000, SampleFormat::S32LE).unwrap()
}

#[test]
fn accepts_signed_32_bit_formats() {
    let d = device();
    assert_eq!(d.device_name(), "hw:0");
    assert_eq!(d.channels(), 2);
    assert_eq!(d.samplerate(), 48000);
    assert_eq!(d.format(), SampleFormat::S32LE);
    assert!(CaptureDevice::new("hw:0", 1, 44100, SampleFormat::S32BE).is_ok());
}

#[test]
fn rejects_bad_configurations() {
    assert_eq!(
        CaptureDevice::new("hw:0", 2, 48000, SampleFormat::S16LE).err(),
        Some(ConfigError::UnsupportedFormat)
    );
    assert_eq!(
        CaptureDevice::new("hw:0", 2, 48000, SampleFormat::U32LE).err(),
        Some(ConfigError::UnsupportedFormat)
    );
    assert_eq!(
        CaptureDevice::new("hw:0", 0, 48000, SampleFormat::S32LE).err(),
        Some(ConfigError::NoChannels)
    );
    assert_eq!(
        CaptureDevice::new("hw:0", 70000, 48000, SampleFormat::S32LE).err(),
        Some(ConfigError::TooManyChannels)
    );
    assert_eq!(
        CaptureDevice::new("hw:0", 2, 0, SampleFormat::S32LE).err(),
        Some(ConfigError::ZeroRate)
    );
    assert_eq!(
        CaptureDevice::new("hw:0", 0, 0, SampleFormat::S24LE).err(),
        Some(ConfigError::UnsupportedFormat)
    );
}

#[test]
fn container_header_fields() {
    assert_eq!(
        device().container_spec(),
        ContainerSpec { channels: 2, sample_rate: 48000, bits_per_sample: 32 }
    );
}

#[test]
fn read_outcomes_map_to_actions() {
    let mut s = CaptureSession::new(&device(), 32768);
    assert_eq!(s.on_read(ReadOutcome::Frames(16384)), ReadAction::Deliver(32768));
    assert_eq!(s.on_read(ReadOutcome::Frames(0)), ReadAction::Deliver(0));
    assert_eq!(s.on_read(ReadOutcome::Failed(11)), ReadAction::Retry);
    assert_eq!(s.on_read(ReadOutcome::Failed(4)), ReadAction::Retry);
    assert_eq!(s.on_read(ReadOutcome::Failed(32)), ReadAction::Recover);
    assert!(!s.is_closed());
    assert_eq!(s.on_read(ReadOutcome::Frames(16385)), ReadAction::Fatal);
    assert!(s.is_closed());
    let mut t = CaptureSession::new(&device(), 32768);
    assert_eq!(t.on_read(ReadOutcome::Frames(usize::MAX)), ReadAction::Fatal);
}

#[test]
fn overrun_recovery_continues_the_stream() {
    let mut s = CaptureSession::new(&device(), 8);
    let mut acc = WindowAccumulator::new(4, 2);
    let mut windows = Vec::new();
    let reads: Vec<Result<Vec<i32>, i32>> = vec![
        Ok(vec![1, 2, 3, 4, 5, 6]),
        Err(32),
        Ok(vec![7, 8, 9, 10]),
        Ok(vec![11, 12, 13, 14, 15, 16]),
    ];
    for r in reads {
        assert!(s.poll(true));
        let outcome = match &r {
            Ok(v) => ReadOutcome::Frames(v.len() / 2),
            Err(e) => ReadOutcome::Failed(*e),
        };
        match s.on_read(outcome) {
            ReadAction::Deliver(n) => {
                let v = r.unwrap();
                windows.extend(acc.push_samples(&v[..n]));
            }
            ReadAction::Recover => assert!(s.on_recover(true)),
            other => panic!("unexpected action {other:?}"),
        }
    }
    assert!(!s.is_closed());
    assert_eq!(
        windows,
        vec![vec![1, 2, 3, 4, 5, 6, 7, 8], vec![9, 10, 11, 12, 13, 14, 15, 16]]
    );
}

#[test]
fn failed_recovery_ends_the_session() {
    let mut s = CaptureSession::new(&device(), 8);
    assert!(s.poll(true));
    assert_eq!(s.on_read(ReadOutcome::Failed(32)), ReadAction::Recover);
    assert!(!s.on_recover(false));
    assert!(s.is_closed());
    assert!(!s.poll(true));
}

#[test]
fn no_read_starts_after_stop() {
    let mut s = CaptureSession::new(&device(), 8);
    let mut reads = 0;
    let flags = [true, true, true, false, true, false, false];
    for &f in &flags {
        if s.poll(f) {
            reads += 1;
        }
    }
    assert_eq!(reads, 3);
    assert!(s.is_closed());
}

#[test]
fn container_round_trip_is_lossless() {
    let spec = device().container_spec();
    let samples: Vec<i32> = (0..1000i64)
        .map(|i| ((i * 2_654_435_761) % (1i64 << 32) - (1i64 << 31)) as i32)
        .chain([i32::MIN, i32::MAX, 0, -1])
        .collect();
    let mut bytes = Vec::new();
    {
        let mut writer = hound::WavWriter::new(
            std::io::Cursor::new(&mut bytes),
            hound::WavSpec {
                channels: spec.channels,
                sample_rate: spec.sample_rate,
                bits_per_sample: spec.bits_per_sample,
                sample_format: hound::SampleFormat::Int,
            },
        )
        .unwrap();
        for &s in &samples {
            writer.write_sample(s).unwrap();
        }
        writer.finalize().unwrap();
    }
    let mut reader = hound::WavReader::new(std::io::Cursor::new(bytes)).unwrap();
    assert_eq!(reader.spec().channels, 2);
    assert_eq!(reader.spec().bits_per_sample, 32);
    let back: Vec<i32> = reader.samples::<i32>().map(|s| s.unwrap()).collect();
    assert_eq!(back, samples);
}
