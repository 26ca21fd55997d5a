use rusteze::linux::{
    buffer_range, capture_end, negotiated_format, CaptureFormat as LinuxFormat, TrackWriter,
    WriterAction, WriterEvent,
};
use rusteze::native_helper::{CaptureMode, HelperError};
use rusteze::prepare_audio::{
    afconvert_arguments, afconvert_failure, default_output_name, default_output_path, output_path,
    preflight,
};
use rusteze::unsupported;
use rusteze::windows::{
    check_permissions, decode_samples, fits_buffer, pcm_sample, read_capture_format, CaptureFormat,
    SampleKind,
};

#[test]
fn preserves_negotiated_rate_and_channels() {
    let format = LinuxFormat { sample_rate: 44_100, channels: 1 };
    assert_eq!(format.sample_rate, 44_100);
    assert_eq!(format.channels, 1);
}

#[test]
fn windows_converts_float_samples_to_pcm16() {
    let bytes = 0.5f32.to_le_bytes();
    let format = CaptureFormat {
        sample_rate: 48_000,
        channels: 1,
        block_align: 4,
        bytes_per_sample: 4,
        bits_per_sample: 32,
        kind: SampleKind::Float,
    };
    let samples = decode_samples(&bytes, 1, format);
    assert_eq!(samples[0], 16_383);
}

#[test]
fn decodes_interleaved_integer_frames() {
    let format = CaptureFormat {
        sample_rate: 44_100,
        channels: 2,
        block_align: 6,
        bytes_per_sample: 3,
        bits_per_sample: 24,
        kind: SampleKind::Pcm,
    };
    let bytes = [0x00, 0x34, 0x12, 0xff, 0xff, 0xff, 0x00, 0x00, 0x80, 0x01, 0x00, 0x00];
    assert_eq!(decode_samples(&bytes, 2, format), vec![0x1234, -1, -32768, 0]);
}

#[test]
fn converts_integer_pcm_widths() {
    assert_eq!(pcm_sample(&[0], 8), -32768);
    assert_eq!(pcm_sample(&[128], 8), 0);
    assert_eq!(pcm_sample(&[255], 8), 32512);
    assert_eq!(pcm_sample(&[0x34, 0x12], 16), 0x1234);
    assert_eq!(pcm_sample(&[0x00, 0x80], 16), -32768);
    assert_eq!(pcm_sample(&[0xff, 0xff, 0x7f], 24), 32767);
    assert_eq!(pcm_sample(&[1, 2, 3, 0x80], 32), i16::MIN + 3);
    assert_eq!(pcm_sample(&[1, 2, 3, 4], 12), 0);
}

fn waveformat(tag: u16, channels: u16, rate: u32, block: u16, bits: u16, extra: u16) -> Vec<u8> {
    let mut b = Vec::new();
    b.extend_from_slice(&tag.to_le_bytes());
    b.extend_from_slice(&channels.to_le_bytes());
    b.extend_from_slice(&rate.to_le_bytes());
    b.extend_from_slice(&(rate * u32::from(block)).to_le_bytes());
    b.extend_from_slice(&block.to_le_bytes());
    b.extend_from_slice(&bits.to_le_bytes());
    b.extend_from_slice(&extra.to_le_bytes());
    b
}

#[test]
fn reads_endpoint_formats() {
    let pcm = read_capture_format(&waveformat(1, 2, 48_000, 4, 16, 0)).unwrap();
    assert_eq!(
        pcm,
        CaptureFormat {
            sample_rate: 48_000,
            channels: 2,
            block_align: 4,
            bytes_per_sample: 2,
            bits_per_sample: 16,
            kind: SampleKind::Pcm,
        }
    );
    let mut extensible = waveformat(0xfffe, 2, 48_000, 8, 32, 22);
    extensible.extend_from_slice(&[32, 0, 3, 0, 0, 0]);
    extensible.extend_from_slice(&[
        0x03, 0x00, 0x00, 0x00, 0x00, 0x00, 0x10, 0x00, 0x80, 0x00, 0x00, 0xaa, 0x00, 0x38, 0x9b,
        0x71,
    ]);
    assert_eq!(read_capture_format(&extensible).unwrap().kind, SampleKind::Float);
    extensible[24] = 0x01;
    assert_eq!(read_capture_format(&extensible).unwrap().kind, SampleKind::Pcm);
    extensible[30] = 0x11;
    assert_eq!(
        read_capture_format(&extensible),
        Err("Unsupported Windows extensible audio subformat.".to_string())
    );
    assert_eq!(
        read_capture_format(&waveformat(2, 1, 8_000, 2, 16, 0)),
        Err("Unsupported Windows audio format tag 2.".to_string())
    );
    assert_eq!(
        read_capture_format(&waveformat(0xfffe, 1, 8_000, 2, 16, 0)),
        Err("Unsupported Windows audio format tag 65534.".to_string())
    );
    assert_eq!(
        read_capture_format(&waveformat(1, 0, 8_000, 2, 16, 0)),
        Err("Windows audio endpoint returned an unsupported format.".to_string())
    );
    assert_eq!(
        read_capture_format(&[]),
        Err("Windows audio endpoint returned no format.".to_string())
    );
}

#[test]
fn probing_decides_the_permission_status() {
    let status = check_permissions(CaptureMode::System, Ok(())).unwrap();
    assert_eq!(status.microphone, "not_required");
    assert_eq!(status.screen_recording, "granted");
    match check_permissions(CaptureMode::Both, Err("no microphone".to_string())) {
        Err(HelperError::Backend(message)) => assert_eq!(message, "no microphone"),
        other => panic!("unexpected {other:?}"),
    }
    let linux = rusteze::linux::request_permissions(CaptureMode::Microphone, Ok(())).unwrap();
    assert_eq!(linux.microphone, "granted");
    assert_eq!(linux.screen_recording, "not_required");
}

#[test]
fn other_platforms_refuse_capture() {
    match unsupported::check_permissions(CaptureMode::Both) {
        Err(HelperError::Backend(message)) => assert_eq!(
            message,
            "Rusteze capture is currently supported only on macOS and Windows."
        ),
        other => panic!("unexpected {other:?}"),
    }
    assert!(unsupported::request_permissions(CaptureMode::System).is_err());
    assert!(unsupported::start_capture("/tmp", CaptureMode::System).is_err());
    let mut process = unsupported::CaptureProcess;
    assert!(process.check_health().is_ok());
    assert!(process.stop().is_ok());
}

#[test]
fn pipewire_decisions() {
    assert_eq!(negotiated_format(true, true, "F32LE", 48_000, 2), Ok(LinuxFormat { sample_rate: 48_000, channels: 2 }));
    assert_eq!(
        negotiated_format(true, false, "S16LE", 48_000, 2),
        Err("PipeWire negotiated unsupported audio format: S16LE".to_string())
    );
    assert_eq!(
        negotiated_format(false, true, "F32LE", 48_000, 2),
        Err("PipeWire returned a non-raw audio format".to_string())
    );
    assert_eq!(
        negotiated_format(true, true, "F32LE", 0, 2),
        Err("PipeWire negotiated an invalid audio format".to_string())
    );
    assert_eq!(buffer_range(4, 8, 16), Ok((4, 12)));
    assert!(buffer_range(4, 13, 16).is_err());
    assert!(buffer_range(usize::MAX, 1, 16).is_err());
    assert!(capture_end(true).is_ok());
    assert_eq!(capture_end(false), Err("Linux PipeWire capture stopped unexpectedly".to_string()));
}

#[test]
fn the_track_writer_waits_for_the_format() {
    let mut writer = TrackWriter::new();
    match writer.step(WriterEvent::Frames(vec![0; 4])) {
        WriterAction::Fail(message) => assert_eq!(message, "PipeWire delivered audio before format negotiation"),
        _ => panic!("expected a failure"),
    }
    let format = LinuxFormat { sample_rate: 48_000, channels: 1 };
    assert!(matches!(writer.step(WriterEvent::Format(format)), WriterAction::Create(f) if f == format));
    assert!(matches!(writer.step(WriterEvent::Format(format)), WriterAction::Ignore));
    match writer.step(WriterEvent::Frames(0.5f32.to_le_bytes().to_vec())) {
        WriterAction::Write(samples) => assert_eq!(samples, vec![16_383]),
        _ => panic!("expected samples"),
    }
    assert!(matches!(writer.step(WriterEvent::Frames(vec![1, 2])), WriterAction::Fail(_)));
    assert!(matches!(writer.step(WriterEvent::Closed), WriterAction::Finish));
    let mut early = TrackWriter::new();
    match early.step(WriterEvent::Closed) {
        WriterAction::Fail(message) => assert_eq!(message, "PipeWire stream ended before format negotiation"),
        _ => panic!("expected a failure"),
    }
}

#[test]
fn defaults_to_a_speech_optimized_wav_next_to_input() {
    assert_eq!(default_output_path("/tmp/system.caf"), "/tmp/system-16k-mono.wav");
}

#[test]
fn prepares_audio_paths_and_checks() {
    assert_eq!(output_path("/a/b.caf", None), "/a/b-16k-mono.wav");
    assert_eq!(output_path("/a/b.caf", Some("/c/d.wav")), "/c/d.wav");
    assert_eq!(default_output_path("/tmp/.hidden"), "/tmp/.hidden-16k-mono.wav");
    assert_eq!(default_output_path("/"), "/audio-16k-mono.wav");
    assert_eq!(default_output_name(Some("talk")), "talk-16k-mono.wav");
    assert_eq!(default_output_name(None), "audio-16k-mono.wav");
    assert_eq!(
        preflight("/in", false, "/out", false, None),
        Err("Input audio file does not exist: /in".to_string())
    );
    assert_eq!(
        preflight("/in", true, "/out", true, None),
        Err("Refusing to overwrite existing output file: /out".to_string())
    );
    assert_eq!(
        preflight("/in", true, "/x/out", false, Some("/x")),
        Err("Output directory does not exist: /x".to_string())
    );
    assert!(preflight("/in", true, "/out", false, None).is_ok());
    assert_eq!(
        afconvert_arguments("/in.caf", "/out.wav"),
        vec!["-f", "WAVE", "-d", "LEI16@16000", "-c", "1", "/in.caf", "/out.wav"]
    );
    assert_eq!(afconvert_failure("exit status: 1", "  \n"), "afconvert failed with status exit status: 1");
    assert_eq!(afconvert_failure("exit status: 1", " bad file\n"), "afconvert failed: bad file");
}

#[test]
fn checks_that_a_packet_holds_its_frames() {
    let stereo24 = CaptureFormat {
        sample_rate: 44_100,
        channels: 2,
        block_align: 6,
        bytes_per_sample: 3,
        bits_per_sample: 24,
        kind: SampleKind::Pcm,
    };
    assert!(fits_buffer(stereo24, 2, 12));
    assert!(!fits_buffer(stereo24, 2, 11));
    assert!(fits_buffer(stereo24, 0, 0));
    let narrow_float = CaptureFormat { bytes_per_sample: 2, bits_per_sample: 16, kind: SampleKind::Float, ..stereo24 };
    assert!(!fits_buffer(narrow_float, 1, 64));
    assert!(!fits_buffer(stereo24, usize::MAX, usize::MAX));
}

#[test]
fn names_the_default_output_after_the_input_stem() {
    assert_eq!(default_output_path("system.caf"), "system-16k-mono.wav");
    assert_eq!(default_output_path("talk.v2.caf"), "talk.v2-16k-mono.wav");
    assert_eq!(default_output_path(".hidden"), ".hidden-16k-mono.wav");
    assert_eq!(default_output_path("notes"), "notes-16k-mono.wav");
    assert_eq!(output_path("a/b/c.caf", None), "a/b/c-16k-mono.wav");
}
