use rusteze::transcription::{
    json, json_string, markdown, timestamp, Transcript, TranscriptSegment, TranscriptionEngine,
    TranscriptionError, UnconfiguredEngine,
};

#[test]
fn renders_timestamped_portable_transcript_formats() {
    let transcript = Transcript {
        engine: "test".to_string(),
        model: None,
        text: "Hello".to_string(),
        segments: vec![TranscriptSegment {
            start_milliseconds: 1_250,
            end_milliseconds: 3_000,
            text: "Hello".to_string(),
        }],
    };
    assert!(markdown(&transcript).contains("[00:01.250–00:03.000] Hello"));
    assert!(json(&transcript).contains("\"start_milliseconds\": 1250"));
}

#[test]
fn renders_complete_documents() {
    let transcript = Transcript {
        engine: "whisper".to_string(),
        model: Some("large \"v3\"".to_string()),
        text: "Hi\nthere".to_string(),
        segments: vec![
            TranscriptSegment { start_milliseconds: 0, end_milliseconds: 999, text: "Hi".to_string() },
            TranscriptSegment {
                start_milliseconds: 61_001,
                end_milliseconds: 6_000_000,
                text: "there".to_string(),
            },
        ],
    };
    assert_eq!(
        markdown(&transcript),
        "# Transcript\n\nEngine: whisper\n\n[00:00.000–00:00.999] Hi\n\n[01:01.001–100:00.000] there\n\n"
    );
    assert_eq!(
        json(&transcript),
        "{\n  \"engine\": \"whisper\",\n  \"model\": \"large \\\"v3\\\"\",\n  \"text\": \"Hi\\nthere\",\n  \"segments\": [\n    {\"start_milliseconds\": 0, \"end_milliseconds\": 999, \"text\": \"Hi\"},\n    {\"start_milliseconds\": 61001, \"end_milliseconds\": 6000000, \"text\": \"there\"}\n  ]\n}\n"
    );
}

#[test]
fn renders_a_transcript_without_segments() {
    let transcript = Transcript {
        engine: "e".to_string(),
        model: None,
        text: "Only text".to_string(),
        segments: Vec::new(),
    };
    assert_eq!(markdown(&transcript), "# Transcript\n\nEngine: e\n\nOnly text\n");
    assert_eq!(
        json(&transcript),
        "{\n  \"engine\": \"e\",\n  \"model\": null,\n  \"text\": \"Only text\",\n  \"segments\": [\n\n  ]\n}\n"
    );
}

#[test]
fn formats_timestamps_and_strings() {
    assert_eq!(timestamp(0), "00:00.000");
    assert_eq!(timestamp(59_999), "00:59.999");
    assert_eq!(timestamp(600_000), "10:00.000");
    assert_eq!(json_string("a\\b\"c\nd\te"), "\"a\\\\b\\\"c\\nd\te\"");
}

#[test]
fn the_placeholder_engine_reports_that_none_is_configured() {
    match UnconfiguredEngine.transcribe("/tmp/session") {
        Err(TranscriptionError::NoEngineConfigured) => {}
        other => panic!("unexpected {other:?}"),
    }
    assert_eq!(
        TranscriptionError::NoEngineConfigured.message(),
        "No local transcription engine is configured. Add an implementation of TranscriptionEngine first."
    );
    assert_eq!(TranscriptionError::Engine("x".to_string()).message(), "Transcription engine failed: x");
    assert_eq!(
        TranscriptionError::Storage("disk".to_string()).message(),
        "Could not write transcript files: disk"
    );
}
