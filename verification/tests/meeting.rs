use rusteze::meeting::{
    complete, create, ensure_recording_space, escape_json_string, fail, recover_session_json,
    session_directory_name, slugify, start, begin_stopping, MeetingSession, SessionState,
    MINIMUM_FREE_BYTES,
};
use rusteze::native_helper::{CaptureMode, TrackFormat};

fn session(
    id: &str,
    title: &str,
    state: SessionState,
    capture_mode: Option<CaptureMode>,
    ended: Option<u64>,
) -> MeetingSession {
    MeetingSession::from_parts(
        "/tmp/meeting".to_string(),
        id.to_string(),
        title.to_string(),
        state,
        capture_mode,
        100,
        ended,
        None,
    )
}

#[test]
fn makes_a_simple_folder_name_from_a_title() {
    assert_eq!(slugify("Rust Workshop: Week 1!"), "rust-workshop-week-1");
}

#[test]
fn uses_untitled_when_a_title_has_no_letters_or_numbers() {
    assert_eq!(slugify("!!!"), "untitled");
}

#[test]
fn slugs_collapse_separators_and_drop_non_ascii() {
    assert_eq!(slugify("  --Q3 / Planning--  "), "q3-planning");
    assert_eq!(slugify("Café Über"), "caf-ber");
    assert_eq!(slugify(""), "untitled");
    assert_eq!(slugify("ABC"), "abc");
}

#[test]
fn writes_lifecycle_fields_as_json() {
    let session = session(
        "123-demo",
        "A \"quoted\" meeting",
        SessionState::Completed,
        Some(CaptureMode::Both),
        Some(125),
    );
    let json = session.json(TrackFormat::Caf, false, false);
    let output_files = CaptureMode::Both.output_files();
    assert!(json.contains("\"state\": \"completed\""));
    assert!(json.contains("\"capture_mode\": \"both\""));
    assert!(json.contains(&format!("\"microphone_track\": \"{}\"", output_files[1])));
    assert!(json.contains(&format!("\"system_audio_track\": \"{}\"", output_files[0])));
    assert!(json.contains("\"duration_seconds\": 25"));
    assert!(json.contains("A \\\"quoted\\\" meeting"));
}

#[test]
fn metadata_lists_only_tracks_enabled_by_the_capture_mode() {
    let session = session(
        "123-system",
        "System audio",
        SessionState::Recording,
        Some(CaptureMode::System),
        None,
    );
    let json = session.json(TrackFormat::Caf, false, false);
    let system_file = CaptureMode::System.output_files()[0];
    assert!(json.contains("\"capture_mode\": \"system\""));
    assert!(json.contains("\"microphone_track\": null"));
    assert!(json.contains(&format!("\"system_audio_track\": \"{}\"", system_file)));
    assert!(!json.contains(CaptureMode::Microphone.output_files()[0]));
}

#[test]
fn renders_the_whole_metadata_document() {
    let mut s = MeetingSession::from_parts(
        "/m/1-x".to_string(),
        "1-x".to_string(),
        "Tab\there".to_string(),
        SessionState::Failed,
        Some(CaptureMode::Microphone),
        200,
        Some(150),
        Some("disk \\ full\n".to_string()),
    );
    assert_eq!(
        s.json(TrackFormat::Caf, false, true),
        "{\n  \"session_id\": \"1-x\",\n  \"title\": \"Tab\\there\",\n  \"state\": \"failed\",\n  \"capture_mode\": \"microphone\",\n  \"started_at_unix_seconds\": 200,\n  \"ended_at_unix_seconds\": 150,\n  \"duration_seconds\": 0,\n  \"recovery_reason\": \"disk \\\\ full\\n\",\n  \"microphone_track\": \"mic.caf\",\n  \"system_audio_track\": null,\n  \"mixed_audio_track\": \"mixed.wav\"\n}\n"
    );
    begin_stopping(&mut s);
    assert_eq!(s.state(), SessionState::Stopping);
    assert!(s.json(TrackFormat::Caf, true, true).contains("\"mixed_audio_track\": \"mixed.caf\""));
}

#[test]
fn idle_sessions_have_no_mode_or_tracks() {
    let s = create("Plan", 7, 1, "/m/7-plan".to_string());
    let json = s.json(TrackFormat::Caf, false, false);
    assert!(json.contains("\"state\": \"idle\""));
    assert!(json.contains("\"capture_mode\": null"));
    assert!(json.contains("\"microphone_track\": null"));
    assert!(json.contains("\"system_audio_track\": null"));
    assert!(json.contains("\"ended_at_unix_seconds\": null"));
    assert!(json.contains("\"duration_seconds\": null"));
    assert_eq!(s.folder(), "/m/7-plan");
    assert_eq!(s.id(), "7-plan");
}

#[test]
fn recovers_an_interrupted_recording_without_touching_completed_sessions() {
    let active = "{\n  \"state\": \"recording\",\n  \"ended_at_unix_seconds\": null,\n  \"recovery_reason\": null\n}";
    let recovered = recover_session_json(active, 42).unwrap();
    assert!(recovered.contains("\"state\": \"failed\""));
    assert!(recovered.contains("\"ended_at_unix_seconds\": 42"));
    assert!(recovered.contains("Audio already written was preserved"));
    assert!(recover_session_json("{\"state\": \"completed\"}", 42).is_none());
}

#[test]
fn recovery_of_what_the_library_writes() {
    let mut s = start("Sync", CaptureMode::Both, 5, 1, "/m/5-sync".to_string());
    let recording = s.json(TrackFormat::Caf, false, false);
    let recovered = recover_session_json(&recording, 9).unwrap();
    assert!(recovered.contains("\"state\": \"failed\""));
    assert!(!recovered.contains("\"state\": \"recording\""));
    assert!(recovered.contains("\"ended_at_unix_seconds\": 9,"));
    assert!(recovered.contains("\"recovery_reason\": \"Rusteze was interrupted before recording could finish. Audio already written was preserved.\""));
    begin_stopping(&mut s);
    assert!(recover_session_json(&s.json(TrackFormat::Caf, false, false), 9).is_some());
    complete(&mut s, 20);
    assert_eq!(s.state(), SessionState::Completed);
    assert!(s.json(TrackFormat::Caf, false, false).contains("\"duration_seconds\": 15"));
    assert!(recover_session_json(&s.json(TrackFormat::Caf, false, false), 30).is_none());
    let mut t = start("Again", CaptureMode::System, 6, 1, "/m/6".to_string());
    fail(&mut t, 8, "helper crashed");
    assert_eq!(t.state(), SessionState::Failed);
    let failed = t.json(TrackFormat::Caf, false, false);
    assert!(failed.contains("\"recovery_reason\": \"helper crashed\""));
    assert!(recover_session_json(&failed, 30).is_none());
}

#[test]
fn recovered_metadata_is_the_same_document_marked_failed() {
    let mut s = start("Plan", CaptureMode::Microphone, 70, 1, "/m/70-plan".to_string());
    begin_stopping(&mut s);
    let recovered = recover_session_json(&s.json(TrackFormat::Caf, true, false), 75).unwrap();
    assert_eq!(
        recovered,
        "{\n  \"session_id\": \"70-plan\",\n  \"title\": \"Plan\",\n  \"state\": \"failed\",\n  \"capture_mode\": \"microphone\",\n  \"started_at_unix_seconds\": 70,\n  \"ended_at_unix_seconds\": 75,\n  \"duration_seconds\": null,\n  \"recovery_reason\": \"Rusteze was interrupted before recording could finish. Audio already written was preserved.\",\n  \"microphone_track\": \"mic.caf\",\n  \"system_audio_track\": null,\n  \"mixed_audio_track\": \"mixed.caf\"\n}\n"
    );
    assert!(recover_session_json(&recovered, 80).is_none());
}

#[test]
fn recovery_ignores_a_title_that_looks_like_a_state() {
    let s = session(
        "1",
        "\"state\": \"recording\"",
        SessionState::Completed,
        None,
        Some(101),
    );
    assert!(recover_session_json(&s.json(TrackFormat::Caf, false, false), 5).is_none());
}

#[test]
fn escapes_json_control_characters() {
    assert_eq!(escape_json_string("a\"b\\c\nd\re\tf"), "a\\\"b\\\\c\\nd\\re\\tf");
    assert_eq!(escape_json_string("plain"), "plain");
}

#[test]
fn names_duplicate_session_folders() {
    assert_eq!(session_directory_name(1700, "demo", 1), "1700-demo");
    assert_eq!(session_directory_name(1700, "demo", 2), "1700-demo-2");
    assert_eq!(session_directory_name(0, "untitled", 10), "0-untitled-10");
}

#[test]
fn keeps_a_disk_space_reserve() {
    assert_eq!(MINIMUM_FREE_BYTES, 256 * 1024 * 1024);
    assert!(ensure_recording_space(MINIMUM_FREE_BYTES).is_ok());
    assert_eq!(
        ensure_recording_space(1024),
        Err("Only 1024 bytes are free; Rusteze keeps a 268435456-byte reserve while processing audio.".to_string())
    );
}

#[test]
fn metadata_names_wav_tracks_where_the_backend_writes_wav() {
    let s = session("9-w", "W", SessionState::Recording, Some(CaptureMode::Both), None);
    let json = s.json(TrackFormat::Wav, false, false);
    assert!(json.contains("\"microphone_track\": \"mic.wav\""));
    assert!(json.contains("\"system_audio_track\": \"system.wav\""));
    let mic_only = session("9-m", "M", SessionState::Recording, Some(CaptureMode::Microphone), None);
    let json = mic_only.json(TrackFormat::Wav, false, false);
    assert!(json.contains("\"microphone_track\": \"mic.wav\""));
    assert!(json.contains("\"system_audio_track\": null"));
    assert_eq!(CaptureMode::Both.output_files_in(TrackFormat::Wav), vec!["system.wav", "mic.wav"]);
}

#[test]
fn names_a_new_session_after_its_start_time_and_title() {
    let s = start("Rust Workshop: Week 1!", CaptureMode::System, 1700, 1, "/m/a".to_string());
    assert_eq!(s.id(), "1700-rust-workshop-week-1");
    let again = create("Rust Workshop: Week 1!", 1700, 3, "/m/b".to_string());
    assert_eq!(again.id(), "1700-rust-workshop-week-1-3");
    assert_eq!(again.state(), SessionState::Idle);
    assert_eq!(create("!!!", 5, 1, "/m/c".to_string()).id(), "5-untitled");
}

#[test]
fn slugifying_a_slug_gives_it_back() {
    for title in ["Rust Workshop: Week 1!", "!!!", "--a--b--", "ÄÖ 12"] {
        let slug = slugify(title);
        assert_eq!(slugify(&slug), slug);
    }
}
