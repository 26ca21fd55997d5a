use rusteze::native_helper::{
    first_worker_error, interpret_permission_reply, parse_permission_status, permission_arguments,
    record_arguments, recording_started, stop_outcome, unexpected_exit, CaptureMode, HelperError,
    HelperExit, PermissionStatus,
};

#[test]
fn parses_a_permission_response_from_the_helper() {
    let result = parse_permission_status(
        "RESULT permission-status\nMICROPHONE granted\nSCREEN_RECORDING missing\n",
    )
    .unwrap();

    assert_eq!(result.microphone, "granted");
    assert_eq!(result.screen_recording, "missing");
    assert!(!result.is_ready_to_record(CaptureMode::Both));
    assert!(result.is_ready_to_record(CaptureMode::Microphone));
    assert!(result.guidance(CaptureMode::Both).contains("Screen Recording"));
}

#[test]
fn rejects_an_incomplete_helper_response() {
    assert!(parse_permission_status("RESULT permission-status\n").is_err());
}

#[test]
fn maps_capture_modes_to_helper_values_and_track_files() {
    assert_eq!(CaptureMode::System.as_str(), "system");
    assert_eq!(CaptureMode::Microphone.as_str(), "microphone");
    assert_eq!(CaptureMode::Both.as_str(), "both");
    assert_eq!(CaptureMode::System.output_files(), vec!["system.caf"]);
    assert_eq!(CaptureMode::Microphone.output_files(), vec!["mic.caf"]);
    assert_eq!(CaptureMode::Both.output_files(), vec!["system.caf", "mic.caf"]);
}

#[test]
fn passes_the_selected_mode_to_the_helper_record_command() {
    let arguments = record_arguments("/tmp/session", CaptureMode::Both);
    assert_eq!(arguments[0], "record");
    assert_eq!(arguments[1], "/tmp/session");
    assert_eq!(arguments[2], "both");
}

#[test]
fn permission_requirements_are_mode_specific() {
    let permissions = PermissionStatus {
        microphone: "missing".to_string(),
        screen_recording: "granted".to_string(),
    };

    assert!(permissions.is_ready_to_record(CaptureMode::System));
    assert!(!permissions.is_ready_to_record(CaptureMode::Microphone));
    assert!(!permissions.is_ready_to_record(CaptureMode::Both));
    assert!(permissions.guidance(CaptureMode::Microphone).contains("Microphone"));
    assert!(!permissions.guidance(CaptureMode::System).contains("Microphone"));
}

#[test]
fn guidance_names_every_missing_permission() {
    let permissions = PermissionStatus {
        microphone: "missing".to_string(),
        screen_recording: "denied".to_string(),
    };
    assert_eq!(
        permissions.guidance(CaptureMode::Both),
        "Microphone and Screen Recording permission is required. Open System Settings > Privacy & Security and grant it to Rusteze."
    );
}

#[test]
fn the_last_value_of_a_key_wins_and_other_lines_are_ignored() {
    let status = parse_permission_status(
        "noise\r\nRESULT permission-status\r\nMICROPHONE missing\nMICROPHONE granted\nSCREEN_RECORDING granted extra\nEXTRA 1",
    )
    .unwrap();
    assert_eq!(status.microphone, "granted");
    assert_eq!(status.screen_recording, "granted extra");
    match parse_permission_status("RESULT other\nMICROPHONE granted\nSCREEN_RECORDING granted\n") {
        Err(HelperError::InvalidResponse(text)) => {
            assert_eq!(text, "RESULT other\nMICROPHONE granted\nSCREEN_RECORDING granted\n")
        }
        other => panic!("unexpected {other:?}"),
    }
}

#[test]
fn helper_errors_have_messages_and_exit_codes() {
    let failed = HelperError::Failed { status: Some(77), stderr: "  denied \n".to_string() };
    assert_eq!(failed.exit_code(), 77);
    assert_eq!(failed.message(), "macOS helper exited with status 77: denied");
    let unknown = HelperError::Failed { status: None, stderr: String::new() };
    assert_eq!(unknown.exit_code(), 1);
    assert_eq!(unknown.message(), "macOS helper exited with status unknown: ");
    let negative = HelperError::Failed { status: Some(-3), stderr: "x".to_string() };
    assert_eq!(negative.message(), "macOS helper exited with status -3: x");
    assert_eq!(HelperError::Failed { status: Some(64), stderr: String::new() }.exit_code(), 64);
    assert_eq!(HelperError::Failed { status: Some(2), stderr: String::new() }.exit_code(), 1);
    assert_eq!(
        HelperError::Missing("/h".to_string()).message(),
        "Native macOS helper was not built at /h. Run macos-helper/build.sh first."
    );
    assert_eq!(
        HelperError::InvalidResponse("?".to_string()).message(),
        "macOS helper returned an invalid response: ?"
    );
    assert_eq!(HelperError::Launch("no".to_string()).message(), "Could not launch macOS helper: no");
    assert_eq!(HelperError::Backend("device".to_string()).message(), "device");
    assert_eq!(HelperError::Backend("device".to_string()).exit_code(), 1);
}

#[test]
fn interprets_helper_runs() {
    let failed = interpret_permission_reply(HelperExit {
        success: false,
        status: Some(3),
        stdout: String::new(),
        stderr: "boom".to_string(),
    });
    match failed {
        Err(HelperError::Failed { status, stderr }) => {
            assert_eq!(status, Some(3));
            assert_eq!(stderr, "boom");
        }
        other => panic!("unexpected {other:?}"),
    }
    let ok = interpret_permission_reply(HelperExit {
        success: true,
        status: Some(0),
        stdout: "RESULT permission-status\nMICROPHONE granted\nSCREEN_RECORDING granted\n".to_string(),
        stderr: String::new(),
    })
    .unwrap();
    assert!(ok.is_ready_to_record(CaptureMode::Both));
    assert_eq!(permission_arguments(true, CaptureMode::System), vec!["request-permissions", "system"]);
    assert_eq!(permission_arguments(false, CaptureMode::Both), vec!["check-permissions", "both"]);
}

#[test]
fn supervises_the_recording_helper() {
    assert!(recording_started("RESULT recording-started\n"));
    assert!(recording_started("  RESULT recording-started  "));
    assert!(!recording_started("RESULT error"));
    assert_eq!(
        unexpected_exit(Some(1)).message(),
        "macOS helper exited with status 1: Capture helper exited unexpectedly; audio already written was preserved."
    );
    assert!(stop_outcome(true, Some(0)).is_ok());
    assert_eq!(
        stop_outcome(false, Some(2)).unwrap_err().message(),
        "macOS helper exited with status 2: Capture helper stopped with an error."
    );
    assert!(first_worker_error(&[Ok(()), Ok(())]).is_ok());
    match first_worker_error(&[Ok(()), Err("first".to_string()), Err("second".to_string())]) {
        Err(HelperError::Backend(message)) => assert_eq!(message, "first"),
        other => panic!("unexpected {other:?}"),
    }
}
