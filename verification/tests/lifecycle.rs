use rusteze::lifecycle::{Action, Event, Lifecycle, Phase};
use rusteze::native_helper::{CaptureMode, HelperError, PermissionStatus};

fn status(microphone: &str, screen_recording: &str) -> PermissionStatus {
    PermissionStatus {
        microphone: microphone.to_string(),
        screen_recording: screen_recording.to_string(),
    }
}

/// Runs a lifecycle up to the point where it records.
fn recording(mode: CaptureMode) -> Lifecycle {
    let mut run = Lifecycle::new(mode);
    assert!(matches!(run.step(Event::Recovered(Ok(0))), Action::StartSession { notice: None }));
    assert!(matches!(
        run.step(Event::SessionStarted(Ok("/m/1-talk".to_string()))),
        Action::CheckSpace
    ));
    assert!(matches!(run.step(Event::SpaceChecked(Ok(()))), Action::CheckPermissions));
    assert!(matches!(
        run.step(Event::PermissionsChecked(Ok(status("granted", "granted")))),
        Action::StartCapture
    ));
    match run.step(Event::CaptureStarted(Ok(()))) {
        Action::InstallHandler { announcement } => {
            assert_eq!(announcement[0], "Recording session: /m/1-talk");
        }
        _ => panic!("expected the handler to be installed"),
    }
    assert!(matches!(run.step(Event::HandlerInstalled(Ok(()))), Action::Wait));
    assert!(matches!(run.phase, Phase::Recording));
    run
}

#[test]
fn a_clean_run_stops_and_completes_the_session() {
    let mut run = recording(CaptureMode::Both);
    assert!(matches!(run.step(Event::ShutdownRequested), Action::MarkStopping));
    assert!(matches!(run.phase, Phase::MarkingStopping));
    assert!(matches!(run.step(Event::StoppingMarked(Ok(()))), Action::StopCapture));
    assert!(matches!(run.step(Event::CaptureStopped(Ok(()))), Action::CompleteSession));
    match run.step(Event::SessionCompleted(Ok(()))) {
        Action::Finish { message } => assert_eq!(message, "Session completed: /m/1-talk"),
        _ => panic!("expected the run to finish"),
    }
}

#[test]
fn announces_the_recorded_sources() {
    let mut run = Lifecycle::new(CaptureMode::Microphone);
    run.step(Event::Recovered(Ok(2)));
    run.step(Event::SessionStarted(Ok("/m/2".to_string())));
    run.step(Event::SpaceChecked(Ok(())));
    run.step(Event::PermissionsChecked(Ok(status("granted", "not_required"))));
    match run.step(Event::CaptureStarted(Ok(()))) {
        Action::InstallHandler { announcement } => assert_eq!(
            announcement,
            vec![
                "Recording session: /m/2".to_string(),
                "Recording microphone only. Press Ctrl+C to stop safely.".to_string(),
            ]
        ),
        _ => panic!("expected the handler to be installed"),
    }
}

#[test]
fn reports_recovered_sessions_before_starting() {
    let mut run = Lifecycle::new(CaptureMode::System);
    match run.step(Event::Recovered(Ok(3))) {
        Action::StartSession { notice } => {
            assert_eq!(notice.as_deref(), Some("Recovered 3 interrupted session(s)."))
        }
        _ => panic!("expected the session to start"),
    }
}

#[test]
fn exits_without_a_session_when_it_cannot_be_created() {
    let mut run = Lifecycle::new(CaptureMode::System);
    run.step(Event::Recovered(Ok(0)));
    match run.step(Event::SessionStarted(Err("disk full".to_string()))) {
        Action::Exit { code, message } => {
            assert_eq!(code, 1);
            assert_eq!(message, "Could not start meeting session: disk full");
        }
        _ => panic!("expected an exit"),
    }
}

#[test]
fn fails_the_session_when_permissions_are_missing() {
    let mut run = Lifecycle::new(CaptureMode::Both);
    run.step(Event::Recovered(Ok(0)));
    run.step(Event::SessionStarted(Ok("/m/3".to_string())));
    run.step(Event::SpaceChecked(Ok(())));
    match run.step(Event::PermissionsChecked(Ok(status("missing", "missing")))) {
        Action::FailSession { stop_capture, reason, message, code } => {
            assert!(!stop_capture);
            assert_eq!(code, 77);
            assert_eq!(
                reason,
                "Microphone and Screen Recording permission is required. Open System Settings > Privacy & Security and grant it to Rusteze."
            );
            assert_eq!(message, reason);
        }
        _ => panic!("expected the session to fail"),
    }
}

#[test]
fn fails_the_session_when_the_disk_reserve_is_missing_or_runs_out() {
    let mut run = Lifecycle::new(CaptureMode::System);
    run.step(Event::Recovered(Ok(0)));
    run.step(Event::SessionStarted(Ok("/m/4".to_string())));
    match run.step(Event::SpaceChecked(Err("Only 5 bytes are free".to_string()))) {
        Action::FailSession { stop_capture, reason, code, .. } => {
            assert!(!stop_capture);
            assert_eq!(code, 1);
            assert_eq!(reason, "Not enough disk space to record safely: Only 5 bytes are free");
        }
        _ => panic!("expected the session to fail"),
    }

    let mut run = recording(CaptureMode::System);
    assert!(matches!(run.step(Event::SpaceLow("low".to_string())), Action::StopCapture));
    match run.step(Event::CaptureStopped(Err(HelperError::Backend("stuck".to_string())))) {
        Action::FailSession { stop_capture, reason, .. } => {
            assert!(!stop_capture);
            assert_eq!(
                reason,
                "Recording stopped before the disk reserve was exhausted: low The audio backend also failed to finalize: stuck"
            );
        }
        _ => panic!("expected the session to fail"),
    }
}

#[test]
fn stops_capture_before_failing_on_an_unhealthy_helper() {
    let mut run = recording(CaptureMode::System);
    let error = HelperError::Failed { status: Some(3), stderr: "gone".to_string() };
    match run.step(Event::HealthFailed(error)) {
        Action::FailSession { stop_capture, code, .. } => {
            assert!(stop_capture);
            assert_eq!(code, 1);
        }
        _ => panic!("expected the session to fail"),
    }
}

#[test]
fn passes_on_the_helper_exit_code_when_capture_cannot_start() {
    let mut run = Lifecycle::new(CaptureMode::System);
    run.step(Event::Recovered(Ok(0)));
    run.step(Event::SessionStarted(Ok("/m/5".to_string())));
    run.step(Event::SpaceChecked(Ok(())));
    run.step(Event::PermissionsChecked(Ok(status("not_required", "granted"))));
    let error = HelperError::Failed { status: Some(64), stderr: "usage".to_string() };
    match run.step(Event::CaptureStarted(Err(error))) {
        Action::FailSession { stop_capture, code, .. } => {
            assert!(!stop_capture);
            assert_eq!(code, 64);
        }
        _ => panic!("expected the session to fail"),
    }
}

#[test]
fn stops_capture_and_fails_when_stopping_cannot_be_recorded() {
    let mut run = recording(CaptureMode::System);
    assert!(matches!(run.step(Event::ShutdownRequested), Action::MarkStopping));
    match run.step(Event::StoppingMarked(Err("read-only".to_string()))) {
        Action::FailSession { stop_capture, reason, message, code } => {
            assert!(stop_capture);
            assert_eq!(code, 1);
            assert_eq!(reason, "Could not finalize session: read-only");
            assert_eq!(message, "Could not finalize meeting session: read-only");
        }
        _ => panic!("expected the session to fail"),
    }
}
