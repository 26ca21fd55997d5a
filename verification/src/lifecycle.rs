//! The decisions of the foreground recording lifecycle (`rusteze start`): what
//! to do after each outcome of the outside work, from crash recovery to a
//! completed or failed session.
use vstd::prelude::*;
use crate::native_helper::{
    error_exit_code, error_message, guidance_text, microphone_missing, missing_permissions,
    screen_recording_missing, CaptureMode, HelperError, PermissionStatus,
};
use crate::text::{chars_of, contains, decimal, join, occurs_at, push_decimal, push_str, string_of};

verus! {

/// Where the foreground lifecycle is.
pub enum Phase {
    /// Interrupted sessions are being recovered.
    Recovering,
    /// The session folder and metadata are being created.
    StartingSession,
    /// The disk-space reserve is being checked before capture.
    CheckingSpace,
    /// The capture backend's permissions are being checked.
    CheckingPermissions,
    /// The capture backend is starting.
    StartingCapture,
    /// The Ctrl+C handler is being installed.
    InstallingHandler,
    /// Audio is being recorded.
    Recording,
    /// The session is being marked stopping after Ctrl+C.
    MarkingStopping,
    /// Capture is being stopped because the disk reserve ran out.
    StoppingForSpace { reason: String },
    /// Capture is being stopped after Ctrl+C, the session marked stopping.
    Stopping,
    /// The session metadata is being finalized.
    Completing,
    /// Nothing more happens.
    Done,
}

/// The outcome of the outside work the last action asked for.
pub enum Event {
    /// Interrupted sessions were recovered (how many), or could not be checked.
    Recovered(Result<u64, String>),
    /// The session was created in this folder, or could not be.
    SessionStarted(Result<String, String>),
    /// The disk-space reserve holds, or not (why).
    SpaceChecked(Result<(), String>),
    /// What the backend reported about permissions.
    PermissionsChecked(Result<PermissionStatus, HelperError>),
    /// Whether capture started.
    CaptureStarted(Result<(), HelperError>),
    /// Whether the Ctrl+C handler was installed.
    HandlerInstalled(Result<(), String>),
    /// Ctrl+C was pressed.
    ShutdownRequested,
    /// A periodic check found the capture unhealthy.
    HealthFailed(HelperError),
    /// A periodic check found the disk reserve exhausted (why).
    SpaceLow(String),
    /// The shutdown signal channel closed.
    SignalChannelClosed,
    /// The session was marked stopping, or that failed (why).
    StoppingMarked(Result<(), String>),
    /// Capture stopped, finalizing its files or not.
    CaptureStopped(Result<(), HelperError>),
    /// The session was marked completed, or that failed (why).
    SessionCompleted(Result<(), String>),
}

/// What the caller must do next.
pub enum Action {
    /// Create the session, after printing the notice, if any, to standard error.
    StartSession { notice: Option<String> },
    /// Check the disk-space reserve of the session folder.
    CheckSpace,
    /// Ask the backend for the permissions the mode needs.
    CheckPermissions,
    /// Start capturing.
    StartCapture,
    /// Print these lines, then install the Ctrl+C handler.
    InstallHandler { announcement: Vec<String> },
    /// Wait for Ctrl+C while checking health and disk space.
    Wait,
    /// Mark the session stopping and save its metadata.
    MarkStopping,
    /// Ask the backend to stop and finalize its files.
    StopCapture,
    /// Mark the session completed, with its end time, and save its metadata.
    CompleteSession,
    /// Print the message and end the process with the code; no session exists.
    Exit { code: i32, message: String },
    /// Stop capture first if asked (ignoring how that goes), mark the session
    /// failed with `reason`, print `message`, and end the process with `code`.
    FailSession { stop_capture: bool, reason: String, message: String, code: i32 },
    /// Print the message: the session completed.
    Finish { message: String },
}

/// The lifecycle of one `start` command.
pub struct Lifecycle {
    pub mode: CaptureMode,
    pub folder: String,
    pub phase: Phase,
}

/// The phases in which a session exists.
pub open spec fn session_exists(p: Phase) -> bool {
    !(p is Recovering || p is StartingSession)
}

/// The event is one the phase waits for.
pub open spec fn expects(p: Phase, e: Event) -> bool {
    match p {
        Phase::Recovering => e is Recovered,
        Phase::StartingSession => e is SessionStarted,
        Phase::CheckingSpace => e is SpaceChecked,
        Phase::CheckingPermissions => e is PermissionsChecked,
        Phase::StartingCapture => e is CaptureStarted,
        Phase::InstallingHandler => e is HandlerInstalled,
        Phase::Recording => e is ShutdownRequested || e is HealthFailed || e is SpaceLow
            || e is SignalChannelClosed,
        Phase::MarkingStopping => e is StoppingMarked,
        Phase::StoppingForSpace { .. } => e is CaptureStopped,
        Phase::Stopping => e is CaptureStopped,
        Phase::Completing => e is SessionCompleted,
        Phase::Done => false,
    }
}

/// How the recording of each mode is announced.
pub open spec fn mode_description(mode: CaptureMode) -> Seq<char> {
    match mode {
        CaptureMode::System => "system audio only"@,
        CaptureMode::Microphone => "microphone only"@,
        CaptureMode::Both => "microphone and system audio"@,
    }
}

/// Whether the status allows recording in the mode.
pub open spec fn ready(status: PermissionStatus, mode: CaptureMode) -> bool {
    !microphone_missing(status, mode) && !screen_recording_missing(status, mode)
}

/// The action for an event, by the rules of the foreground lifecycle.
pub open spec fn action_fits(
    mode: CaptureMode,
    folder: Seq<char>,
    p: Phase,
    e: Event,
    next: Phase,
    a: Action,
) -> bool {
    match (p, e) {
        (Phase::Recovering, Event::Recovered(Ok(n))) => next is StartingSession && (a matches Action::StartSession { notice } && if n > 0 {
            notice matches Some(t) && t@ == "Recovered "@ + decimal(n as nat) + " interrupted session(s)."@
        } else {
            notice is None
        }),
        (Phase::Recovering, Event::Recovered(Err(m))) => next is Done && (a matches Action::Exit { code, message }
            && code == 1 && message@ == "Could not check for interrupted sessions: "@ + m@),
        (Phase::StartingSession, Event::SessionStarted(Ok(_))) => next is CheckingSpace && a is CheckSpace,
        (Phase::StartingSession, Event::SessionStarted(Err(m))) => next is Done && (a matches Action::Exit {
            code,
            message,
        } && code == 1 && message@ == "Could not start meeting session: "@ + m@),
        (Phase::CheckingSpace, Event::SpaceChecked(Ok(()))) => next is CheckingPermissions && a is CheckPermissions,
        (Phase::CheckingSpace, Event::SpaceChecked(Err(m))) => next is Done && (a matches Action::FailSession {
            stop_capture,
            reason,
            message,
            code,
        } && !stop_capture && code == 1 && reason@ == "Not enough disk space to record safely: "@ + m@
            && message@ == reason@),
        (Phase::CheckingPermissions, Event::PermissionsChecked(Ok(status))) => if ready(status, mode) {
            next is StartingCapture && a is StartCapture
        } else {
            next is Done && (a matches Action::FailSession { stop_capture, reason, message, code } && !stop_capture
                && code == 77 && reason@ == guidance_text(missing_permissions(status, mode))
                && message@ == reason@)
        },
        (Phase::CheckingPermissions, Event::PermissionsChecked(Err(err))) => next is Done && (a matches Action::FailSession {
            stop_capture,
            reason,
            message,
            code,
        } && !stop_capture && code == error_exit_code(err) && reason@ == error_message(err) && message@
            == reason@),
        (Phase::StartingCapture, Event::CaptureStarted(Ok(()))) => next is InstallingHandler && (a matches Action::InstallHandler {
            announcement,
        } && announcement@.len() == 2 && announcement@[0]@ == "Recording session: "@ + folder
            && announcement@[1]@ == "Recording "@ + mode_description(mode) + ". Press Ctrl+C to stop safely."@),
        (Phase::StartingCapture, Event::CaptureStarted(Err(err))) => next is Done && (a matches Action::FailSession {
            stop_capture,
            reason,
            message,
            code,
        } && !stop_capture && code == error_exit_code(err) && reason@ == error_message(err) && message@
            == reason@),
        (Phase::InstallingHandler, Event::HandlerInstalled(Ok(()))) => next is Recording && a is Wait,
        (Phase::InstallingHandler, Event::HandlerInstalled(Err(m))) => next is Done && (a matches Action::FailSession {
            stop_capture,
            reason,
            message,
            code,
        } && stop_capture && code == 1 && reason@ == "Could not install Ctrl+C handler"@ && message@
            == "Could not listen for Ctrl+C: "@ + m@),
        (Phase::Recording, Event::ShutdownRequested) => next is MarkingStopping && a is MarkStopping,
        (Phase::MarkingStopping, Event::StoppingMarked(Ok(()))) => next is Stopping && a is StopCapture,
        (Phase::MarkingStopping, Event::StoppingMarked(Err(m))) => next is Done && (a matches Action::FailSession {
            stop_capture,
            reason,
            message,
            code,
        } && stop_capture && code == 1 && reason@ == "Could not finalize session: "@ + m@ && message@
            == "Could not finalize meeting session: "@ + m@),
        (Phase::Recording, Event::HealthFailed(err)) => next is Done && (a matches Action::FailSession {
            stop_capture,
            reason,
            message,
            code,
        } && stop_capture && code == 1 && reason@ == error_message(err) && message@ == reason@),
        (Phase::Recording, Event::SpaceLow(m)) => (next matches Phase::StoppingForSpace { reason } && reason@
            == "Recording stopped before the disk reserve was exhausted: "@ + m@) && a is StopCapture,
        (Phase::Recording, Event::SignalChannelClosed) => next is Done && (a matches Action::FailSession {
            stop_capture,
            reason,
            message,
            code,
        } && !stop_capture && code == 1 && reason@ == "Shutdown signal channel closed unexpectedly"@
            && message@ == reason@),
        (Phase::StoppingForSpace { reason: why }, Event::CaptureStopped(r)) => next is Done && (a matches Action::FailSession {
            stop_capture,
            reason,
            message,
            code,
        } && !stop_capture && code == 1 && message@ == reason@ && reason@ == match r {
            Ok(()) => why@,
            Err(err) => why@ + " The audio backend also failed to finalize: "@ + error_message(err),
        }),
        (Phase::Stopping, Event::CaptureStopped(Ok(()))) => next is Completing && a is CompleteSession,
        (Phase::Stopping, Event::CaptureStopped(Err(err))) => next is Done && (a matches Action::FailSession {
            stop_capture,
            reason,
            message,
            code,
        } && !stop_capture && code == 1 && reason@ == "Could not finalize audio files: "@ + error_message(err)
            && message@ == reason@),
        (Phase::Completing, Event::SessionCompleted(Ok(()))) => next is Done && (a matches Action::Finish {
            message,
        } && message@ == "Session completed: "@ + folder),
        (Phase::Completing, Event::SessionCompleted(Err(m))) => next is Done && (a matches Action::FailSession {
            stop_capture,
            reason,
            message,
            code,
        } && !stop_capture && code == 1 && reason@ == "Could not finalize session: "@ + m@ && message@
            == "Could not finalize meeting session: "@ + m@),
        _ => false,
    }
}

fn joined(a: &str, b: &str) -> (s: String)
    ensures
        s@ == a@ + b@,
{
    let mut s = String::new();
    push_str(&mut s, a);
    push_str(&mut s, b);
    assert(s@ =~= a@ + b@);
    s
}

fn copied(a: &str) -> (s: String)
    ensures
        s@ == a@,
{
    let c = chars_of(a);
    string_of(c.as_slice())
}

fn fail_with(reason: String) -> (a: Action)
    ensures
        a matches Action::FailSession { stop_capture, reason: r, message, code } && !stop_capture && code == 1
            && r@ == reason@ && message@ == reason@,
{
    let message = copied(reason.as_str());
    Action::FailSession { stop_capture: false, reason, message, code: 1 }
}

impl Lifecycle {
    /// A lifecycle that starts by recovering interrupted sessions.
    pub fn new(mode: CaptureMode) -> (l: Lifecycle)
        ensures
            l.mode == mode,
            l.phase is Recovering,
    {
        Lifecycle { mode, folder: String::new(), phase: Phase::Recovering }
    }

    /// The next action for the outcome of the last one. Once the session
    /// exists, the run only ends by completing it or by recording its failure.
    pub fn step(&mut self, event: Event) -> (action: Action)
        requires
            expects(old(self).phase, event),
        ensures
            final(self).mode == old(self).mode,
            old(self).phase is StartingSession ==> (event matches Event::SessionStarted(Ok(f)) ==> final(self).folder@ == f@),
            !(old(self).phase is StartingSession) ==> final(self).folder == old(self).folder,
            action_fits(old(self).mode, final(self).folder@, old(self).phase, event, final(self).phase, action),
            session_exists(old(self).phase) ==> !(action is Exit),
    {
        let mode = self.mode;
        let mut phase = Phase::Done;
        std::mem::swap(&mut phase, &mut self.phase);
        match phase {
            Phase::Recovering => match event {
                Event::Recovered(Ok(n)) => {
                    self.phase = Phase::StartingSession;
                    let notice = if n > 0 {
                        let mut t = String::new();
                        push_str(&mut t, "Recovered ");
                        push_decimal(&mut t, n);
                        push_str(&mut t, " interrupted session(s).");
                        assert(t@ =~= "Recovered "@ + decimal(n as nat) + " interrupted session(s)."@);
                        Some(t)
                    } else {
                        None
                    };
                    Action::StartSession { notice }
                },
                Event::Recovered(Err(m)) => Action::Exit {
                    code: 1,
                    message: joined("Could not check for interrupted sessions: ", m.as_str()),
                },
                _ => Action::Wait,
            },
            Phase::StartingSession => match event {
                Event::SessionStarted(Ok(folder)) => {
                    self.folder = folder;
                    self.phase = Phase::CheckingSpace;
                    Action::CheckSpace
                },
                Event::SessionStarted(Err(m)) => Action::Exit {
                    code: 1,
                    message: joined("Could not start meeting session: ", m.as_str()),
                },
                _ => Action::Wait,
            },
            Phase::CheckingSpace => match event {
                Event::SpaceChecked(Ok(())) => {
                    self.phase = Phase::CheckingPermissions;
                    Action::CheckPermissions
                },
                Event::SpaceChecked(Err(m)) => fail_with(
                    joined("Not enough disk space to record safely: ", m.as_str()),
                ),
                _ => Action::Wait,
            },
            Phase::CheckingPermissions => match event {
                Event::PermissionsChecked(Ok(status)) => {
                    if status.is_ready_to_record(mode) {
                        self.phase = Phase::StartingCapture;
                        Action::StartCapture
                    } else {
                        let reason = status.guidance(mode);
                        let message = copied(reason.as_str());
                        Action::FailSession { stop_capture: false, reason, message, code: 77 }
                    }
                },
                Event::PermissionsChecked(Err(err)) => {
                    let reason = err.message();
                    let message = copied(reason.as_str());
                    Action::FailSession { stop_capture: false, reason, message, code: err.exit_code() }
                },
                _ => Action::Wait,
            },
            Phase::StartingCapture => match event {
                Event::CaptureStarted(Ok(())) => {
                    self.phase = Phase::InstallingHandler;
                    let mut announcement: Vec<String> = Vec::new();
                    announcement.push(joined("Recording session: ", self.folder.as_str()));
                    let description = match mode {
                        CaptureMode::System => "system audio only",
                        CaptureMode::Microphone => "microphone only",
                        CaptureMode::Both => "microphone and system audio",
                    };
                    let mut line = joined("Recording ", description);
                    push_str(&mut line, ". Press Ctrl+C to stop safely.");
                    announcement.push(line);
                    Action::InstallHandler { announcement }
                },
                Event::CaptureStarted(Err(err)) => {
                    let reason = err.message();
                    let message = copied(reason.as_str());
                    Action::FailSession { stop_capture: false, reason, message, code: err.exit_code() }
                },
                _ => Action::Wait,
            },
            Phase::InstallingHandler => match event {
                Event::HandlerInstalled(Ok(())) => {
                    self.phase = Phase::Recording;
                    Action::Wait
                },
                Event::HandlerInstalled(Err(m)) => Action::FailSession {
                    stop_capture: true,
                    reason: copied("Could not install Ctrl+C handler"),
                    message: joined("Could not listen for Ctrl+C: ", m.as_str()),
                    code: 1,
                },
                _ => Action::Wait,
            },
            Phase::Recording => match event {
                Event::ShutdownRequested => {
                    self.phase = Phase::MarkingStopping;
                    Action::MarkStopping
                },
                Event::HealthFailed(err) => {
                    let reason = err.message();
                    let message = copied(reason.as_str());
                    Action::FailSession { stop_capture: true, reason, message, code: 1 }
                },
                Event::SpaceLow(m) => {
                    self.phase = Phase::StoppingForSpace {
                        reason: joined(
                            "Recording stopped before the disk reserve was exhausted: ",
                            m.as_str(),
                        ),
                    };
                    Action::StopCapture
                },
                Event::SignalChannelClosed => fail_with(
                    copied("Shutdown signal channel closed unexpectedly"),
                ),
                _ => Action::Wait,
            },
            Phase::StoppingForSpace { reason } => match event {
                Event::CaptureStopped(Ok(())) => fail_with(reason),
                Event::CaptureStopped(Err(err)) => {
                    let mut full = reason;
                    push_str(&mut full, " The audio backend also failed to finalize: ");
                    let detail = err.message();
                    push_str(&mut full, detail.as_str());
                    fail_with(full)
                },
                _ => Action::Wait,
            },
            Phase::MarkingStopping => match event {
                Event::StoppingMarked(Ok(())) => {
                    self.phase = Phase::Stopping;
                    Action::StopCapture
                },
                Event::StoppingMarked(Err(m)) => Action::FailSession {
                    stop_capture: true,
                    reason: joined("Could not finalize session: ", m.as_str()),
                    message: joined("Could not finalize meeting session: ", m.as_str()),
                    code: 1,
                },
                _ => Action::Wait,
            },
            Phase::Stopping => match event {
                Event::CaptureStopped(Ok(())) => {
                    self.phase = Phase::Completing;
                    Action::CompleteSession
                },
                Event::CaptureStopped(Err(err)) => {
                    let detail = err.message();
                    fail_with(joined("Could not finalize audio files: ", detail.as_str()))
                },
                _ => Action::Wait,
            },
            Phase::Completing => match event {
                Event::SessionCompleted(Ok(())) => Action::Finish {
                    message: joined("Session completed: ", self.folder.as_str()),
                },
                Event::SessionCompleted(Err(m)) => Action::FailSession {
                    stop_capture: false,
                    reason: joined("Could not finalize session: ", m.as_str()),
                    message: joined("Could not finalize meeting session: ", m.as_str()),
                    code: 1,
                },
                _ => Action::Wait,
            },
            Phase::Done => Action::Wait,
        }
    }
}

/// The order of a recording run: capture starts only once the permissions the mode
/// needs are granted, the permissions are checked only once the disk-space reserve
/// holds, and the space is checked only once the session exists; Ctrl+C while
/// recording first marks the session stopping, capture is told to stop only once
/// that was recorded, the session is completed only once capture stopped
/// cleanly, and the run finishes only once the session was completed.
pub proof fn lemma_lifecycle_order(
    mode: CaptureMode,
    folder: Seq<char>,
    p: Phase,
    e: Event,
    next: Phase,
    a: Action,
)
    requires
        action_fits(mode, folder, p, e, next, a),
    ensures
        a is StartCapture ==> p is CheckingPermissions && (e matches Event::PermissionsChecked(
            Ok(status),
        ) && ready(status, mode)),
        next is CheckingPermissions ==> p is CheckingSpace && e matches Event::SpaceChecked(Ok(())),
        next is CheckingSpace ==> p is StartingSession && e matches Event::SessionStarted(Ok(_)),
        (p is Recording && e is ShutdownRequested) ==> a is MarkStopping && next is MarkingStopping,
        next is Stopping ==> p is MarkingStopping && e matches Event::StoppingMarked(Ok(())),
        (a is StopCapture && !(next is StoppingForSpace)) ==> p is MarkingStopping && next is Stopping,
        a is CompleteSession ==> p is Stopping && e matches Event::CaptureStopped(Ok(())),
        a is Finish ==> p is Completing && e matches Event::SessionCompleted(Ok(())),
{
}

/// The setup advice for missing permissions, by what is missing.
pub open spec fn advice(microphone: bool, screen_recording: bool) -> Seq<char> {
    (if microphone && screen_recording {
        "Microphone and Screen Recording"@
    } else if microphone {
        "Microphone"@
    } else {
        "Screen Recording"@
    }) + " permission is required. Open System Settings > Privacy & Security and grant it to Rusteze."@
}

/// The permission gate: after the permission check, capture starts exactly when
/// the status reports `granted` for every permission the mode needs (the
/// microphone for microphone or combined capture, Screen Recording for system or
/// combined capture); otherwise the run ends with exit code 77 and advice naming
/// each missing permission, the microphone first, and capture is never started.
pub proof fn lemma_permission_gate(
    mode: CaptureMode,
    folder: Seq<char>,
    status: PermissionStatus,
    next: Phase,
    a: Action,
)
    requires
        action_fits(mode, folder, Phase::CheckingPermissions, Event::PermissionsChecked(Ok(status)), next, a),
    ensures
        ({
            let mic_missing = (mode is Microphone || mode is Both) && status.microphone@ != "granted"@;
            let screen_missing = (mode is System || mode is Both) && status.screen_recording@
                != "granted"@;
            &&& a is StartCapture <==> !mic_missing && !screen_missing
            &&& a is StartCapture ==> next is StartingCapture
            &&& !(a is StartCapture) ==> next is Done && (a matches Action::FailSession {
                stop_capture,
                reason,
                message,
                code,
            } && !stop_capture && code == 77 && message@ == reason@ && reason@ == advice(
                mic_missing,
                screen_missing,
            ))
        }),
{
    let mic_missing = (mode is Microphone || mode is Both) && status.microphone@ != "granted"@;
    let screen_missing = (mode is System || mode is Both) && status.screen_recording@ != "granted"@;
    if !(a is StartCapture) {
        reveal_strlit("Microphone");
        reveal_strlit("Screen Recording");
        reveal_strlit(" and ");
        reveal_strlit("Microphone and Screen Recording");
        let missing = missing_permissions(status, mode);
        if mic_missing && screen_missing {
            assert(missing =~= seq!["Microphone"@, "Screen Recording"@]);
            assert(missing.drop_last() =~= seq!["Microphone"@]);
            assert(join(missing, " and "@) == join(missing.drop_last(), " and "@) + " and "@
                + "Screen Recording"@);
            assert(join(missing, " and "@) =~= "Microphone and Screen Recording"@);
        } else if mic_missing {
            assert(missing =~= seq!["Microphone"@]);
        } else {
            assert(missing =~= seq!["Screen Recording"@]);
        }
    }
}

/// Once capture has started, the announcement names exactly the sources being
/// recorded: it mentions the microphone exactly when the mode records the
/// microphone, and system audio exactly when it records system audio.
pub proof fn lemma_announcement_names_sources(mode: CaptureMode, folder: Seq<char>, next: Phase, a: Action)
    requires
        action_fits(mode, folder, Phase::StartingCapture, Event::CaptureStarted(Ok(())), next, a),
    ensures
        a matches Action::InstallHandler { announcement } && announcement@.len() == 2
            && announcement@[1]@ == "Recording "@ + mode_description(mode)
            + ". Press Ctrl+C to stop safely."@,
        contains(mode_description(mode), "microphone"@) <==> (mode is Microphone || mode is Both),
        contains(mode_description(mode), "system audio"@) <==> (mode is System || mode is Both),
{
    reveal_strlit("system audio only");
    reveal_strlit("microphone only");
    reveal_strlit("microphone and system audio");
    reveal_strlit("microphone");
    reveal_strlit("system audio");
    let d = mode_description(mode);
    let mic = "microphone"@;
    let sys = "system audio"@;
    match mode {
        CaptureMode::System => {
            assert(d.subrange(0, 12) =~= sys);
            assert(occurs_at(d, sys, 0));
            if contains(d, mic) {
                let k = choose|k: int| occurs_at(d, mic, k);
                assert(d.subrange(k, k + 10)[0] == 'm');
                assert(d.subrange(k, k + 10)[1] == 'i');
                assert(d[k] == 'm' && d[k + 1] == 'i');
            }
        },
        CaptureMode::Microphone => {
            assert(d.subrange(0, 10) =~= mic);
            assert(occurs_at(d, mic, 0));
            if contains(d, sys) {
                let k = choose|k: int| occurs_at(d, sys, k);
                assert(d.subrange(k, k + 12)[0] == 's');
                assert(d.subrange(k, k + 12)[1] == 'y');
                assert(d[k] == 's' && d[k + 1] == 'y');
            }
        },
        CaptureMode::Both => {
            assert(d.subrange(0, 10) =~= mic);
            assert(occurs_at(d, mic, 0));
            assert(d.subrange(15, 27) =~= sys);
            assert(occurs_at(d, sys, 15));
        },
    }
}

} // verus!
