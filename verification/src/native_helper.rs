//! The capture-backend boundary: capture modes, permission status, the
//! native helper's line protocol, and backend errors.
use vstd::prelude::*;
use crate::text::{
    chars_eq, chars_of, find_char, join, lines, push_chars, push_str, range_eq, signed_decimal,
    signed_decimal_string, split_lines, split_once, str_eq, string_of, sub_chars, trim, trim_chars,
};

verus! {

/// Which audio sources a session records.
#[derive(Clone, Copy, Debug, PartialEq, Eq, Structural)]
pub enum CaptureMode {
    System,
    Microphone,
    Both,
}

/// How a platform's capture backend stores tracks: the macOS helper writes Core
/// Audio files (`.caf`), the Windows and Linux backends write WAV files (`.wav`).
#[derive(Clone, Copy, Debug, PartialEq, Eq, Structural)]
pub enum TrackFormat {
    Caf,
    Wav,
}

impl CaptureMode {
    /// The name the helper protocol and `session.json` use for the mode.
    pub open spec fn name(self) -> Seq<char> {
        match self {
            CaptureMode::System => "system"@,
            CaptureMode::Microphone => "microphone"@,
            CaptureMode::Both => "both"@,
        }
    }

    /// The mode records the microphone.
    pub open spec fn needs_microphone(self) -> bool {
        self is Microphone || self is Both
    }

    /// The mode records system audio, which needs Screen Recording access.
    pub open spec fn needs_screen_recording(self) -> bool {
        self is System || self is Both
    }

    /// The track files the native helper writes for the mode, system track first.
    pub open spec fn track_files(self) -> Seq<Seq<char>> {
        match self {
            CaptureMode::System => seq!["system.caf"@],
            CaptureMode::Microphone => seq!["mic.caf"@],
            CaptureMode::Both => seq!["system.caf"@, "mic.caf"@],
        }
    }

    /// The track files a backend storing tracks in `format` writes for the mode,
    /// system track first.
    pub open spec fn track_files_in(self, format: TrackFormat) -> Seq<Seq<char>> {
        match format {
            TrackFormat::Caf => self.track_files(),
            TrackFormat::Wav => match self {
                CaptureMode::System => seq!["system.wav"@],
                CaptureMode::Microphone => seq!["mic.wav"@],
                CaptureMode::Both => seq!["system.wav"@, "mic.wav"@],
            },
        }
    }

    pub fn as_str(self) -> (s: &'static str)
        ensures
            s@ == self.name(),
    {
        match self {
            CaptureMode::System => "system",
            CaptureMode::Microphone => "microphone",
            CaptureMode::Both => "both",
        }
    }

    pub fn requires_microphone(self) -> (r: bool)
        ensures
            r == self.needs_microphone(),
    {
        matches!(self, CaptureMode::Microphone | CaptureMode::Both)
    }

    pub fn requires_screen_recording(self) -> (r: bool)
        ensures
            r == self.needs_screen_recording(),
    {
        matches!(self, CaptureMode::System | CaptureMode::Both)
    }

    pub fn output_files(self) -> (files: Vec<&'static str>)
        ensures
            files@.len() == self.track_files().len(),
            forall|i: int| 0 <= i < files@.len() ==> #[trigger] files@[i]@ == self.track_files()[i],
    {
        match self {
            CaptureMode::System => vec!["system.caf"],
            CaptureMode::Microphone => vec!["mic.caf"],
            CaptureMode::Both => vec!["system.caf", "mic.caf"],
        }
    }

    /// The track files a backend storing tracks in `format` writes for the mode.
    pub fn output_files_in(self, format: TrackFormat) -> (files: Vec<&'static str>)
        ensures
            files@.len() == self.track_files_in(format).len(),
            forall|i: int|
                0 <= i < files@.len() ==> #[trigger] files@[i]@ == self.track_files_in(format)[i],
    {
        match format {
            TrackFormat::Caf => self.output_files(),
            TrackFormat::Wav => match self {
                CaptureMode::System => vec!["system.wav"],
                CaptureMode::Microphone => vec!["mic.wav"],
                CaptureMode::Both => vec!["system.wav", "mic.wav"],
            },
        }
    }
}

/// What the helper reported for each permission (`granted`, `missing`, ...).
#[derive(Debug, PartialEq, Eq)]
pub struct PermissionStatus {
    pub microphone: String,
    pub screen_recording: String,
}

/// A permission that `mode` needs and that `status` does not report as granted.
pub open spec fn microphone_missing(status: PermissionStatus, mode: CaptureMode) -> bool {
    mode.needs_microphone() && status.microphone@ != "granted"@
}

pub open spec fn screen_recording_missing(status: PermissionStatus, mode: CaptureMode) -> bool {
    mode.needs_screen_recording() && status.screen_recording@ != "granted"@
}

/// The names of the permissions that `mode` needs and that are not granted.
pub open spec fn missing_permissions(status: PermissionStatus, mode: CaptureMode) -> Seq<Seq<char>> {
    (if microphone_missing(status, mode) { seq!["Microphone"@] } else { Seq::empty() }) + (
    if screen_recording_missing(status, mode) {
        seq!["Screen Recording"@]
    } else {
        Seq::empty()
    })
}

/// The setup advice printed when permissions are missing.
pub open spec fn guidance_text(missing: Seq<Seq<char>>) -> Seq<char> {
    join(missing, " and "@)
        + " permission is required. Open System Settings > Privacy & Security and grant it to Rusteze."@
}

impl PermissionStatus {
    pub fn is_ready_to_record(&self, mode: CaptureMode) -> (r: bool)
        ensures
            r == (!microphone_missing(*self, mode) && !screen_recording_missing(*self, mode)),
    {
        (!mode.requires_microphone() || str_eq(self.microphone.as_str(), "granted")) && (
        !mode.requires_screen_recording() || str_eq(self.screen_recording.as_str(), "granted"))
    }

    pub fn guidance(&self, mode: CaptureMode) -> (text: String)
        ensures
            text@ == guidance_text(missing_permissions(*self, mode)),
    {
        let mic = mode.requires_microphone() && !str_eq(self.microphone.as_str(), "granted");
        let screen = mode.requires_screen_recording() && !str_eq(
            self.screen_recording.as_str(),
            "granted",
        );
        let mut text = String::new();
        if mic {
            push_str(&mut text, "Microphone");
        }
        if mic && screen {
            push_str(&mut text, " and ");
        }
        if screen {
            push_str(&mut text, "Screen Recording");
        }
        push_str(
            &mut text,
            " permission is required. Open System Settings > Privacy & Security and grant it to Rusteze.",
        );
        proof {
            let m = missing_permissions(*self, mode);
            if mic && screen {
                assert(m =~= seq!["Microphone"@, "Screen Recording"@]);
                assert(m.drop_last() =~= seq!["Microphone"@]);
                assert(join(m.drop_last(), " and "@) == "Microphone"@);
                assert(join(m, " and "@) == "Microphone"@ + " and "@ + "Screen Recording"@);
            } else if mic {
                assert(m =~= seq!["Microphone"@]);
                assert(join(m, " and "@) == "Microphone"@);
            } else if screen {
                assert(m =~= seq!["Screen Recording"@]);
                assert(join(m, " and "@) == "Screen Recording"@);
            } else {
                assert(m =~= Seq::<Seq<char>>::empty());
                assert(join(m, " and "@) =~= Seq::<char>::empty());
            }
        }
        assert(text@ =~= guidance_text(missing_permissions(*self, mode)));
        text
    }
}

/// A failure of the capture backend.
#[derive(Debug)]
pub enum HelperError {
    /// The native helper binary does not exist at this path.
    Missing(String),
    /// The helper process could not be launched or talked to.
    Launch(String),
    /// The helper exited unsuccessfully.
    Failed { status: Option<i32>, stderr: String },
    /// The helper answered with something the protocol does not allow.
    InvalidResponse(String),
    /// An in-process capture backend failed.
    Backend(String),
}

/// The text shown for an exit status that may be unknown.
pub open spec fn status_text(status: Option<i32>) -> Seq<char> {
    match status {
        Some(code) => signed_decimal(code as int),
        None => "unknown"@,
    }
}

/// The message a backend error is shown with.
pub open spec fn error_message(error: HelperError) -> Seq<char> {
    match error {
        HelperError::Missing(path) => "Native macOS helper was not built at "@ + path@
            + ". Run macos-helper/build.sh first."@,
        HelperError::Launch(cause) => "Could not launch macOS helper: "@ + cause@,
        HelperError::Failed { status, stderr } => "macOS helper exited with status "@
            + status_text(status) + ": "@ + trim(stderr@),
        HelperError::InvalidResponse(message) => "macOS helper returned an invalid response: "@
            + message@,
        HelperError::Backend(message) => message@,
    }
}

/// The process exit code for an error: a helper's own usage (64) or
/// permission (77) status is passed through; everything else is 1.
pub open spec fn error_exit_code(error: HelperError) -> i32 {
    match error {
        HelperError::Failed { status: Some(code), .. } => if code == 64 || code == 77 {
            code
        } else {
            1
        },
        _ => 1,
    }
}

impl HelperError {
    pub fn exit_code(&self) -> (code: i32)
        ensures
            code == error_exit_code(*self),
    {
        match self {
            HelperError::Failed { status: Some(status), .. } => {
                if *status == 64 || *status == 77 {
                    *status
                } else {
                    1
                }
            },
            _ => 1,
        }
    }

    /// The message the error is displayed with.
    pub fn message(&self) -> (text: String)
        ensures
            text@ == error_message(*self),
    {
        let mut text = String::new();
        match self {
            HelperError::Missing(path) => {
                push_str(&mut text, "Native macOS helper was not built at ");
                push_str(&mut text, path.as_str());
                push_str(&mut text, ". Run macos-helper/build.sh first.");
            },
            HelperError::Launch(cause) => {
                push_str(&mut text, "Could not launch macOS helper: ");
                push_str(&mut text, cause.as_str());
            },
            HelperError::Failed { status, stderr } => {
                push_str(&mut text, "macOS helper exited with status ");
                match status {
                    Some(code) => {
                        let digits = signed_decimal_string(*code);
                        push_str(&mut text, digits.as_str());
                    },
                    None => push_str(&mut text, "unknown"),
                }
                push_str(&mut text, ": ");
                let trimmed = trim_chars(chars_of(stderr.as_str()).as_slice());
                let n = trimmed.len();
                push_chars(&mut text, trimmed.as_slice(), 0, n);
                assert(trimmed@.subrange(0, n as int) =~= trimmed@);
            },
            HelperError::InvalidResponse(message) => {
                push_str(&mut text, "macOS helper returned an invalid response: ");
                push_str(&mut text, message.as_str());
            },
            HelperError::Backend(message) => {
                push_str(&mut text, message.as_str());
            },
        }
        assert(text@ =~= error_message(*self));
        text
    }
}

// ---------------------------------------------------------------------------
// The helper's line protocol
// ---------------------------------------------------------------------------

/// The value of the last line `key value` for `key` (lines split at their first space).
pub open spec fn last_value(ls: Seq<Seq<char>>, key: Seq<char>) -> Option<Seq<char>>
    decreases ls.len(),
{
    if ls.len() == 0 {
        None
    } else {
        match split_once(ls.last(), ' ') {
            Some(pair) => if pair.0 == key {
                Some(pair.1)
            } else {
                last_value(ls.drop_last(), key)
            },
            None => last_value(ls.drop_last(), key),
        }
    }
}

/// The microphone and Screen Recording values of a permission reply, when the
/// reply is a well-formed `permission-status` result.
pub open spec fn permission_reply(output: Seq<char>) -> Option<(Seq<char>, Seq<char>)> {
    let ls = lines(output);
    if last_value(ls, "RESULT"@) == Some("permission-status"@) && last_value(ls, "MICROPHONE"@)
        is Some && last_value(ls, "SCREEN_RECORDING"@) is Some {
        Some((last_value(ls, "MICROPHONE"@)->0, last_value(ls, "SCREEN_RECORDING"@)->0))
    } else {
        None
    }
}

/// Reads the helper's permission reply: one `KEY value` pair per line, the last
/// pair for a key winning.
pub fn parse_permission_status(output: &str) -> (r: Result<PermissionStatus, HelperError>)
    ensures
        match r {
            Ok(status) => permission_reply(output@) == Some((status.microphone@, status.screen_recording@)),
            Err(error) => permission_reply(output@) is None && (match error {
                HelperError::InvalidResponse(m) => m@ == output@,
                _ => false,
            }),
        },
{
    let chars = chars_of(output);
    let ls = split_lines(chars.as_slice());
    let result_key = chars_of("RESULT");
    let mic_key = chars_of("MICROPHONE");
    let screen_key = chars_of("SCREEN_RECORDING");
    let ghost spec_lines = lines(output@);
    let mut result: Option<Vec<char>> = None;
    let mut mic: Option<Vec<char>> = None;
    let mut screen: Option<Vec<char>> = None;
    proof {
        reveal_strlit("RESULT");
        reveal_strlit("MICROPHONE");
        reveal_strlit("SCREEN_RECORDING");
        assert("RESULT"@.len() != "MICROPHONE"@.len());
        assert("RESULT"@.len() != "SCREEN_RECORDING"@.len());
        assert("MICROPHONE"@.len() != "SCREEN_RECORDING"@.len());
    }
    let mut k: usize = 0;
    while k < ls.len()
        invariant
            "RESULT"@ != "MICROPHONE"@,
            "RESULT"@ != "SCREEN_RECORDING"@,
            "MICROPHONE"@ != "SCREEN_RECORDING"@,
            k <= ls@.len(),
            ls@.len() == spec_lines.len(),
            forall|j: int| 0 <= j < ls@.len() ==> #[trigger] ls@[j]@ == spec_lines[j],
            result_key@ == "RESULT"@,
            mic_key@ == "MICROPHONE"@,
            screen_key@ == "SCREEN_RECORDING"@,
            opt_view(result) == last_value(spec_lines.take(k as int), "RESULT"@),
            opt_view(mic) == last_value(spec_lines.take(k as int), "MICROPHONE"@),
            opt_view(screen) == last_value(spec_lines.take(k as int), "SCREEN_RECORDING"@),
        decreases ls.len() - k,
    {
        let line = ls[k].as_slice();
        assert(spec_lines.take(k + 1).drop_last() =~= spec_lines.take(k as int));
        assert(spec_lines.take(k + 1).last() == line@);
        match find_char(line, ' ') {
            Some(space) => {
                let n = line.len();
                let value = sub_chars(line, space + 1, n);
                if range_eq(line, 0, space, result_key.as_slice()) {
                    result = Some(value);
                } else if range_eq(line, 0, space, mic_key.as_slice()) {
                    mic = Some(value);
                } else if range_eq(line, 0, space, screen_key.as_slice()) {
                    screen = Some(value);
                }
            },
            None => {},
        }
        k = k + 1;
    }
    assert(spec_lines.take(ls@.len() as int) =~= spec_lines);
    let expected = chars_of("permission-status");
    let ok = match &result {
        Some(value) => chars_eq(value.as_slice(), expected.as_slice()),
        None => false,
    };
    if ok {
        match (mic, screen) {
            (Some(m), Some(s)) => {
                return Ok(
                    PermissionStatus {
                        microphone: string_of(m.as_slice()),
                        screen_recording: string_of(s.as_slice()),
                    },
                );
            },
            _ => {},
        }
    }
    Err(HelperError::InvalidResponse(string_of(chars.as_slice())))
}

/// The view of an optional character vector.
pub open spec fn opt_view(o: Option<Vec<char>>) -> Option<Seq<char>> {
    match o {
        Some(v) => Some(v@),
        None => None,
    }
}

// ---------------------------------------------------------------------------
// Talking to the macOS helper process
// ---------------------------------------------------------------------------

fn text_of(s: &str) -> (r: String)
    ensures
        r@ == s@,
{
    let c = chars_of(s);
    string_of(c.as_slice())
}

/// The helper command line that records `mode` into `session_folder`.
pub fn record_arguments(session_folder: &str, mode: CaptureMode) -> (args: Vec<String>)
    ensures
        args@.len() == 3,
        args@[0]@ == "record"@,
        args@[1]@ == session_folder@,
        args@[2]@ == mode.name(),
{
    let mut args: Vec<String> = Vec::new();
    args.push(text_of("record"));
    args.push(text_of(session_folder));
    args.push(text_of(mode.as_str()));
    args
}

/// The helper command line that checks (or, with `request`, requests) the
/// permissions `mode` needs.
pub fn permission_arguments(request: bool, mode: CaptureMode) -> (args: Vec<String>)
    ensures
        args@.len() == 2,
        args@[0]@ == (if request { "request-permissions"@ } else { "check-permissions"@ }),
        args@[1]@ == mode.name(),
{
    let mut args: Vec<String> = Vec::new();
    if request {
        args.push(text_of("request-permissions"));
    } else {
        args.push(text_of("check-permissions"));
    }
    args.push(text_of(mode.as_str()));
    args
}

/// How a finished helper run ended, as far as the permission protocol cares.
pub struct HelperExit {
    pub success: bool,
    pub status: Option<i32>,
    pub stdout: String,
    pub stderr: String,
}

/// The permission status a finished helper run reports: an unsuccessful exit
/// is a failure carrying its status and standard error, otherwise standard
/// output is parsed.
pub fn interpret_permission_reply(exit: HelperExit) -> (r: Result<PermissionStatus, HelperError>)
    ensures
        !exit.success ==> (r matches Err(HelperError::Failed { status, stderr }) && status == exit.status
            && stderr@ == exit.stderr@),
        exit.success ==> match r {
            Ok(status) => permission_reply(exit.stdout@) == Some((status.microphone@, status.screen_recording@)),
            Err(error) => permission_reply(exit.stdout@) is None && (match error {
                HelperError::InvalidResponse(m) => m@ == exit.stdout@,
                _ => false,
            }),
        },
{
    if !exit.success {
        return Err(HelperError::Failed { status: exit.status, stderr: exit.stderr });
    }
    parse_permission_status(exit.stdout.as_str())
}

/// Whether the helper's first status line announces that recording started.
pub fn recording_started(status_line: &str) -> (r: bool)
    ensures
        r == (trim(status_line@) == "RESULT recording-started"@),
{
    let chars = chars_of(status_line);
    let trimmed = trim_chars(chars.as_slice());
    let expected = chars_of("RESULT recording-started");
    chars_eq(trimmed.as_slice(), expected.as_slice())
}

/// The error for a helper whose first status line did not announce recording.
pub fn capture_start_failure(status: Option<i32>, status_line: String) -> (e: HelperError)
    ensures
        e matches HelperError::Failed { status: s, stderr } && s == status && stderr@ == status_line@,
{
    HelperError::Failed { status, stderr: status_line }
}

/// The error for a helper that exited while it should have been recording.
pub fn unexpected_exit(status: Option<i32>) -> (e: HelperError)
    ensures
        e matches HelperError::Failed { status: s, stderr } && s == status && stderr@
            == "Capture helper exited unexpectedly; audio already written was preserved."@,
{
    HelperError::Failed {
        status,
        stderr: text_of("Capture helper exited unexpectedly; audio already written was preserved."),
    }
}

/// The outcome of asking the helper to stop: a successful exit finalized the files.
pub fn stop_outcome(success: bool, status: Option<i32>) -> (r: Result<(), HelperError>)
    ensures
        success <==> r is Ok,
        r matches Err(HelperError::Failed { status: s, stderr }) ==> s == status && stderr@
            == "Capture helper stopped with an error."@,
        r is Err ==> r matches Err(HelperError::Failed { .. }),
{
    if success {
        Ok(())
    } else {
        Err(HelperError::Failed { status, stderr: text_of("Capture helper stopped with an error.") })
    }
}

/// The message of the first failed result.
pub open spec fn first_failure(results: Seq<Result<(), String>>) -> Option<Seq<char>>
    decreases results.len(),
{
    if results.len() == 0 {
        None
    } else {
        match results[0] {
            Err(m) => Some(m@),
            Ok(_) => first_failure(results.drop_first()),
        }
    }
}

/// The first failure among finished capture workers, as a backend error.
pub fn first_worker_error(results: &[Result<(), String>]) -> (r: Result<(), HelperError>)
    ensures
        match r {
            Ok(()) => first_failure(results@) is None,
            Err(HelperError::Backend(b)) => first_failure(results@) == Some(b@),
            Err(_) => false,
        },
{
    let mut i: usize = 0;
    assert(results@.subrange(0, results@.len() as int) =~= results@);
    while i < results.len()
        invariant
            i <= results@.len(),
            first_failure(results@) == first_failure(results@.subrange(i as int, results@.len() as int)),
        decreases results.len() - i,
    {
        assert(results@.subrange(i as int, results@.len() as int).drop_first() =~= results@.subrange(
            i + 1,
            results@.len() as int,
        ));
        match &results[i] {
            Err(m) => {
                let c = chars_of(m.as_str());
                return Err(HelperError::Backend(string_of(c.as_slice())));
            },
            Ok(()) => {},
        }
        i = i + 1;
    }
    assert(results@.subrange(i as int, results@.len() as int).len() == 0);
    Ok(())
}

// ---------------------------------------------------------------------------
// Laws
// ---------------------------------------------------------------------------

/// Every capture mode needs at least one permission; combined capture needs both.
pub proof fn lemma_modes_need_permissions(mode: CaptureMode)
    ensures
        mode.needs_microphone() || mode.needs_screen_recording(),
        mode is Both <==> (mode.needs_microphone() && mode.needs_screen_recording()),
{
}

/// The track files a mode writes follow the permissions it needs: the
/// microphone track exactly when it needs the microphone, the system track
/// exactly when it needs Screen Recording, the system track first.
pub proof fn lemma_track_files_follow_permissions(mode: CaptureMode)
    ensures
        mode.track_files().contains("mic.caf"@) <==> mode.needs_microphone(),
        mode.track_files().contains("system.caf"@) <==> mode.needs_screen_recording(),
        mode.track_files().len() == (if mode is Both { 2nat } else { 1nat }),
{
    reveal_strlit("mic.caf");
    reveal_strlit("system.caf");
    assert("mic.caf"@.len() != "system.caf"@.len());
    match mode {
        CaptureMode::System => {
            assert(mode.track_files()[0] == "system.caf"@);
        },
        CaptureMode::Microphone => {
            assert(mode.track_files()[0] == "mic.caf"@);
        },
        CaptureMode::Both => {
            assert(mode.track_files()[0] == "system.caf"@);
            assert(mode.track_files()[1] == "mic.caf"@);
        },
    }
}

/// A status is ready for a mode exactly when the guidance for that mode names
/// no missing permission.
pub proof fn lemma_ready_iff_nothing_missing(status: PermissionStatus, mode: CaptureMode)
    ensures
        (!microphone_missing(status, mode) && !screen_recording_missing(status, mode)) <==> missing_permissions(
            status,
            mode,
        ).len() == 0,
{
}

} // verus!
