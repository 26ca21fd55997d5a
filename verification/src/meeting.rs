//! Meeting sessions: folder names, lifecycle states, `session.json` metadata,
//! crash recovery of that metadata, and the disk-space reserve.
use vstd::prelude::*;
use crate::native_helper::{CaptureMode, TrackFormat};
use crate::text::{
    chars_of, contains, contains_chars, decimal, push_chars, push_decimal, push_str,
    replace_all, replace_chars, starts_with, string_of,
};

verus! {

/// Free space, in bytes, that must remain before and during a recording.
pub const MINIMUM_FREE_BYTES: u64 = 268435456;

/// Seconds between disk-space checks while recording.
pub const RECORDING_SPACE_CHECK_INTERVAL_SECONDS: u64 = 5;

/// The largest `session.json` that crash recovery reads.
pub const MAX_RECOVERY_METADATA_BYTES: u64 = 1048576;

/// How many temporary file names an atomic metadata write tries.
pub const TEMPORARY_FILE_ATTEMPTS: u64 = 128;

/// The lifecycle state of a session.
#[derive(Clone, Copy, Debug, PartialEq, Eq, Structural)]
pub enum SessionState {
    Idle,
    Recording,
    Stopping,
    Completed,
    Failed,
}

impl SessionState {
    /// The name `session.json` uses for the state.
    pub open spec fn name(self) -> Seq<char> {
        match self {
            SessionState::Idle => "idle"@,
            SessionState::Recording => "recording"@,
            SessionState::Stopping => "stopping"@,
            SessionState::Completed => "completed"@,
            SessionState::Failed => "failed"@,
        }
    }

    pub fn as_str(self) -> (s: &'static str)
        ensures
            s@ == self.name(),
    {
        match self {
            SessionState::Idle => "idle",
            SessionState::Recording => "recording",
            SessionState::Stopping => "stopping",
            SessionState::Completed => "completed",
            SessionState::Failed => "failed",
        }
    }
}

/// A local meeting session and the metadata needed to recover its state.
pub struct MeetingSession {
    folder: String,
    id: String,
    title: String,
    state: SessionState,
    capture_mode: Option<CaptureMode>,
    started_at_unix_seconds: u64,
    ended_at_unix_seconds: Option<u64>,
    recovery_reason: Option<String>,
}

/// The abstract content of a session.
pub struct SessionView {
    pub folder: Seq<char>,
    pub id: Seq<char>,
    pub title: Seq<char>,
    pub state: SessionState,
    pub capture_mode: Option<CaptureMode>,
    pub started_at: u64,
    pub ended_at: Option<u64>,
    pub recovery_reason: Option<Seq<char>>,
}

impl View for MeetingSession {
    type V = SessionView;

    closed spec fn view(&self) -> SessionView {
        SessionView {
            folder: self.folder@,
            id: self.id@,
            title: self.title@,
            state: self.state,
            capture_mode: self.capture_mode,
            started_at: self.started_at_unix_seconds,
            ended_at: self.ended_at_unix_seconds,
            recovery_reason: match self.recovery_reason {
                Some(r) => Some(r@),
                None => None,
            },
        }
    }
}

// ---------------------------------------------------------------------------
// JSON metadata
// ---------------------------------------------------------------------------

/// The JSON escape of one character.
pub open spec fn escape_char(c: char) -> Seq<char> {
    if c == '\\' {
        seq!['\\', '\\']
    } else if c == '"' {
        seq!['\\', '"']
    } else if c == '\n' {
        seq!['\\', 'n']
    } else if c == '\r' {
        seq!['\\', 'r']
    } else if c == '\t' {
        seq!['\\', 't']
    } else {
        seq![c]
    }
}

/// `s` with backslash, double quote, newline, carriage return and tab escaped.
pub open spec fn escape_json(s: Seq<char>) -> Seq<char>
    decreases s.len(),
{
    if s.len() == 0 {
        Seq::empty()
    } else {
        escape_json(s.drop_last()) + escape_char(s.last())
    }
}

/// The character an escape sequence `\\c` stands for.
pub open spec fn unescape_char(c: char) -> char {
    if c == 'n' {
        '\n'
    } else if c == 'r' {
        '\r'
    } else if c == 't' {
        '\t'
    } else {
        c
    }
}

/// The text a JSON string body stands for: each backslash and the character
/// after it read as one escaped character.
pub open spec fn unescape_json(s: Seq<char>) -> Seq<char>
    decreases s.len(),
{
    if s.len() == 0 {
        Seq::empty()
    } else if s[0] == '\\' && s.len() >= 2 {
        seq![unescape_char(s[1])] + unescape_json(s.subrange(2, s.len() as int))
    } else {
        seq![s[0]] + unescape_json(s.drop_first())
    }
}

/// Escaping two pieces of text escapes each in turn.
pub proof fn lemma_escape_json_append(a: Seq<char>, b: Seq<char>)
    ensures
        escape_json(a + b) == escape_json(a) + escape_json(b),
    decreases b.len(),
{
    if b.len() == 0 {
        assert(a + b =~= a);
        assert(escape_json(a) + escape_json(b) =~= escape_json(a));
    } else {
        lemma_escape_json_append(a, b.drop_last());
        assert((a + b).drop_last() =~= a + b.drop_last());
        assert((a + b).last() == b.last());
        assert(escape_json(a) + escape_json(b) =~= escape_json(a) + escape_json(b.drop_last())
            + escape_char(b.last()));
    }
}

/// Reading an escaped text back gives the text: what `session.json` holds in its
/// string fields stands for exactly the session's id, title and reason.
pub proof fn lemma_escape_round_trip(s: Seq<char>)
    ensures
        unescape_json(escape_json(s)) == s,
    decreases s.len(),
{
    if s.len() > 0 {
        let c = s[0];
        let rest = s.drop_first();
        assert(s =~= seq![c] + rest);
        lemma_escape_json_append(seq![c], rest);
        assert(seq![c].drop_last() =~= Seq::<char>::empty());
        assert(seq![c].last() == c);
        assert(escape_json(Seq::<char>::empty()) == Seq::<char>::empty());
        assert(escape_json(seq![c]) == escape_json(seq![c].drop_last()) + escape_char(c));
        assert(escape_json(seq![c]) =~= escape_char(c));
        lemma_escape_round_trip(rest);
        let e = escape_char(c) + escape_json(rest);
        if escape_char(c).len() == 2 {
            assert(e.subrange(2, e.len() as int) =~= escape_json(rest));
            assert(unescape_char(e[1]) == c);
        } else {
            assert(e.drop_first() =~= escape_json(rest));
        }
        assert(seq![c] + rest =~= s);
    }
}

/// `s` in double quotes.
pub open spec fn quoted(s: Seq<char>) -> Seq<char> {
    seq!['"'] + s + seq!['"']
}

/// The first of `files` that starts with `prefix`.
pub open spec fn first_with_prefix(files: Seq<Seq<char>>, prefix: Seq<char>) -> Option<Seq<char>>
    decreases files.len(),
{
    if files.len() == 0 {
        None
    } else if starts_with(files[0], prefix) {
        Some(files[0])
    } else {
        first_with_prefix(files.drop_first(), prefix)
    }
}

/// The JSON value naming the first track file with `prefix`, or `null`.
pub open spec fn track_value(files: Seq<Seq<char>>, prefix: Seq<char>) -> Seq<char> {
    match first_with_prefix(files, prefix) {
        Some(f) => quoted(f),
        None => "null"@,
    }
}

/// The track files a session's capture mode enables, stored in `format`.
pub open spec fn enabled_files(mode: Option<CaptureMode>, format: TrackFormat) -> Seq<Seq<char>> {
    match mode {
        Some(m) => m.track_files_in(format),
        None => Seq::empty(),
    }
}

/// The mixed track that exists in the session folder, the CAF one first.
pub open spec fn mixed_track(mixed_caf_exists: bool, mixed_wav_exists: bool) -> Option<Seq<char>> {
    if mixed_caf_exists {
        Some("mixed.caf"@)
    } else if mixed_wav_exists {
        Some("mixed.wav"@)
    } else {
        None
    }
}

/// A JSON value that is a quoted string or `null`.
pub open spec fn string_or_null(s: Option<Seq<char>>) -> Seq<char> {
    match s {
        Some(t) => quoted(t),
        None => "null"@,
    }
}

/// A JSON value that is a number or `null`.
pub open spec fn number_or_null(n: Option<nat>) -> Seq<char> {
    match n {
        Some(v) => decimal(v),
        None => "null"@,
    }
}

/// Seconds from `started` to `ended`, zero when the clock went backwards.
pub open spec fn duration(started: u64, ended: u64) -> nat {
    if ended >= started {
        (ended - started) as nat
    } else {
        0
    }
}

/// The `session.json` document of a session whose tracks are stored in `format`.
pub open spec fn session_json(s: SessionView, mixed: Option<Seq<char>>, format: TrackFormat) -> Seq<char> {
    "{\n"@ + "  \"session_id\": "@ + quoted(escape_json(s.id)) + ",\n"@ + "  \"title\": "@
        + quoted(escape_json(s.title)) + ",\n"@ + "  \"state\": "@ + quoted(s.state.name())
        + ",\n"@ + "  \"capture_mode\": "@ + string_or_null(
        match s.capture_mode {
            Some(m) => Some(m.name()),
            None => None,
        },
    ) + ",\n"@ + "  \"started_at_unix_seconds\": "@ + decimal(s.started_at as nat) + ",\n"@
        + "  \"ended_at_unix_seconds\": "@ + number_or_null(
        match s.ended_at {
            Some(t) => Some(t as nat),
            None => None,
        },
    ) + ",\n"@ + "  \"duration_seconds\": "@ + number_or_null(
        match s.ended_at {
            Some(t) => Some(duration(s.started_at, t)),
            None => None,
        },
    ) + ",\n"@ + "  \"recovery_reason\": "@ + string_or_null(
        match s.recovery_reason {
            Some(r) => Some(escape_json(r)),
            None => None,
        },
    ) + ",\n"@ + "  \"microphone_track\": "@ + track_value(
        enabled_files(s.capture_mode, format),
        "mic."@,
    ) + ",\n"@ + "  \"system_audio_track\": "@ + track_value(
        enabled_files(s.capture_mode, format),
        "system."@,
    ) + ",\n"@ + "  \"mixed_audio_track\": "@ + string_or_null(mixed) + "\n"@ + "}\n"@
}

fn push_escaped(out: &mut String, c: char)
    ensures
        final(out)@ == old(out)@ + escape_char(c),
{
    if c == '\\' {
        push_str(out, "\\\\");
    } else if c == '"' {
        push_str(out, "\\\"");
    } else if c == '\n' {
        push_str(out, "\\n");
    } else if c == '\r' {
        push_str(out, "\\r");
    } else if c == '\t' {
        push_str(out, "\\t");
    } else {
        crate::text::push_char(out, c);
        assert(final(out)@ =~= old(out)@ + escape_char(c));
        return;
    }
    proof {
        reveal_strlit("\\\\");
        reveal_strlit("\\\"");
        reveal_strlit("\\n");
        reveal_strlit("\\r");
        reveal_strlit("\\t");
    }
    assert(final(out)@ =~= old(out)@ + escape_char(c));
}

/// Appends the JSON escape of `value`.
pub fn push_escaped_json(out: &mut String, value: &str)
    ensures
        final(out)@ == old(out)@ + escape_json(value@),
{
    let chars = chars_of(value);
    let mut i: usize = 0;
    while i < chars.len()
        invariant
            i <= chars@.len(),
            chars@ == value@,
            out@ == old(out)@ + escape_json(chars@.take(i as int)),
        decreases chars.len() - i,
    {
        push_escaped(out, chars[i]);
        assert(chars@.take(i + 1).drop_last() =~= chars@.take(i as int));
        i = i + 1;
        assert(out@ =~= old(out)@ + escape_json(chars@.take(i as int)));
    }
    assert(chars@.take(chars@.len() as int) =~= chars@);
}

/// `value` with backslash, double quote, newline, carriage return and tab escaped for JSON.
pub fn escape_json_string(value: &str) -> (out: String)
    ensures
        out@ == escape_json(value@),
{
    let mut out = String::new();
    push_escaped_json(&mut out, value);
    assert(out@ =~= escape_json(value@));
    out
}

fn starts_with_chars(s: &str, prefix: &str) -> (r: bool)
    ensures
        r == starts_with(s@, prefix@),
{
    let a = chars_of(s);
    let b = chars_of(prefix);
    if b.len() > a.len() {
        return false;
    }
    crate::text::range_eq(a.as_slice(), 0, b.len(), b.as_slice())
}

/// The JSON value naming the first of `files` that starts with `prefix`, or `null`.
pub fn track_json_value(files: &[&str], prefix: &str) -> (out: String)
    ensures
        out@ == track_value(files@.map_values(|f: &str| f@), prefix@),
{
    let ghost views = files@.map_values(|f: &str| f@);
    let mut i: usize = 0;
    assert(views.subrange(0, views.len() as int) =~= views);
    while i < files.len()
        invariant
            i <= files@.len(),
            views == files@.map_values(|f: &str| f@),
            first_with_prefix(views, prefix@) == first_with_prefix(
                views.subrange(i as int, views.len() as int),
                prefix@,
            ),
        decreases files.len() - i,
    {
        if starts_with_chars(files[i], prefix) {
            let mut out = String::new();
            push_str(&mut out, "\"");
            push_str(&mut out, files[i]);
            push_str(&mut out, "\"");
            proof {
                reveal_strlit("\"");
            }
            assert(out@ =~= quoted(files[i as int]@));
            return out;
        }
        assert(views.subrange(i as int, views.len() as int).drop_first() =~= views.subrange(
            i + 1,
            views.len() as int,
        ));
        i = i + 1;
    }
    let mut out = String::new();
    push_str(&mut out, "null");
    assert(out@ =~= "null"@);
    out
}

fn push_string_or_null(out: &mut String, value: Option<&str>)
    ensures
        final(out)@ == old(out)@ + string_or_null(
            match value {
                Some(v) => Some(v@),
                None => None,
            },
        ),
{
    match value {
        Some(v) => {
            push_str(out, "\"");
            push_str(out, v);
            push_str(out, "\"");
            proof {
                reveal_strlit("\"");
            }
        },
        None => push_str(out, "null"),
    }
    assert(final(out)@ =~= old(out)@ + string_or_null(
        match value {
            Some(v) => Some(v@),
            None => None,
        },
    ));
}

fn push_quoted(out: &mut String, value: &str)
    ensures
        final(out)@ == old(out)@ + quoted(value@),
{
    push_str(out, "\"");
    push_str(out, value);
    push_str(out, "\"");
    proof {
        reveal_strlit("\"");
    }
    assert(final(out)@ =~= old(out)@ + quoted(value@));
}

fn push_quoted_escaped(out: &mut String, value: &str)
    ensures
        final(out)@ == old(out)@ + quoted(escape_json(value@)),
{
    push_str(out, "\"");
    push_escaped_json(out, value);
    push_str(out, "\"");
    proof {
        reveal_strlit("\"");
    }
    assert(final(out)@ =~= old(out)@ + quoted(escape_json(value@)));
}

fn push_escaped_or_null(out: &mut String, value: Option<&str>)
    ensures
        final(out)@ == old(out)@ + string_or_null(
            match value {
                Some(v) => Some(escape_json(v@)),
                None => None,
            },
        ),
{
    match value {
        Some(v) => push_quoted_escaped(out, v),
        None => push_str(out, "null"),
    }
}

fn push_number_or_null(out: &mut String, value: Option<u64>)
    ensures
        final(out)@ == old(out)@ + number_or_null(
            match value {
                Some(v) => Some(v as nat),
                None => None,
            },
        ),
{
    match value {
        Some(v) => push_decimal(out, v),
        None => push_str(out, "null"),
    }
}

impl MeetingSession {
    /// A session with the given identity and lifecycle fields.
    pub fn from_parts(
        folder: String,
        id: String,
        title: String,
        state: SessionState,
        capture_mode: Option<CaptureMode>,
        started_at_unix_seconds: u64,
        ended_at_unix_seconds: Option<u64>,
        recovery_reason: Option<String>,
    ) -> (s: MeetingSession)
        ensures
            s@ == (SessionView {
                folder: folder@,
                id: id@,
                title: title@,
                state,
                capture_mode,
                started_at: started_at_unix_seconds,
                ended_at: ended_at_unix_seconds,
                recovery_reason: match recovery_reason {
                    Some(r) => Some(r@),
                    None => None,
                },
            }),
    {
        MeetingSession {
            folder,
            id,
            title,
            state,
            capture_mode,
            started_at_unix_seconds,
            ended_at_unix_seconds,
            recovery_reason,
        }
    }

    /// The session's folder.
    pub fn folder(&self) -> (f: &str)
        ensures
            f@ == self@.folder,
    {
        self.folder.as_str()
    }

    /// The session's identifier (the folder name).
    pub fn id(&self) -> (i: &str)
        ensures
            i@ == self@.id,
    {
        self.id.as_str()
    }

    /// The session's lifecycle state.
    pub fn state(&self) -> (s: SessionState)
        ensures
            s == self@.state,
    {
        self.state
    }

    /// The `session.json` document of a session whose tracks the platform stores
    /// in `format`, given which mixed track files exist in the folder.
    pub fn json(&self, format: TrackFormat, mixed_caf_exists: bool, mixed_wav_exists: bool) -> (out:
        String)
        ensures
            out@ == session_json(self@, mixed_track(mixed_caf_exists, mixed_wav_exists), format),
    {
        let mut out = String::new();
        push_str(&mut out, "{\n");
        assert(out@ =~= "{\n"@);
        push_str(&mut out, "  \"session_id\": ");
        push_quoted_escaped(&mut out, self.id.as_str());
        push_str(&mut out, ",\n");
        push_str(&mut out, "  \"title\": ");
        push_quoted_escaped(&mut out, self.title.as_str());
        push_str(&mut out, ",\n");
        push_str(&mut out, "  \"state\": ");
        push_quoted(&mut out, self.state.as_str());
        push_str(&mut out, ",\n");
        push_str(&mut out, "  \"capture_mode\": ");
        match self.capture_mode {
            Some(m) => push_string_or_null(&mut out, Some(m.as_str())),
            None => push_string_or_null(&mut out, None),
        }
        push_str(&mut out, ",\n");
        push_str(&mut out, "  \"started_at_unix_seconds\": ");
        push_decimal(&mut out, self.started_at_unix_seconds);
        push_str(&mut out, ",\n");
        push_str(&mut out, "  \"ended_at_unix_seconds\": ");
        push_number_or_null(&mut out, self.ended_at_unix_seconds);
        push_str(&mut out, ",\n");
        push_str(&mut out, "  \"duration_seconds\": ");
        match self.ended_at_unix_seconds {
            Some(t) => {
                let d = if t >= self.started_at_unix_seconds {
                    t - self.started_at_unix_seconds
                } else {
                    0
                };
                push_number_or_null(&mut out, Some(d));
            },
            None => push_number_or_null(&mut out, None),
        }
        push_str(&mut out, ",\n");
        push_str(&mut out, "  \"recovery_reason\": ");
        match &self.recovery_reason {
            Some(r) => push_escaped_or_null(&mut out, Some(r.as_str())),
            None => push_escaped_or_null(&mut out, None),
        }
        push_str(&mut out, ",\n");
        let files: Vec<&str> = match self.capture_mode {
            Some(m) => m.output_files_in(format),
            None => Vec::new(),
        };
        assert(files@.map_values(|f: &str| f@) =~= enabled_files(self.capture_mode, format));
        push_str(&mut out, "  \"microphone_track\": ");
        let mic = track_json_value(files.as_slice(), "mic.");
        push_str(&mut out, mic.as_str());
        push_str(&mut out, ",\n");
        push_str(&mut out, "  \"system_audio_track\": ");
        let system = track_json_value(files.as_slice(), "system.");
        push_str(&mut out, system.as_str());
        push_str(&mut out, ",\n");
        push_str(&mut out, "  \"mixed_audio_track\": ");
        if mixed_caf_exists {
            push_string_or_null(&mut out, Some("mixed.caf"));
        } else if mixed_wav_exists {
            push_string_or_null(&mut out, Some("mixed.wav"));
        } else {
            push_string_or_null(&mut out, None);
        }
        push_str(&mut out, "\n");
        push_str(&mut out, "}\n");
        out
    }
}

// ---------------------------------------------------------------------------
// Folder names
// ---------------------------------------------------------------------------

pub open spec fn is_ascii_alphanumeric(c: char) -> bool {
    ('0' <= c && c <= '9') || ('a' <= c && c <= 'z') || ('A' <= c && c <= 'Z')
}

pub open spec fn ascii_lowercase(c: char) -> char {
    if 'A' <= c && c <= 'Z' {
        ((c as int) + 32) as char
    } else {
        c
    }
}

/// The slug built from `title` so far, and whether it ends in a dash that a
/// separator added: letters and digits are kept in lower case, and each run of
/// other characters after the first kept one becomes a single dash.
pub open spec fn slug_scan(title: Seq<char>) -> (Seq<char>, bool)
    decreases title.len(),
{
    if title.len() == 0 {
        (Seq::empty(), false)
    } else {
        let (slug, dash) = slug_scan(title.drop_last());
        let c = title.last();
        if is_ascii_alphanumeric(c) {
            (slug.push(ascii_lowercase(c)), false)
        } else if slug.len() > 0 && !dash {
            (slug.push('-'), true)
        } else {
            (slug, dash)
        }
    }
}

/// `s` without trailing dashes.
pub open spec fn trim_trailing_dashes(s: Seq<char>) -> Seq<char>
    decreases s.len(),
{
    if s.len() > 0 && s.last() == '-' {
        trim_trailing_dashes(s.drop_last())
    } else {
        s
    }
}

/// The folder-name slug of a meeting title, `untitled` when it has no letters or digits.
pub open spec fn slug(title: Seq<char>) -> Seq<char> {
    let t = trim_trailing_dashes(slug_scan(title).0);
    if t.len() == 0 {
        "untitled"@
    } else {
        t
    }
}

/// A slug is a simple folder name: lower-case letters, digits and single dashes
/// between them.
pub open spec fn is_simple_folder_name(s: Seq<char>) -> bool {
    &&& s.len() > 0
    &&& forall|i: int|
        0 <= i < s.len() ==> ('a' <= #[trigger] s[i] && s[i] <= 'z') || ('0' <= s[i] && s[i] <= '9')
            || s[i] == '-'
    &&& s[0] != '-'
    &&& s.last() != '-'
    &&& forall|i: int| 0 <= i < s.len() - 1 ==> !(#[trigger] s[i] == '-' && s[i + 1] == '-')
}

fn lowercase(c: char) -> (r: char)
    ensures
        r == ascii_lowercase(c),
{
    if 'A' <= c && c <= 'Z' {
        ((c as u8) + 32) as char
    } else {
        c
    }
}

fn alphanumeric(c: char) -> (r: bool)
    ensures
        r == is_ascii_alphanumeric(c),
{
    ('0' <= c && c <= '9') || ('a' <= c && c <= 'z') || ('A' <= c && c <= 'Z')
}

/// Turns a meeting title into a simple folder name.
pub fn slugify(title: &str) -> (out: String)
    ensures
        out@ == slug(title@),
{
    let chars = chars_of(title);
    let mut slug_chars: Vec<char> = Vec::new();
    let mut previous_character_was_dash = false;
    let mut i: usize = 0;
    while i < chars.len()
        invariant
            i <= chars@.len(),
            chars@ == title@,
            slug_scan(chars@.take(i as int)) == (slug_chars@, previous_character_was_dash),
        decreases chars.len() - i,
    {
        let c = chars[i];
        assert(chars@.take(i + 1).drop_last() =~= chars@.take(i as int));
        if alphanumeric(c) {
            slug_chars.push(lowercase(c));
            previous_character_was_dash = false;
        } else if slug_chars.len() > 0 && !previous_character_was_dash {
            slug_chars.push('-');
            previous_character_was_dash = true;
        }
        i = i + 1;
    }
    assert(chars@.take(chars@.len() as int) =~= chars@);
    while slug_chars.len() > 0 && slug_chars[slug_chars.len() - 1] == '-'
        invariant
            trim_trailing_dashes(slug_chars@) == trim_trailing_dashes(slug_scan(title@).0),
        decreases slug_chars.len(),
    {
        slug_chars.pop();
    }
    if slug_chars.len() == 0 {
        let u = chars_of("untitled");
        string_of(u.as_slice())
    } else {
        string_of(slug_chars.as_slice())
    }
}

proof fn lemma_slug_scan_shape(title: Seq<char>)
    ensures
        ({
            let (s, dash) = slug_scan(title);
            &&& dash <==> (s.len() > 0 && s.last() == '-')
            &&& forall|i: int|
                0 <= i < s.len() ==> ('a' <= #[trigger] s[i] && s[i] <= 'z') || ('0' <= s[i]
                    && s[i] <= '9') || s[i] == '-'
            &&& s.len() > 0 ==> s[0] != '-'
            &&& forall|i: int| 0 <= i < s.len() - 1 ==> !(#[trigger] s[i] == '-' && s[i + 1] == '-')
        }),
    decreases title.len(),
{
    if title.len() > 0 {
        lemma_slug_scan_shape(title.drop_last());
        let (s0, d0) = slug_scan(title.drop_last());
        let (s, dash) = slug_scan(title);
        assert forall|i: int| 0 <= i < s0.len() implies s[i] == s0[i] by {}
    }
}

/// Every slug is a simple folder name: non-empty, made of lower-case ASCII
/// letters, digits and dashes, with no dash at either end and no two dashes in a row.
pub proof fn lemma_slug_is_simple_folder_name(title: Seq<char>)
    ensures
        is_simple_folder_name(slug(title)),
{
    lemma_slug_scan_shape(title);
    let (s, dash) = slug_scan(title);
    let t = trim_trailing_dashes(s);
    if s.len() > 0 && s.last() == '-' {
        assert(s.drop_last().len() == 0 || s.drop_last().last() != '-') by {
            if s.drop_last().len() > 0 {
                assert(s[s.len() - 2] == '-' ==> !(s[s.len() - 1] == '-'));
            }
        }
        assert(trim_trailing_dashes(s.drop_last()) == s.drop_last());
        assert(t == s.drop_last());
    } else {
        assert(t == s);
    }
    if t.len() == 0 {
        reveal_strlit("untitled");
    } else {
        assert forall|i: int| 0 <= i < t.len() implies t[i] == s[i] by {}
    }
}

/// Scanning a prefix of a simple folder name keeps it as it is.
proof fn lemma_slug_scan_of_simple(s: Seq<char>, k: int)
    requires
        is_simple_folder_name(s),
        0 <= k <= s.len(),
    ensures
        slug_scan(s.take(k)) == (s.take(k), k > 0 && s[k - 1] == '-'),
    decreases k,
{
    if k > 0 {
        lemma_slug_scan_of_simple(s, k - 1);
        assert(s.take(k).drop_last() =~= s.take(k - 1));
        let c = s[k - 1];
        assert(s.take(k).last() == c);
        if c == '-' {
            assert(k - 1 > 0);
            assert(!(s[k - 2] == '-' && s[k - 1] == '-'));
            assert(s.take(k - 1).push('-') =~= s.take(k));
        } else {
            assert(ascii_lowercase(c) == c);
            assert(s.take(k - 1).push(c) =~= s.take(k));
        }
    }
}

/// A simple folder name is its own slug.
pub proof fn lemma_simple_name_is_its_slug(s: Seq<char>)
    requires
        is_simple_folder_name(s),
    ensures
        slug(s) == s,
{
    lemma_slug_scan_of_simple(s, s.len() as int);
    assert(s.take(s.len() as int) =~= s);
    assert(trim_trailing_dashes(s) == s);
}

/// Slugifying a slug gives it back.
pub proof fn lemma_slug_is_idempotent(title: Seq<char>)
    ensures
        slug(slug(title)) == slug(title),
{
    lemma_slug_is_simple_folder_name(title);
    lemma_simple_name_is_its_slug(slug(title));
}

// ---------------------------------------------------------------------------
// Session identifiers and lifecycle
// ---------------------------------------------------------------------------

/// The folder name tried for the `n`-th session created at `created_at` with
/// `meeting_name`: `<created_at>-<name>`, and from the second try on `-<n>` appended.
pub open spec fn session_id_candidate(created_at: u64, meeting_name: Seq<char>, n: u64) -> Seq<char> {
    let base = decimal(created_at as nat) + seq!['-'] + meeting_name;
    if n == 1 {
        base
    } else {
        base + seq!['-'] + decimal(n as nat)
    }
}

/// The folder name to try for the `duplicate_number`-th session created at
/// `created_at` with the slug `meeting_name`.
pub fn session_directory_name(created_at: u64, meeting_name: &str, duplicate_number: u64) -> (id:
    String)
    ensures
        id@ == session_id_candidate(created_at, meeting_name@, duplicate_number),
{
    let mut id = String::new();
    push_decimal(&mut id, created_at);
    crate::text::push_char(&mut id, '-');
    push_str(&mut id, meeting_name);
    if duplicate_number != 1 {
        crate::text::push_char(&mut id, '-');
        push_decimal(&mut id, duplicate_number);
    }
    assert(id@ =~= session_id_candidate(created_at, meeting_name@, duplicate_number));
    id
}

impl MeetingSession {
    /// A new session in `initial_state`, with no end time and no recovery reason.
    fn begin(
        folder: String,
        id: String,
        title: &str,
        initial_state: SessionState,
        capture_mode: Option<CaptureMode>,
        started_at_unix_seconds: u64,
    ) -> (s: MeetingSession)
        ensures
            s@ == (SessionView {
                folder: folder@,
                id: id@,
                title: title@,
                state: initial_state,
                capture_mode,
                started_at: started_at_unix_seconds,
                ended_at: None,
                recovery_reason: None,
            }),
    {
        let t = chars_of(title);
        MeetingSession {
            folder,
            id,
            title: string_of(t.as_slice()),
            state: initial_state,
            capture_mode,
            started_at_unix_seconds,
            ended_at_unix_seconds: None,
            recovery_reason: None,
        }
    }
}

/// The id of the `duplicate_number`-th session created at `started_at` with
/// `title`: the creation time and the slug of the title, with the duplicate
/// number appended from the second try on.
pub open spec fn session_id(started_at: u64, title: Seq<char>, duplicate_number: u64) -> Seq<char> {
    session_id_candidate(started_at, slug(title), duplicate_number)
}

/// The id of a new session, built from its creation time and title.
fn new_session_id(title: &str, started_at: u64, duplicate_number: u64) -> (id: String)
    ensures
        id@ == session_id(started_at, title@, duplicate_number),
{
    let name = slugify(title);
    session_directory_name(started_at, name.as_str(), duplicate_number)
}

/// An idle session for the folder-structure command, created at `started_at`
/// as the `duplicate_number`-th session with its title and start time, in
/// `folder` (the meetings directory joined with the session's id).
pub fn create(title: &str, started_at: u64, duplicate_number: u64, folder: String) -> (s: MeetingSession)
    ensures
        s@ == (SessionView {
            folder: folder@,
            id: session_id(started_at, title@, duplicate_number),
            title: title@,
            state: SessionState::Idle,
            capture_mode: None,
            started_at,
            ended_at: None,
            recovery_reason: None,
        }),
{
    let id = new_session_id(title, started_at, duplicate_number);
    MeetingSession::begin(folder, id, title, SessionState::Idle, None, started_at)
}

/// A session that is recording in `capture_mode`, created at `started_at` as the
/// `duplicate_number`-th session with its title and start time, in `folder` (the
/// meetings directory joined with the session's id).
pub fn start(
    title: &str,
    capture_mode: CaptureMode,
    started_at: u64,
    duplicate_number: u64,
    folder: String,
) -> (s: MeetingSession)
    ensures
        s@ == (SessionView {
            folder: folder@,
            id: session_id(started_at, title@, duplicate_number),
            title: title@,
            state: SessionState::Recording,
            capture_mode: Some(capture_mode),
            started_at,
            ended_at: None,
            recovery_reason: None,
        }),
{
    let id = new_session_id(title, started_at, duplicate_number);
    MeetingSession::begin(folder, id, title, SessionState::Recording, Some(capture_mode), started_at)
}

/// The first step of a clean shutdown: the session is marked as stopping.
pub fn begin_stopping(session: &mut MeetingSession)
    ensures
        final(session)@ == (SessionView { state: SessionState::Stopping, ..old(session)@ }),
{
    session.state = SessionState::Stopping;
}

/// The last step of a clean shutdown: the session ended at `ended_at` and is completed.
pub fn complete(session: &mut MeetingSession, ended_at: u64)
    ensures
        final(session)@ == (SessionView {
            state: SessionState::Completed,
            ended_at: Some(ended_at),
            ..old(session)@
        }),
{
    session.ended_at_unix_seconds = Some(ended_at);
    session.state = SessionState::Completed;
}

/// Records that normal recording could not continue: the session ended at
/// `ended_at`, failed, and keeps `reason` for whoever recovers it.
pub fn fail(session: &mut MeetingSession, ended_at: u64, reason: &str)
    ensures
        final(session)@ == (SessionView {
            state: SessionState::Failed,
            ended_at: Some(ended_at),
            recovery_reason: Some(reason@),
            ..old(session)@
        }),
{
    session.ended_at_unix_seconds = Some(ended_at);
    let r = chars_of(reason);
    session.recovery_reason = Some(string_of(r.as_slice()));
    session.state = SessionState::Failed;
}

// ---------------------------------------------------------------------------
// Disk-space reserve
// ---------------------------------------------------------------------------

/// Why recording must not go on with `available` free bytes.
pub open spec fn space_error_message(available: u64) -> Seq<char> {
    "Only "@ + decimal(available as nat) + " bytes are free; Rusteze keeps a "@ + decimal(
        MINIMUM_FREE_BYTES as nat,
    ) + "-byte reserve while processing audio."@
}

/// Refuses to record when fewer than `MINIMUM_FREE_BYTES` bytes are free.
pub fn ensure_recording_space(available_bytes: u64) -> (r: Result<(), String>)
    ensures
        r is Ok <==> available_bytes >= MINIMUM_FREE_BYTES,
        r matches Err(m) ==> m@ == space_error_message(available_bytes),
{
    if available_bytes < MINIMUM_FREE_BYTES {
        let mut m = String::new();
        push_str(&mut m, "Only ");
        push_decimal(&mut m, available_bytes);
        push_str(&mut m, " bytes are free; Rusteze keeps a ");
        push_decimal(&mut m, MINIMUM_FREE_BYTES);
        push_str(&mut m, "-byte reserve while processing audio.");
        assert(m@ =~= space_error_message(available_bytes));
        return Err(m);
    }
    Ok(())
}

// ---------------------------------------------------------------------------
// Crash recovery
// ---------------------------------------------------------------------------

pub open spec fn recording_state_line() -> Seq<char> {
    "\"state\": \"recording\""@
}

pub open spec fn stopping_state_line() -> Seq<char> {
    "\"state\": \"stopping\""@
}

pub open spec fn failed_state_line() -> Seq<char> {
    "\"state\": \"failed\""@
}

/// The reason recorded in a session recovered after a crash.
pub open spec fn interrupted_reason() -> Seq<char> {
    "Rusteze was interrupted before recording could finish. Audio already written was preserved."@
}

/// The metadata of a session that was left recording or stopping, rewritten as
/// failed at `ended_at` with the interruption reason; `None` for any other session.
pub open spec fn recovered_json(contents: Seq<char>, ended_at: u64) -> Option<Seq<char>> {
    if !(contains(contents, recording_state_line()) || contains(contents, stopping_state_line())) {
        None
    } else {
        Some(
            replace_all(
                replace_all(
                    replace_all(
                        replace_all(contents, recording_state_line(), failed_state_line()),
                        stopping_state_line(),
                        failed_state_line(),
                    ),
                    "\"ended_at_unix_seconds\": null"@,
                    "\"ended_at_unix_seconds\": "@ + decimal(ended_at as nat),
                ),
                "\"recovery_reason\": null"@,
                "\"recovery_reason\": \""@ + interrupted_reason() + "\""@,
            ),
        )
    }
}

/// Rewrites the metadata of a session interrupted while active as failed.
pub fn recover_session_json(contents: &str, ended_at: u64) -> (r: Option<String>)
    ensures
        match r {
            Some(j) => recovered_json(contents@, ended_at) == Some(j@),
            None => recovered_json(contents@, ended_at) is None,
        },
{
    let text = chars_of(contents);
    let recording = chars_of("\"state\": \"recording\"");
    let stopping = chars_of("\"state\": \"stopping\"");
    let was_active = contains_chars(text.as_slice(), recording.as_slice()) || contains_chars(
        text.as_slice(),
        stopping.as_slice(),
    );
    if !was_active {
        return None;
    }
    proof {
        reveal_strlit("\"state\": \"recording\"");
        reveal_strlit("\"state\": \"stopping\"");
        reveal_strlit("\"ended_at_unix_seconds\": null");
        reveal_strlit("\"recovery_reason\": null");
    }
    let step1 = replace_chars(text.as_slice(), recording.as_slice(), "\"state\": \"failed\"");
    let step1_chars = chars_of(step1.as_str());
    let step2 = replace_chars(step1_chars.as_slice(), stopping.as_slice(), "\"state\": \"failed\"");
    let step2_chars = chars_of(step2.as_str());
    let ended_pattern = chars_of("\"ended_at_unix_seconds\": null");
    let mut ended_value = String::new();
    push_str(&mut ended_value, "\"ended_at_unix_seconds\": ");
    push_decimal(&mut ended_value, ended_at);
    let step3 = replace_chars(step2_chars.as_slice(), ended_pattern.as_slice(), ended_value.as_str());
    let step3_chars = chars_of(step3.as_str());
    let reason_pattern = chars_of("\"recovery_reason\": null");
    let mut reason_value = String::new();
    push_str(&mut reason_value, "\"recovery_reason\": \"");
    push_str(
        &mut reason_value,
        "Rusteze was interrupted before recording could finish. Audio already written was preserved.",
    );
    push_str(&mut reason_value, "\"");
    let step4 = replace_chars(step3_chars.as_slice(), reason_pattern.as_slice(), reason_value.as_str());
    Some(step4)
}

// ---------------------------------------------------------------------------
// Session files on disk
// ---------------------------------------------------------------------------

/// The files of a session folder that hold recorded or derived personal data.
pub open spec fn sensitive_files() -> Seq<Seq<char>> {
    seq![
        "session.json"@,
        "mic.caf"@,
        "system.caf"@,
        "mic.wav"@,
        "system.wav"@,
        "mixed.caf"@,
        "mixed.wav"@,
        "transcript.md"@,
        "transcript.json"@,
    ]
}

/// The session files whose permissions are hardened.
pub fn sensitive_session_files() -> (files: Vec<&'static str>)
    ensures
        files@.len() == sensitive_files().len(),
        forall|i: int| 0 <= i < files@.len() ==> #[trigger] files@[i]@ == sensitive_files()[i],
{
    vec![
        "session.json",
        "mic.caf",
        "system.caf",
        "mic.wav",
        "system.wav",
        "mixed.caf",
        "mixed.wav",
        "transcript.md",
        "transcript.json",
    ]
}

/// Whether crash recovery reads a session's metadata file: it must be a
/// regular file, not a link, and at most `MAX_RECOVERY_METADATA_BYTES` long.
pub fn metadata_is_recoverable(is_file: bool, is_link: bool, len: u64) -> (r: bool)
    ensures
        r == (is_file && !is_link && len <= MAX_RECOVERY_METADATA_BYTES),
{
    is_file && !is_link && len <= MAX_RECOVERY_METADATA_BYTES
}

/// The hidden temporary name `.<file>.<pid>.<counter>.tmp` used while writing a file atomically.
pub open spec fn temporary_name(file_name: Seq<char>, pid: u32, counter: u64) -> Seq<char> {
    seq!['.'] + file_name + seq!['.'] + decimal(pid as nat) + seq!['.'] + decimal(counter as nat)
        + ".tmp"@
}

pub fn temporary_file_name(file_name: &str, pid: u32, counter: u64) -> (name: String)
    ensures
        name@ == temporary_name(file_name@, pid, counter),
{
    let mut name = String::new();
    crate::text::push_char(&mut name, '.');
    push_str(&mut name, file_name);
    crate::text::push_char(&mut name, '.');
    push_decimal(&mut name, pid as u64);
    crate::text::push_char(&mut name, '.');
    push_decimal(&mut name, counter);
    push_str(&mut name, ".tmp");
    assert(name@ =~= temporary_name(file_name@, pid, counter));
    name
}

// ---------------------------------------------------------------------------
// Laws
// ---------------------------------------------------------------------------

/// The microphone track file of a backend storing tracks in `format`.
pub open spec fn mic_track(format: TrackFormat) -> Seq<char> {
    match format {
        TrackFormat::Caf => "mic.caf"@,
        TrackFormat::Wav => "mic.wav"@,
    }
}

/// The system-audio track file of a backend storing tracks in `format`.
pub open spec fn system_track(format: TrackFormat) -> Seq<char> {
    match format {
        TrackFormat::Caf => "system.caf"@,
        TrackFormat::Wav => "system.wav"@,
    }
}

/// `session.json` names exactly the tracks its capture mode records, as the
/// platform stores them: the microphone track when the mode needs the
/// microphone, the system-audio track when it needs Screen Recording, and
/// neither for a session without a mode.
pub proof fn lemma_json_tracks_follow_mode(mode: Option<CaptureMode>, format: TrackFormat)
    ensures
        track_value(enabled_files(mode, format), "mic."@) == (if mode matches Some(m)
            && m.needs_microphone() {
            quoted(mic_track(format))
        } else {
            "null"@
        }),
        track_value(enabled_files(mode, format), "system."@) == (if mode matches Some(m)
            && m.needs_screen_recording() {
            quoted(system_track(format))
        } else {
            "null"@
        }),
{
    reveal_strlit("mic.caf");
    reveal_strlit("system.caf");
    reveal_strlit("mic.wav");
    reveal_strlit("system.wav");
    reveal_strlit("mic.");
    reveal_strlit("system.");
    let files = enabled_files(mode, format);
    let mic = mic_track(format);
    let sys = system_track(format);
    assert(starts_with(mic, "mic."@)) by {
        assert(mic.subrange(0, 4) =~= "mic."@);
    }
    assert(starts_with(sys, "system."@)) by {
        assert(sys.subrange(0, 7) =~= "system."@);
    }
    assert(!starts_with(mic, "system."@)) by {
        if mic.len() >= 7 {
            assert(mic.subrange(0, 7)[0] != "system."@[0]);
        }
    }
    assert(!starts_with(sys, "mic."@)) by {
        assert(sys.subrange(0, 4)[0] != "mic."@[0]);
    }
    match mode {
        Some(CaptureMode::Both) => {
            assert(files =~= seq![sys, mic]);
            let rest = files.drop_first();
            assert(rest =~= seq![mic]);
            assert(rest.drop_first() =~= Seq::<Seq<char>>::empty());
            assert(first_with_prefix(rest.drop_first(), "system."@) is None);
            assert(first_with_prefix(rest, "system."@) is None);
            assert(first_with_prefix(files, "system."@) == Some(sys));
            assert(first_with_prefix(rest, "mic."@) == Some(mic));
            assert(first_with_prefix(files, "mic."@) == Some(mic));
        },
        Some(CaptureMode::System) => {
            assert(files =~= seq![sys]);
            assert(files.drop_first() =~= Seq::<Seq<char>>::empty());
            assert(first_with_prefix(files.drop_first(), "mic."@) is None);
            assert(first_with_prefix(files, "mic."@) is None);
            assert(first_with_prefix(files, "system."@) == Some(sys));
        },
        Some(CaptureMode::Microphone) => {
            assert(files =~= seq![mic]);
            assert(files.drop_first() =~= Seq::<Seq<char>>::empty());
            assert(first_with_prefix(files.drop_first(), "system."@) is None);
            assert(first_with_prefix(files, "system."@) is None);
            assert(first_with_prefix(files, "mic."@) == Some(mic));
        },
        None => {},
    }
}

/// A recorded duration never goes below zero: it is the time from start to end,
/// or zero when the clock went backwards.
pub proof fn lemma_duration_is_elapsed_time(started: u64, ended: u64)
    ensures
        ended >= started ==> duration(started, ended) + started == ended,
        ended < started ==> duration(started, ended) == 0,
{
}

} // verus!
