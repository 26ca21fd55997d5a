//! `session.json` is valid JSON: one object whose members, one per line, are the
//! keys of `json_keys` with values that are JSON strings, numbers or `null`.
use vstd::prelude::*;
use crate::meeting::{
    duration, enabled_files, escape_char, escape_json, first_with_prefix, lemma_escape_json_append,
    mixed_track, number_or_null, quoted, session_json, string_or_null, track_value, SessionView,
};
use crate::native_helper::{CaptureMode, TrackFormat};
use crate::recovery::{document, json_keys, json_values, lemma_json_is_document};
use crate::text::{decimal, digit_char};

verus! {

/// A character that a JSON string may hold as it is.
pub open spec fn json_plain_char(c: char) -> bool {
    c >= ' ' && c != '"' && c != '\\'
}

/// A character that may follow a backslash in a JSON string.
pub open spec fn json_escapable(c: char) -> bool {
    c == '"' || c == '\\' || c == '/' || c == 'b' || c == 'f' || c == 'n' || c == 'r' || c == 't'
}

/// The body of a JSON string: plain characters and backslash escapes.
pub open spec fn json_string_body(b: Seq<char>) -> bool
    decreases b.len(),
{
    if b.len() == 0 {
        true
    } else if b[0] == '\\' {
        b.len() >= 2 && json_escapable(b[1]) && json_string_body(b.subrange(2, b.len() as int))
    } else {
        json_plain_char(b[0]) && json_string_body(b.drop_first())
    }
}

/// A JSON string: a valid body in double quotes.
pub open spec fn json_string(v: Seq<char>) -> bool {
    v.len() >= 2 && v[0] == '"' && v.last() == '"' && json_string_body(v.subrange(1, v.len() - 1))
}

/// A JSON number without sign, fraction or exponent: digits, with no leading zero.
pub open spec fn json_natural(v: Seq<char>) -> bool {
    &&& v.len() > 0
    &&& forall|i: int| 0 <= i < v.len() ==> '0' <= #[trigger] v[i] <= '9'
    &&& (v.len() > 1 ==> v[0] != '0')
}

/// A JSON value of the kinds `session.json` holds.
pub open spec fn json_value(v: Seq<char>) -> bool {
    v == "null"@ || json_natural(v) || json_string(v)
}

/// Text JSON can hold unescaped and escaped alike: no control character but line
/// feed, carriage return and tab, which the escaping turns into escapes.
pub open spec fn escapable_text(s: Seq<char>) -> bool {
    forall|i: int|
        0 <= i < s.len() ==> #[trigger] s[i] >= ' ' || s[i] == '\n' || s[i] == '\r' || s[i] == '\t'
}

/// Text made of plain characters is a string body.
proof fn lemma_plain_body(t: Seq<char>)
    requires
        forall|i: int| 0 <= i < t.len() ==> json_plain_char(#[trigger] t[i]),
    ensures
        json_string_body(t),
    decreases t.len(),
{
    if t.len() > 0 {
        assert(json_plain_char(t[0]));
        lemma_plain_body(t.drop_first());
    }
}

/// Escaping text JSON can hold gives a string body.
proof fn lemma_escaped_body(s: Seq<char>)
    requires
        escapable_text(s),
    ensures
        json_string_body(escape_json(s)),
    decreases s.len(),
{
    if s.len() > 0 {
        let c = s[0];
        let rest = s.drop_first();
        assert(s =~= seq![c] + rest);
        lemma_escape_json_append(seq![c], rest);
        assert(seq![c].drop_last() =~= Seq::<char>::empty());
        assert(escape_json(seq![c]) == escape_json(Seq::<char>::empty()) + escape_char(c));
        assert(escape_json(seq![c]) =~= escape_char(c));
        assert(escapable_text(rest)) by {
            assert forall|i: int| 0 <= i < rest.len() implies #[trigger] rest[i] >= ' ' || rest[i]
                == '\n' || rest[i] == '\r' || rest[i] == '\t' by {
                assert(rest[i] == s[i + 1]);
            }
        }
        lemma_escaped_body(rest);
        let e = escape_char(c) + escape_json(rest);
        assert(s[0] == c);
        if escape_char(c).len() == 2 {
            assert(e.subrange(2, e.len() as int) =~= escape_json(rest));
        } else {
            assert(e.drop_first() =~= escape_json(rest));
        }
        assert(escape_json(s) == e);
    }
}

/// A quoted string body is a JSON string.
proof fn lemma_quoted_string(b: Seq<char>)
    requires
        json_string_body(b),
    ensures
        json_string(quoted(b)),
{
    assert(quoted(b).subrange(1, quoted(b).len() - 1) =~= b);
}

/// A decimal representation is a JSON number.
proof fn lemma_decimal_natural(n: nat)
    ensures
        json_natural(decimal(n)),
        n > 0 ==> decimal(n)[0] != '0',
    decreases n,
{
    if n >= 10 {
        lemma_decimal_natural(n / 10);
        assert(decimal(n) == decimal(n / 10).push(digit_char(n % 10)));
        assert(decimal(n)[0] == decimal(n / 10)[0]);
    }
}

/// The literal names `session.json` quotes are plain text.
proof fn lemma_literal_strings()
    ensures
        json_string(quoted("system"@)),
        json_string(quoted("microphone"@)),
        json_string(quoted("both"@)),
        json_string(quoted("system.caf"@)),
        json_string(quoted("mic.caf"@)),
        json_string(quoted("system.wav"@)),
        json_string(quoted("mic.wav"@)),
        json_string(quoted("mixed.caf"@)),
        json_string(quoted("mixed.wav"@)),
        json_string(quoted("idle"@)),
        json_string(quoted("recording"@)),
        json_string(quoted("stopping"@)),
        json_string(quoted("completed"@)),
        json_string(quoted("failed"@)),
{
    reveal_strlit("system");
    reveal_strlit("microphone");
    reveal_strlit("both");
    reveal_strlit("system.caf");
    reveal_strlit("mic.caf");
    reveal_strlit("system.wav");
    reveal_strlit("mic.wav");
    reveal_strlit("mixed.caf");
    reveal_strlit("mixed.wav");
    reveal_strlit("idle");
    reveal_strlit("recording");
    reveal_strlit("stopping");
    reveal_strlit("completed");
    reveal_strlit("failed");
    lemma_plain_body("system"@);
    lemma_plain_body("microphone"@);
    lemma_plain_body("both"@);
    lemma_plain_body("system.caf"@);
    lemma_plain_body("mic.caf"@);
    lemma_plain_body("system.wav"@);
    lemma_plain_body("mic.wav"@);
    lemma_plain_body("mixed.caf"@);
    lemma_plain_body("mixed.wav"@);
    lemma_plain_body("idle"@);
    lemma_plain_body("recording"@);
    lemma_plain_body("stopping"@);
    lemma_plain_body("completed"@);
    lemma_plain_body("failed"@);
    lemma_quoted_string("system"@);
    lemma_quoted_string("microphone"@);
    lemma_quoted_string("both"@);
    lemma_quoted_string("system.caf"@);
    lemma_quoted_string("mic.caf"@);
    lemma_quoted_string("system.wav"@);
    lemma_quoted_string("mic.wav"@);
    lemma_quoted_string("mixed.caf"@);
    lemma_quoted_string("mixed.wav"@);
    lemma_quoted_string("idle"@);
    lemma_quoted_string("recording"@);
    lemma_quoted_string("stopping"@);
    lemma_quoted_string("completed"@);
    lemma_quoted_string("failed"@);
}

/// The keys of `session.json` are JSON strings once quoted.
proof fn lemma_key_strings()
    ensures
        forall|i: int| 0 <= i < 11 ==> json_string(quoted(#[trigger] json_keys()[i])),
{
    let keys = json_keys();
    reveal_strlit("session_id");
    reveal_strlit("title");
    reveal_strlit("state");
    reveal_strlit("capture_mode");
    reveal_strlit("started_at_unix_seconds");
    reveal_strlit("ended_at_unix_seconds");
    reveal_strlit("duration_seconds");
    reveal_strlit("recovery_reason");
    reveal_strlit("microphone_track");
    reveal_strlit("system_audio_track");
    reveal_strlit("mixed_audio_track");
    assert forall|i: int| 0 <= i < 11 implies json_string(quoted(#[trigger] keys[i])) by {
        lemma_plain_body(keys[i]);
        lemma_quoted_string(keys[i]);
    }
}

/// The value of a track field is a JSON value.
proof fn lemma_track_value_json(mode: Option<CaptureMode>, format: TrackFormat, prefix: Seq<char>)
    ensures
        json_value(track_value(enabled_files(mode, format), prefix)),
{
    lemma_literal_strings();
    lemma_first_with_prefix_in(enabled_files(mode, format), prefix);
}

/// The first file with a prefix is one of the files.
proof fn lemma_first_with_prefix_in(files: Seq<Seq<char>>, prefix: Seq<char>)
    ensures
        first_with_prefix(files, prefix) matches Some(f) ==> exists|i: int|
            0 <= i < files.len() && files[i] == f,
    decreases files.len(),
{
    if files.len() > 0 {
        lemma_first_with_prefix_in(files.drop_first(), prefix);
        if let Some(f) = first_with_prefix(files.drop_first(), prefix) {
            let i = choose|i: int| 0 <= i < files.len() - 1 && files.drop_first()[i] == f;
            assert(files[i + 1] == f);
        }
    }
}

/// A number or `null` is a JSON value.
proof fn lemma_number_json(o: Option<nat>)
    ensures
        json_value(number_or_null(o)),
{
    if let Some(n) = o {
        lemma_decimal_natural(n);
    }
}

/// `session.json` is valid JSON whenever the session's id, title and reason hold
/// no control character but line feed, carriage return and tab: it is one object
/// (`document` lays its members out one per line between braces, separated by
/// commas) whose member names are the quoted keys of `json_keys`, in order, and
/// whose member values are JSON strings, numbers or `null`.
pub proof fn lemma_session_json_is_valid(
    s: SessionView,
    mixed_caf_exists: bool,
    mixed_wav_exists: bool,
    format: TrackFormat,
)
    requires
        escapable_text(s.id),
        escapable_text(s.title),
        s.recovery_reason matches Some(r) ==> escapable_text(r),
    ensures
        session_json(s, mixed_track(mixed_caf_exists, mixed_wav_exists), format) == document(
            json_values(s, mixed_track(mixed_caf_exists, mixed_wav_exists), format),
        ),
        forall|i: int| 0 <= i < 11 ==> json_string(quoted(#[trigger] json_keys()[i])),
        forall|i: int|
            0 <= i < 11 ==> json_value(
                #[trigger] json_values(s, mixed_track(mixed_caf_exists, mixed_wav_exists), format)[i],
            ),
{
    let mixed = mixed_track(mixed_caf_exists, mixed_wav_exists);
    let v = json_values(s, mixed, format);
    lemma_json_is_document(s, mixed, format);
    lemma_key_strings();
    lemma_literal_strings();
    lemma_escaped_body(s.id);
    lemma_quoted_string(escape_json(s.id));
    lemma_escaped_body(s.title);
    lemma_quoted_string(escape_json(s.title));
    if let Some(r) = s.recovery_reason {
        lemma_escaped_body(r);
        lemma_quoted_string(escape_json(r));
    }
    lemma_decimal_natural(s.started_at as nat);
    lemma_number_json(
        match s.ended_at {
            Some(t) => Some(t as nat),
            None => None,
        },
    );
    lemma_number_json(
        match s.ended_at {
            Some(t) => Some(duration(s.started_at, t)),
            None => None,
        },
    );
    lemma_track_value_json(s.capture_mode, format, "mic."@);
    lemma_track_value_json(s.capture_mode, format, "system."@);
    assert forall|i: int| 0 <= i < 11 implies json_value(#[trigger] v[i]) by {}
}

} // verus!
