//! Which `session.json` documents crash recovery rewrites, and what it makes of them.
//!
//! The document a session writes is a sequence of lines, one field per line.
//! The recovery patterns (`"state": "recording"`, `"state": "stopping"` and the
//! `null` end time and reason) hold no line break, so each can only be found
//! inside one line, and the escaping of strings keeps each out of every line
//! but the one of its own field.
use vstd::prelude::*;
use crate::meeting::{
    enabled_files, escape_char, escape_json, failed_state_line, first_with_prefix,
    interrupted_reason, mixed_track, quoted, recording_state_line, recovered_json, session_json,
    stopping_state_line, string_or_null, unescape_json, lemma_escape_round_trip, number_or_null,
    track_value, duration, SessionState,
    SessionView,
};
use crate::native_helper::{CaptureMode, TrackFormat};
use crate::text::{
    all_lines, concat, contains, decimal, digit_char, lacks, lemma_occurrence_in_lines,
    lemma_occurrence_in_part, lemma_replace_absent, lemma_replace_in_lines, occurs_at,
    replace_all,
};

verus! {

// ---------------------------------------------------------------------------
// Field lines
// ---------------------------------------------------------------------------

/// Every double quote inside `v`, but for its first and last character, follows a backslash.
pub open spec fn quote_safe(v: Seq<char>) -> bool {
    forall|j: int| 0 < j < v.len() - 1 && #[trigger] v[j] == '"' ==> v[j - 1] == '\\'
}

/// `tail` ends a field line: `,` and a line break, or a line break alone.
pub open spec fn field_tail(tail: Seq<char>) -> bool {
    &&& tail.len() > 0
    &&& tail.len() <= 2
    &&& tail[0] != ':'
    &&& lacks(tail, '"')
    &&& tail.last() == '\n'
}

/// `key` can name a field: it is not empty, holds no double quote, and does not end
/// in a space or a backslash.
pub open spec fn field_key(key: Seq<char>) -> bool {
    &&& key.len() > 0
    &&& lacks(key, '"')
    &&& key.last() != ' '
    &&& key.last() != '\\'
}

/// The start of the line of the field `key`: two spaces, the quoted key, a colon and a space.
pub open spec fn head_of(key: Seq<char>) -> Seq<char> {
    seq![' ', ' ', '"'] + key + seq!['"', ':', ' ']
}

/// The quoted `key`, a colon, a space and `value`: the text a recovery pattern searches for.
pub open spec fn keyed(key: Seq<char>, value: Seq<char>) -> Seq<char> {
    seq!['"'] + key + seq!['"', ':', ' '] + value
}

/// A pattern that opens with the quoted `key` and a colon can only be found at the start
/// of the key of the line of that same key.
proof fn lemma_key_occurrence(
    line_key: Seq<char>,
    v: Seq<char>,
    tail: Seq<char>,
    key: Seq<char>,
    w: Seq<char>,
    k: int,
)
    requires
        lacks(line_key, '"'),
        field_key(key),
        quote_safe(v),
        field_tail(tail),
        occurs_at(head_of(line_key) + v + tail, keyed(key, w), k),
    ensures
        k == 2,
        line_key == key,
{
    let line = head_of(line_key) + v + tail;
    let p = keyed(key, w);
    let h = line_key.len() + 6;
    let n = p.len() as int;
    let kl = key.len() as int;
    let window = line.subrange(k, k + n);
    assert(window == p);
    let m = k + kl + 1;
    assert(line[m] == '"') by {
        assert(window[kl + 1] == p[kl + 1]);
    }
    assert(line[m - 1] == key.last()) by {
        assert(window[kl] == p[kl]);
    }
    assert(line[m + 1] == ':') by {
        assert(window[kl + 2] == p[kl + 2]);
    }
    assert(line[k] == '"') by {
        assert(window[0] == p[0]);
    }
    // The quote at `m` closes the key of the line.
    if m < h - 3 {
        if m < 3 {
            assert(line[m - 1] == ' ');
        } else {
            assert(line[m] == line_key[m - 3]);
        }
        assert(false);
    } else if m == h - 2 || m == h - 1 {
        assert(false);
    } else if m >= h && m < h + v.len() {
        let j = m - h;
        assert(line[m] == v[j]);
        if j == 0 {
            assert(line[m - 1] == ' ');
        } else if j == v.len() - 1 {
            assert(line[m + 1] == tail[0]);
        } else {
            assert(line[m - 1] == v[j - 1]);
        }
        assert(false);
    } else if m >= h + v.len() {
        assert(line[m] == tail[m - h - v.len()]);
        assert(false);
    }
    assert(m == h - 3);
    // The quote at `k` opens it.
    if k < 2 {
        assert(false);
    } else if k > 2 {
        assert(line[k] == line_key[k - 3]);
        assert(false);
    }
    assert forall|i: int| 0 <= i < kl implies line_key[i] == key[i] by {
        assert(window[i + 1] == p[i + 1]);
        assert(line[i + 3] == line_key[i]);
    }
    assert(line_key =~= key);
}

/// The line of another field holds no pattern that opens with the quoted `key`.
proof fn lemma_other_key_line(
    line_key: Seq<char>,
    v: Seq<char>,
    tail: Seq<char>,
    key: Seq<char>,
    w: Seq<char>,
)
    requires
        lacks(line_key, '"'),
        line_key != key,
        field_key(key),
        quote_safe(v),
        field_tail(tail),
    ensures
        !contains(head_of(line_key) + v + tail, keyed(key, w)),
{
    if contains(head_of(line_key) + v + tail, keyed(key, w)) {
        let k = choose|k: int| occurs_at(head_of(line_key) + v + tail, keyed(key, w), k);
        lemma_key_occurrence(line_key, v, tail, key, w, k);
    }
}

/// In the line of `key`, replacing `"key": w` by `"key": w2` replaces the value `w`
/// by `w2` and leaves any other value alone, when the character at `d` tells `w`
/// apart from every other value the line can hold.
proof fn lemma_replace_value(
    key: Seq<char>,
    v: Seq<char>,
    tail: Seq<char>,
    w: Seq<char>,
    w2: Seq<char>,
    d: int,
)
    requires
        field_key(key),
        quote_safe(v),
        field_tail(tail),
        0 <= d < w.len(),
        d < v.len(),
        v[d] == w[d] ==> v == w,
    ensures
        replace_all(head_of(key) + v + tail, keyed(key, w), keyed(key, w2)) == head_of(key) + (
        if v == w {
            w2
        } else {
            v
        }) + tail,
{
    let line = head_of(key) + v + tail;
    let p = keyed(key, w);
    let r = keyed(key, w2);
    let n = p.len() as int;
    let kl = key.len() as int;
    if v == w {
        assert(line =~= seq![' ', ' '] + p + tail);
        lemma_replace_after_indent(p, r, tail);
        assert(seq![' ', ' '] + r + tail =~= head_of(key) + w2 + tail);
    } else {
        assert(!contains(line, p)) by {
            if contains(line, p) {
                let k = choose|k: int| occurs_at(line, p, k);
                lemma_key_occurrence(key, v, tail, key, w, k);
                assert(line.subrange(k, k + n)[kl + 4 + d] == p[kl + 4 + d]);
                assert(line[kl + 6 + d] == v[d]);
            }
        }
        lemma_replace_absent(line, p, r);
    }
}

/// Replacing a pattern that follows two spaces and is followed by less than itself.
proof fn lemma_replace_after_indent(p: Seq<char>, r: Seq<char>, tail: Seq<char>)
    requires
        p.len() > tail.len(),
        p.len() > 0,
        p[0] != ' ',
    ensures
        replace_all(seq![' ', ' '] + p + tail, p, r) == seq![' ', ' '] + r + tail,
{
    let n = p.len() as int;
    let line = seq![' ', ' '] + p + tail;
    let l1 = line.subrange(1, line.len() as int);
    let l2 = l1.subrange(1, l1.len() as int);
    assert(l2 =~= p + tail);
    assert(line.subrange(0, n)[0] == ' ');
    assert(l1.subrange(0, n)[0] == ' ');
    assert(replace_all(line, p, r) == seq![line[0]] + replace_all(l1, p, r));
    assert(replace_all(l1, p, r) == seq![l1[0]] + replace_all(l2, p, r));
    assert(l2.subrange(0, n) =~= p);
    assert(l2.subrange(n, l2.len() as int) =~= tail);
    assert(replace_all(l2, p, r) == r + replace_all(tail, p, r));
    assert(replace_all(tail, p, r) == tail);
    assert(seq![line[0]] + (seq![l1[0]] + (r + tail)) =~= seq![' ', ' '] + r + tail);
}

// ---------------------------------------------------------------------------
// Values
// ---------------------------------------------------------------------------

/// Inside an escaped string every double quote follows a backslash.
proof fn lemma_escaped_quotes(s: Seq<char>)
    ensures
        forall|j: int|
            0 <= j < escape_json(s).len() && #[trigger] escape_json(s)[j] == '"' ==> j > 0
                && escape_json(s)[j - 1] == '\\',
    decreases s.len(),
{
    if s.len() > 0 {
        lemma_escaped_quotes(s.drop_last());
        let a = escape_json(s.drop_last());
        let b = escape_char(s.last());
        assert(escape_json(s) == a + b);
        assert forall|j: int|
            0 <= j < escape_json(s).len() && #[trigger] escape_json(s)[j] == '"' implies j > 0
                && escape_json(s)[j - 1] == '\\' by {
            if j >= a.len() {
                assert(escape_json(s)[j] == b[j - a.len()]);
                assert(escape_json(s)[j - 1] == (a + b)[j - 1]);
            } else {
                assert(escape_json(s)[j] == a[j]);
                assert(escape_json(s)[j - 1] == a[j - 1]);
            }
        }
    }
}

/// A quoted escaped string is quote safe.
proof fn lemma_quoted_escaped(s: Seq<char>)
    ensures
        quote_safe(quoted(escape_json(s))),
{
    lemma_escaped_quotes(s);
    let e = escape_json(s);
    let v = quoted(e);
    assert forall|j: int| 0 < j < v.len() - 1 && #[trigger] v[j] == '"' implies v[j - 1] == '\\' by {
        assert(v[j] == e[j - 1]);
        assert(v[j - 1] == e[j - 2]);
    }
}

/// A quoted string without double quotes is quote safe.
proof fn lemma_quoted_plain(s: Seq<char>)
    requires
        lacks(s, '"'),
    ensures
        quote_safe(quoted(s)),
{
    let v = quoted(s);
    assert forall|j: int| 0 < j < v.len() - 1 && #[trigger] v[j] == '"' implies v[j - 1] == '\\' by {
        assert(v[j] == s[j - 1]);
    }
}

/// Every character of a decimal representation is a digit.
proof fn lemma_decimal_digits(n: nat)
    ensures
        forall|i: int| 0 <= i < decimal(n).len() ==> '0' <= #[trigger] decimal(n)[i] <= '9',
        decimal(n).len() > 0,
    decreases n,
{
    if n >= 10 {
        lemma_decimal_digits(n / 10);
        assert(decimal(n) == decimal(n / 10).push(digit_char(n % 10)));
    }
}

/// Decimal digits hold no double quote.
proof fn lemma_decimal_lacks_quote(n: nat)
    ensures
        lacks(decimal(n), '"'),
{
    lemma_decimal_digits(n);
}

/// The literals that stand as values in `session.json` hold no double quote.
proof fn lemma_literals_lack_quote()
    ensures
        lacks("null"@, '"'),
        lacks("system"@, '"'),
        lacks("microphone"@, '"'),
        lacks("both"@, '"'),
        lacks("system.caf"@, '"'),
        lacks("mic.caf"@, '"'),
        lacks("system.wav"@, '"'),
        lacks("mic.wav"@, '"'),
        lacks("mixed.caf"@, '"'),
        lacks("mixed.wav"@, '"'),
        lacks("idle"@, '"'),
        lacks("recording"@, '"'),
        lacks("stopping"@, '"'),
        lacks("completed"@, '"'),
        lacks("failed"@, '"'),
{
    reveal_strlit("null");
    reveal_strlit("system");
    reveal_strlit("microphone");
    reveal_strlit("both");
    reveal_strlit("system.caf");
    reveal_strlit("mic.caf");
    reveal_strlit("system.wav");
    reveal_strlit("mic.wav");
    reveal_strlit("mixed.caf");
    reveal_strlit("mixed.wav");
    reveal_strlit("idle");
    reveal_strlit("recording");
    reveal_strlit("stopping");
    reveal_strlit("completed");
    reveal_strlit("failed");
}

/// The first file with a prefix is one of the files.
proof fn lemma_first_with_prefix_member(files: Seq<Seq<char>>, prefix: Seq<char>)
    ensures
        first_with_prefix(files, prefix) matches Some(f) ==> exists|i: int|
            0 <= i < files.len() && files[i] == f,
    decreases files.len(),
{
    if files.len() > 0 {
        lemma_first_with_prefix_member(files.drop_first(), prefix);
        if let Some(f) = first_with_prefix(files.drop_first(), prefix) {
            let i = choose|i: int| 0 <= i < files.len() - 1 && files.drop_first()[i] == f;
            assert(files[i + 1] == f);
        }
    }
}

/// The value of a track field is quote safe.
proof fn lemma_track_value_safe(mode: Option<CaptureMode>, format: TrackFormat, prefix: Seq<char>)
    ensures
        quote_safe(track_value(enabled_files(mode, format), prefix)),
{
    lemma_literals_lack_quote();
    let files = enabled_files(mode, format);
    lemma_first_with_prefix_member(files, prefix);
    match first_with_prefix(files, prefix) {
        Some(f) => {
            let i = choose|i: int| 0 <= i < files.len() && files[i] == f;
            assert(lacks(f, '"'));
            lemma_quoted_plain(f);
        },
        None => {},
    }
}

/// A value that is a quoted plain string or `null`.
proof fn lemma_plain_or_null_safe(o: Option<Seq<char>>)
    requires
        o matches Some(t) ==> lacks(t, '"'),
    ensures
        quote_safe(string_or_null(o)),
{
    lemma_literals_lack_quote();
    if let Some(t) = o {
        lemma_quoted_plain(t);
    }
}

/// A value that is a number or `null`.
proof fn lemma_number_or_null_safe(o: Option<nat>)
    ensures
        quote_safe(number_or_null(o)),
{
    lemma_literals_lack_quote();
    if let Some(n) = o {
        lemma_decimal_lacks_quote(n);
    }
}

// ---------------------------------------------------------------------------
// Documents
// ---------------------------------------------------------------------------

/// The keys of the fields of `session.json`, in order.
pub open spec fn json_keys() -> Seq<Seq<char>> {
    seq![
        "session_id"@,
        "title"@,
        "state"@,
        "capture_mode"@,
        "started_at_unix_seconds"@,
        "ended_at_unix_seconds"@,
        "duration_seconds"@,
        "recovery_reason"@,
        "microphone_track"@,
        "system_audio_track"@,
        "mixed_audio_track"@,
    ]
}

/// What ends line `i` of a document: the last field has no comma after it.
pub open spec fn line_tail(i: int) -> Seq<char> {
    if i == 11 {
        seq!['\n']
    } else {
        seq![',', '\n']
    }
}

/// The lines of a document whose fields, keyed as `json_keys` says, hold `values`.
pub open spec fn document_lines(values: Seq<Seq<char>>) -> Seq<Seq<char>> {
    Seq::new(
        13,
        |i: int|
            if i == 0 {
                seq!['{', '\n']
            } else if i == 12 {
                seq!['}', '\n']
            } else {
                head_of(json_keys()[i - 1]) + values[i - 1] + line_tail(i)
            },
    )
}

/// A document whose fields, keyed as `json_keys` says, hold `values`.
pub open spec fn document(values: Seq<Seq<char>>) -> Seq<char> {
    concat(document_lines(values))
}

/// The values of the fields of a session's `session.json`.
pub open spec fn json_values(s: SessionView, mixed: Option<Seq<char>>, format: TrackFormat) -> Seq<
    Seq<char>,
> {
    seq![
        quoted(escape_json(s.id)),
        quoted(escape_json(s.title)),
        quoted(s.state.name()),
        string_or_null(
            match s.capture_mode {
                Some(m) => Some(m.name()),
                None => None,
            },
        ),
        decimal(s.started_at as nat),
        number_or_null(
            match s.ended_at {
                Some(t) => Some(t as nat),
                None => None,
            },
        ),
        number_or_null(
            match s.ended_at {
                Some(t) => Some(duration(s.started_at, t)),
                None => None,
            },
        ),
        string_or_null(
            match s.recovery_reason {
                Some(r) => Some(escape_json(r)),
                None => None,
            },
        ),
        track_value(enabled_files(s.capture_mode, format), "mic."@),
        track_value(enabled_files(s.capture_mode, format), "system."@),
        string_or_null(mixed),
    ]
}

/// Each value may stand in a field line.
pub open spec fn safe_values(values: Seq<Seq<char>>) -> bool {
    &&& values.len() == 11
    &&& forall|i: int| 0 <= i < 11 ==> quote_safe(#[trigger] values[i])
}

/// The keys name fields, and no two are the same.
proof fn lemma_json_keys()
    ensures
        json_keys().len() == 11,
        forall|i: int| 0 <= i < 11 ==> field_key(#[trigger] json_keys()[i]),
        forall|i: int| 0 <= i < 11 ==> lacks(#[trigger] json_keys()[i], '\n'),
        forall|i: int, j: int|
            0 <= i < 11 && 0 <= j < 11 && #[trigger] json_keys()[i] == #[trigger] json_keys()[j]
                ==> i == j,
        json_keys()[2] == "state"@,
        json_keys()[5] == "ended_at_unix_seconds"@,
        json_keys()[7] == "recovery_reason"@,
{
    reveal_strlit("session_id");
    reveal_strlit("title");
    reveal_strlit("state");
    reveal_strlit("capture_mode");
    reveal_strlit("started_at_unix_seconds");
    reveal_strlit("ended_at_unix_seconds");
    reveal_strlit("duration_seconds");
    reveal_strlit("recovery_reason");
    reveal_strlit("microphone_track");
    reveal_strlit("system_audio_track");
    reveal_strlit("mixed_audio_track");
    let keys = json_keys();
    assert forall|i: int, j: int|
        0 <= i < 11 && 0 <= j < 11 && #[trigger] keys[i] == #[trigger] keys[j] implies i == j by {
        if i != j {
            if keys[i].len() == keys[j].len() {
                assert(keys[i][0] != keys[j][0]);
            }
        }
    }
}

/// The lines of a document end with line breaks.
proof fn lemma_document_all_lines(values: Seq<Seq<char>>)
    ensures
        all_lines(document_lines(values)),
{
    let l = document_lines(values);
    assert forall|i: int| 0 <= i < l.len() implies #[trigger] l[i].len() > 0 && l[i].last()
        == '\n' by {
        if 0 < i < 12 {
            assert(l[i].last() == line_tail(i).last());
        }
    }
}

/// A pattern that opens with the quoted key of field `j` can only be found in the line
/// of that field.
proof fn lemma_pattern_in_document(values: Seq<Seq<char>>, j: int, w: Seq<char>)
    requires
        safe_values(values),
        0 <= j < 11,
        lacks(w, '\n'),
    ensures
        forall|i: int|
            0 <= i < 13 && i != j + 1 ==> !contains(
                #[trigger] document_lines(values)[i],
                keyed(json_keys()[j], w),
            ),
        contains(document(values), keyed(json_keys()[j], w)) <==> contains(
            document_lines(values)[j + 1],
            keyed(json_keys()[j], w),
        ),
{
    lemma_json_keys();
    let l = document_lines(values);
    let key = json_keys()[j];
    let p = keyed(key, w);
    assert forall|i: int| 0 <= i < 13 && i != j + 1 implies !contains(#[trigger] l[i], p) by {
        if i == 0 || i == 12 {
            if contains(l[i], p) {
                let k = choose|k: int| occurs_at(l[i], p, k);
            }
        } else {
            lemma_other_key_line(json_keys()[i - 1], values[i - 1], line_tail(i), key, w);
        }
    }
    assert(lacks(p, '\n')) by {
        assert forall|i: int| 0 <= i < p.len() implies p[i] != '\n' by {
            if 1 <= i < key.len() + 1 {
                assert(p[i] == key[i - 1]);
                assert(lacks(key, '\n'));
            } else if i >= key.len() + 4 {
                assert(p[i] == w[i - key.len() - 4]);
            }
        }
    }
    lemma_document_all_lines(values);
    if contains(document(values), p) {
        lemma_occurrence_in_lines(l, p);
    }
    if contains(l[j + 1], p) {
        lemma_occurrence_in_part(l, p, j + 1);
    }
}

/// Replacing `"key": w` in a document, where `key` is the key of field `j`, changes the
/// line of that field alone.
proof fn lemma_replace_in_document(
    values: Seq<Seq<char>>,
    j: int,
    w: Seq<char>,
    w2: Seq<char>,
    new_value: Seq<char>,
)
    requires
        safe_values(values),
        0 <= j < 11,
        lacks(w, '\n'),
        replace_all(
            document_lines(values)[j + 1],
            keyed(json_keys()[j], w),
            keyed(json_keys()[j], w2),
        ) == head_of(json_keys()[j]) + new_value + line_tail(j + 1),
    ensures
        replace_all(document(values), keyed(json_keys()[j], w), keyed(json_keys()[j], w2))
            == document(values.update(j, new_value)),
{
    let key = json_keys()[j];
    let p = keyed(key, w);
    let r = keyed(key, w2);
    let l = document_lines(values);
    lemma_pattern_in_document(values, j, w);
    lemma_document_all_lines(values);
    assert(lacks(p, '\n')) by {
        assert forall|i: int| 0 <= i < p.len() implies p[i] != '\n' by {
            lemma_json_keys();
            if 1 <= i < key.len() + 1 {
                assert(p[i] == key[i - 1]);
                assert(lacks(key, '\n'));
            } else if i >= key.len() + 4 {
                assert(p[i] == w[i - key.len() - 4]);
            }
        }
    }
    lemma_replace_in_lines(l, p, r);
    let mapped = l.map_values(|line: Seq<char>| replace_all(line, p, r));
    let updated = document_lines(values.update(j, new_value));
    assert forall|i: int| 0 <= i < 13 implies #[trigger] mapped[i] == updated[i] by {
        if i != j + 1 {
            lemma_replace_absent(l[i], p, r);
        }
    }
    assert(mapped =~= updated);
}

/// `session.json` is the document of the session's values.
pub proof fn lemma_json_is_document(s: SessionView, mixed: Option<Seq<char>>, format: TrackFormat)
    ensures
        session_json(s, mixed, format) == document(json_values(s, mixed, format)),
{
    let v = json_values(s, mixed, format);
    let l = document_lines(v);
    lemma_lines_in_order(l);
    lemma_json_heads();
    let c = ",\n"@;
    let q1 = "{\n"@ + "  \"session_id\": "@ + v[0] + c;
    let q2 = q1 + "  \"title\": "@ + v[1] + c;
    let q3 = q2 + "  \"state\": "@ + v[2] + c;
    let q4 = q3 + "  \"capture_mode\": "@ + v[3] + c;
    let q5 = q4 + "  \"started_at_unix_seconds\": "@ + v[4] + c;
    let q6 = q5 + "  \"ended_at_unix_seconds\": "@ + v[5] + c;
    let q7 = q6 + "  \"duration_seconds\": "@ + v[6] + c;
    let q8 = q7 + "  \"recovery_reason\": "@ + v[7] + c;
    let q9 = q8 + "  \"microphone_track\": "@ + v[8] + c;
    let q10 = q9 + "  \"system_audio_track\": "@ + v[9] + c;
    let q11 = q10 + "  \"mixed_audio_track\": "@ + v[10] + "\n"@;
    assert(session_json(s, mixed, format) == q11 + "}\n"@);
    let r0 = l[0];
    let r1 = r0 + l[1];
    let r2 = r1 + l[2];
    let r3 = r2 + l[3];
    let r4 = r3 + l[4];
    let r5 = r4 + l[5];
    let r6 = r5 + l[6];
    let r7 = r6 + l[7];
    let r8 = r7 + l[8];
    let r9 = r8 + l[9];
    let r10 = r9 + l[10];
    let r11 = r10 + l[11];
    assert(q1 == r1) by { lemma_regroup_line(r0, head_of(json_keys()[0]), v[0], c); }
    assert(q2 == r2) by { lemma_regroup_line(r1, head_of(json_keys()[1]), v[1], c); }
    assert(q3 == r3) by { lemma_regroup_line(r2, head_of(json_keys()[2]), v[2], c); }
    assert(q4 == r4) by { lemma_regroup_line(r3, head_of(json_keys()[3]), v[3], c); }
    assert(q5 == r5) by { lemma_regroup_line(r4, head_of(json_keys()[4]), v[4], c); }
    assert(q6 == r6) by { lemma_regroup_line(r5, head_of(json_keys()[5]), v[5], c); }
    assert(q7 == r7) by { lemma_regroup_line(r6, head_of(json_keys()[6]), v[6], c); }
    assert(q8 == r8) by { lemma_regroup_line(r7, head_of(json_keys()[7]), v[7], c); }
    assert(q9 == r9) by { lemma_regroup_line(r8, head_of(json_keys()[8]), v[8], c); }
    assert(q10 == r10) by { lemma_regroup_line(r9, head_of(json_keys()[9]), v[9], c); }
    assert(q11 == r11) by {
        lemma_regroup_line(r10, head_of(json_keys()[10]), v[10], "\n"@);
    }
}

/// A line appended in three pieces is the line appended at once.
proof fn lemma_regroup_line(before: Seq<char>, head: Seq<char>, value: Seq<char>, tail: Seq<char>)
    ensures
        before + head + value + tail == before + (head + value + tail),
{
    assert(before + head + value + tail =~= before + (head + value + tail));
}

/// The thirteen lines of a document, one after the other.
proof fn lemma_lines_in_order(l: Seq<Seq<char>>)
    requires
        l.len() == 13,
    ensures
        concat(l) == l[0] + l[1] + l[2] + l[3] + l[4] + l[5] + l[6] + l[7] + l[8] + l[9] + l[10]
            + l[11] + l[12],
{
    assert forall|i: int| 0 < i <= 13 implies concat(#[trigger] l.take(i)) == concat(l.take(i - 1))
        + l[i - 1] by {
        assert(l.take(i).drop_last() == l.take(i - 1));
    }
    assert(l.take(13) == l);
    assert(concat(l.take(0)) == Seq::<char>::empty());
    assert(concat(l.take(1)) == l[0]) by {
        assert(Seq::<char>::empty() + l[0] == l[0]);
    }
}

/// The literal pieces of `session.json` are the heads, tails and braces of the document.
proof fn lemma_json_heads()
    ensures
        "  \"session_id\": "@ == head_of(json_keys()[0]),
        "  \"title\": "@ == head_of(json_keys()[1]),
        "  \"state\": "@ == head_of(json_keys()[2]),
        "  \"capture_mode\": "@ == head_of(json_keys()[3]),
        "  \"started_at_unix_seconds\": "@ == head_of(json_keys()[4]),
        "  \"ended_at_unix_seconds\": "@ == head_of(json_keys()[5]),
        "  \"duration_seconds\": "@ == head_of(json_keys()[6]),
        "  \"recovery_reason\": "@ == head_of(json_keys()[7]),
        "  \"microphone_track\": "@ == head_of(json_keys()[8]),
        "  \"system_audio_track\": "@ == head_of(json_keys()[9]),
        "  \"mixed_audio_track\": "@ == head_of(json_keys()[10]),
        ",\n"@ == seq![',', '\n'],
        "\n"@ == seq!['\n'],
        "{\n"@ == seq!['{', '\n'],
        "}\n"@ == seq!['}', '\n'],
{
    reveal_strlit("session_id");
    reveal_strlit("title");
    reveal_strlit("state");
    reveal_strlit("capture_mode");
    reveal_strlit("started_at_unix_seconds");
    reveal_strlit("ended_at_unix_seconds");
    reveal_strlit("duration_seconds");
    reveal_strlit("recovery_reason");
    reveal_strlit("microphone_track");
    reveal_strlit("system_audio_track");
    reveal_strlit("mixed_audio_track");
    reveal_strlit("  \"session_id\": ");
    reveal_strlit("  \"title\": ");
    reveal_strlit("  \"state\": ");
    reveal_strlit("  \"capture_mode\": ");
    reveal_strlit("  \"started_at_unix_seconds\": ");
    reveal_strlit("  \"ended_at_unix_seconds\": ");
    reveal_strlit("  \"duration_seconds\": ");
    reveal_strlit("  \"recovery_reason\": ");
    reveal_strlit("  \"microphone_track\": ");
    reveal_strlit("  \"system_audio_track\": ");
    reveal_strlit("  \"mixed_audio_track\": ");
    reveal_strlit(",\n");
    reveal_strlit("\n");
    reveal_strlit("{\n");
    reveal_strlit("}\n");
    assert("  \"session_id\": "@ =~= head_of(json_keys()[0]));
    assert("  \"title\": "@ =~= head_of(json_keys()[1]));
    assert("  \"state\": "@ =~= head_of(json_keys()[2]));
    assert("  \"capture_mode\": "@ =~= head_of(json_keys()[3]));
    assert("  \"started_at_unix_seconds\": "@ =~= head_of(json_keys()[4]));
    assert("  \"ended_at_unix_seconds\": "@ =~= head_of(json_keys()[5]));
    assert("  \"duration_seconds\": "@ =~= head_of(json_keys()[6]));
    assert("  \"recovery_reason\": "@ =~= head_of(json_keys()[7]));
    assert("  \"microphone_track\": "@ =~= head_of(json_keys()[8]));
    assert("  \"system_audio_track\": "@ =~= head_of(json_keys()[9]));
    assert("  \"mixed_audio_track\": "@ =~= head_of(json_keys()[10]));
}

// ---------------------------------------------------------------------------
// The fields recovery looks at
// ---------------------------------------------------------------------------

/// The line of `key` holds `"key": w` exactly when its value is `w`, when the character
/// at `d` tells `w` apart from every other value the line can hold.
proof fn lemma_value_line_contains(key: Seq<char>, v: Seq<char>, tail: Seq<char>, w: Seq<char>, d: int)
    requires
        field_key(key),
        quote_safe(v),
        field_tail(tail),
        0 <= d < w.len(),
        d < v.len(),
        v[d] == w[d] ==> v == w,
    ensures
        contains(head_of(key) + v + tail, keyed(key, w)) <==> v == w,
{
    let line = head_of(key) + v + tail;
    let p = keyed(key, w);
    let n = p.len() as int;
    let kl = key.len() as int;
    if v == w {
        assert(line.subrange(2, 2 + n) =~= p);
        assert(occurs_at(line, p, 2));
    } else if contains(line, p) {
        let k = choose|k: int| occurs_at(line, p, k);
        lemma_key_occurrence(key, v, tail, key, w, k);
        assert(line.subrange(k, k + n)[kl + 4 + d] == p[kl + 4 + d]);
        assert(line[kl + 6 + d] == v[d]);
    }
}

/// A value without double quotes is quote safe.
proof fn lemma_plain_safe(v: Seq<char>)
    requires
        lacks(v, '"'),
    ensures
        quote_safe(v),
{
}

/// The values of a session's fields are quote safe.
proof fn lemma_json_values_safe(s: SessionView, mixed: Option<Seq<char>>, format: TrackFormat)
    requires
        mixed matches Some(t) ==> lacks(t, '"'),
    ensures
        safe_values(json_values(s, mixed, format)),
{
    let v = json_values(s, mixed, format);
    lemma_literals_lack_quote();
    lemma_quoted_escaped(s.id);
    lemma_quoted_escaped(s.title);
    lemma_quoted_plain(s.state.name());
    lemma_plain_or_null_safe(
        match s.capture_mode {
            Some(m) => Some(m.name()),
            None => None,
        },
    );
    lemma_decimal_lacks_quote(s.started_at as nat);
    lemma_plain_safe(decimal(s.started_at as nat));
    lemma_number_or_null_safe(
        match s.ended_at {
            Some(t) => Some(t as nat),
            None => None,
        },
    );
    lemma_number_or_null_safe(
        match s.ended_at {
            Some(t) => Some(duration(s.started_at, t)),
            None => None,
        },
    );
    match s.recovery_reason {
        Some(r) => lemma_quoted_escaped(r),
        None => {},
    }
    lemma_track_value_safe(s.capture_mode, format, "mic."@);
    lemma_track_value_safe(s.capture_mode, format, "system."@);
    lemma_plain_or_null_safe(mixed);
    assert forall|i: int| 0 <= i < 11 implies quote_safe(#[trigger] v[i]) by {
    }
}

/// The quoted name of a state is told apart by its second character.
proof fn lemma_state_values(st: SessionState)
    ensures
        quoted(st.name()).len() >= 3,
        quoted("recording"@).len() >= 3 && quoted("recording"@)[1] == 'r',
        quoted("stopping"@).len() >= 3 && quoted("stopping"@)[1] == 's',
        quoted("failed"@).len() >= 3 && quoted("failed"@)[1] == 'f',
        quoted(st.name())[1] == 'r' ==> quoted(st.name()) == quoted("recording"@),
        quoted(st.name())[1] == 's' ==> quoted(st.name()) == quoted("stopping"@),
        quote_safe(quoted("failed"@)),
        st.name() == "recording"@ <==> st is Recording,
        st.name() == "stopping"@ <==> st is Stopping,
        quoted(st.name()) == quoted("recording"@) <==> st is Recording,
        quoted(st.name()) == quoted("stopping"@) <==> st is Stopping,
{
    reveal_strlit("idle");
    reveal_strlit("recording");
    reveal_strlit("stopping");
    reveal_strlit("completed");
    reveal_strlit("failed");
    lemma_literals_lack_quote();
    lemma_quoted_plain("failed"@);
    if st.name() == "recording"@ {
        assert(st.name()[0] == 'r');
    }
    if st.name() == "stopping"@ {
        assert(st.name()[0] == 's');
    }
    let q = quoted(st.name());
    assert(q.subrange(1, q.len() - 1) =~= st.name());
    assert(quoted("recording"@).subrange(1, quoted("recording"@).len() - 1) =~= "recording"@);
    assert(quoted("stopping"@).subrange(1, quoted("stopping"@).len() - 1) =~= "stopping"@);
}

/// `null` is told apart from a number by its first character.
proof fn lemma_number_value(o: Option<nat>)
    ensures
        number_or_null(o).len() > 0,
        "null"@.len() == 4 && "null"@[0] == 'n',
        number_or_null(o)[0] == 'n' ==> number_or_null(o) == "null"@,
        number_or_null(o) == "null"@ <==> o is None,
{
    reveal_strlit("null");
    if let Some(n) = o {
        lemma_decimal_digits(n);
        assert(decimal(n)[0] != 'n');
    }
}

/// `null` is told apart from a quoted string by its first character.
proof fn lemma_string_value(o: Option<Seq<char>>)
    ensures
        string_or_null(o).len() > 0,
        string_or_null(o)[0] == 'n' ==> string_or_null(o) == "null"@,
        string_or_null(o) == "null"@ <==> o is None,
{
    reveal_strlit("null");
    if let Some(t) = o {
        if string_or_null(o) == "null"@ {
            assert(string_or_null(o)[0] == '"');
        }
    }
}

/// The recovery patterns are keyed field values.
proof fn lemma_recovery_patterns(ended_at: u64)
    ensures
        recording_state_line() == keyed(json_keys()[2], quoted("recording"@)),
        stopping_state_line() == keyed(json_keys()[2], quoted("stopping"@)),
        failed_state_line() == keyed(json_keys()[2], quoted("failed"@)),
        "\"ended_at_unix_seconds\": null"@ == keyed(json_keys()[5], "null"@),
        "\"ended_at_unix_seconds\": "@ + decimal(ended_at as nat) == keyed(
            json_keys()[5],
            decimal(ended_at as nat),
        ),
        "\"recovery_reason\": null"@ == keyed(json_keys()[7], "null"@),
        "\"recovery_reason\": \""@ + interrupted_reason() + "\""@ == keyed(
            json_keys()[7],
            quoted(interrupted_reason()),
        ),
        lacks(quoted("recording"@), '\n'),
        lacks(quoted("stopping"@), '\n'),
        lacks(quoted("failed"@), '\n'),
        lacks("null"@, '\n'),
        lacks(interrupted_reason(), '"'),
{
    lemma_json_keys();
    reveal_strlit("state");
    reveal_strlit("ended_at_unix_seconds");
    reveal_strlit("recovery_reason");
    reveal_strlit("recording");
    reveal_strlit("stopping");
    reveal_strlit("failed");
    reveal_strlit("null");
    reveal_strlit("\"state\": \"recording\"");
    reveal_strlit("\"state\": \"stopping\"");
    reveal_strlit("\"state\": \"failed\"");
    reveal_strlit("\"ended_at_unix_seconds\": null");
    reveal_strlit("\"ended_at_unix_seconds\": ");
    reveal_strlit("\"recovery_reason\": null");
    reveal_strlit("\"recovery_reason\": \"");
    reveal_strlit("\"");
    reveal_strlit(
        "Rusteze was interrupted before recording could finish. Audio already written was preserved.",
    );
    assert(recording_state_line() =~= keyed(json_keys()[2], quoted("recording"@)));
    assert(stopping_state_line() =~= keyed(json_keys()[2], quoted("stopping"@)));
    assert(failed_state_line() =~= keyed(json_keys()[2], quoted("failed"@)));
    assert("\"ended_at_unix_seconds\": null"@ =~= keyed(json_keys()[5], "null"@));
    assert("\"ended_at_unix_seconds\": "@ + decimal(ended_at as nat) =~= keyed(
        json_keys()[5],
        decimal(ended_at as nat),
    ));
    assert("\"recovery_reason\": null"@ =~= keyed(json_keys()[7], "null"@));
    assert("\"recovery_reason\": \""@ + interrupted_reason() + "\""@ =~= keyed(
        json_keys()[7],
        quoted(interrupted_reason()),
    ));
}

/// A document holds `"key": w` for the key of field `j` exactly when that field's value
/// is `w`, when the character at `d` tells `w` apart from the field's value.
proof fn lemma_field_pattern(values: Seq<Seq<char>>, j: int, w: Seq<char>, d: int)
    requires
        safe_values(values),
        0 <= j < 11,
        lacks(w, '\n'),
        0 <= d < w.len(),
        d < values[j].len(),
        values[j][d] == w[d] ==> values[j] == w,
    ensures
        contains(document(values), keyed(json_keys()[j], w)) <==> values[j] == w,
{
    lemma_json_keys();
    lemma_pattern_in_document(values, j, w);
    assert(document_lines(values)[j + 1] == head_of(json_keys()[j]) + values[j] + line_tail(j + 1));
    lemma_value_line_contains(json_keys()[j], values[j], line_tail(j + 1), w, d);
}

/// Replacing `"key": w` by `"key": w2` in a document, for the key of field `j`, replaces
/// the value of that field when it is `w` and changes nothing else.
proof fn lemma_field_replace(values: Seq<Seq<char>>, j: int, w: Seq<char>, w2: Seq<char>, d: int)
    requires
        safe_values(values),
        0 <= j < 11,
        lacks(w, '\n'),
        0 <= d < w.len(),
        d < values[j].len(),
        values[j][d] == w[d] ==> values[j] == w,
    ensures
        replace_all(document(values), keyed(json_keys()[j], w), keyed(json_keys()[j], w2))
            == document(
            values.update(
                j,
                if values[j] == w {
                    w2
                } else {
                    values[j]
                },
            ),
        ),
{
    lemma_json_keys();
    let new_value = if values[j] == w {
        w2
    } else {
        values[j]
    };
    assert(document_lines(values)[j + 1] == head_of(json_keys()[j]) + values[j] + line_tail(j + 1));
    lemma_replace_value(json_keys()[j], values[j], line_tail(j + 1), w, w2, d);
    lemma_replace_in_document(values, j, w, w2, new_value);
}

/// Values stay safe when one of them is replaced by a quote safe value.
proof fn lemma_update_safe(values: Seq<Seq<char>>, j: int, v: Seq<char>)
    requires
        safe_values(values),
        0 <= j < 11,
        quote_safe(v),
    ensures
        safe_values(values.update(j, v)),
{
    let u = values.update(j, v);
    assert forall|i: int| 0 <= i < 11 implies quote_safe(#[trigger] u[i]) by {
        if i != j {
            assert(u[i] == values[i]);
        }
    }
}

/// The field values recovery leaves in the metadata of an interrupted session: the state
/// `failed`, and the end time and the interruption reason in the fields that were `null`.
pub open spec fn recovered_values(values: Seq<Seq<char>>, ended_at: u64) -> Seq<Seq<char>> {
    values.update(2, quoted("failed"@)).update(
        5,
        if values[5] == "null"@ {
            decimal(ended_at as nat)
        } else {
            values[5]
        },
    ).update(
        7,
        if values[7] == "null"@ {
            quoted(interrupted_reason())
        } else {
            values[7]
        },
    )
}

/// Crash recovery rewrites the `session.json` a session wrote exactly when the
/// session was left recording or stopping: the metadata of an idle, completed or
/// failed session is left alone, whatever its title, id or failure reason hold.
pub proof fn lemma_recovery_rewrites_only_active_sessions(
    s: SessionView,
    mixed_caf_exists: bool,
    mixed_wav_exists: bool,
    format: TrackFormat,
    ended_at: u64,
)
    ensures
        recovered_json(session_json(s, mixed_track(mixed_caf_exists, mixed_wav_exists), format), ended_at)
            is Some <==> (s.state is Recording || s.state is Stopping),
{
    let mixed = mixed_track(mixed_caf_exists, mixed_wav_exists);
    let v = json_values(s, mixed, format);
    lemma_literals_lack_quote();
    lemma_json_is_document(s, mixed, format);
    lemma_json_values_safe(s, mixed, format);
    lemma_recovery_patterns(ended_at);
    lemma_state_values(s.state);
    assert(v[2] == quoted(s.state.name()));
    lemma_field_pattern(v, 2, quoted("recording"@), 1);
    lemma_field_pattern(v, 2, quoted("stopping"@), 1);
}

/// Recovering the metadata of a session left recording or stopping gives the same
/// document with the state `failed`, and with the end time and the interruption reason
/// in the fields that held `null`; recovery at any later time leaves that document alone.
pub proof fn lemma_recovery_marks_session_failed(
    s: SessionView,
    mixed_caf_exists: bool,
    mixed_wav_exists: bool,
    format: TrackFormat,
    ended_at: u64,
    later: u64,
)
    requires
        s.state is Recording || s.state is Stopping,
    ensures
        recovered_json(session_json(s, mixed_track(mixed_caf_exists, mixed_wav_exists), format), ended_at)
            == Some(
            document(
                recovered_values(
                    json_values(s, mixed_track(mixed_caf_exists, mixed_wav_exists), format),
                    ended_at,
                ),
            ),
        ),
        contains(
            document(
                recovered_values(
                    json_values(s, mixed_track(mixed_caf_exists, mixed_wav_exists), format),
                    ended_at,
                ),
            ),
            failed_state_line(),
        ),
        recovered_json(
            document(
                recovered_values(
                    json_values(s, mixed_track(mixed_caf_exists, mixed_wav_exists), format),
                    ended_at,
                ),
            ),
            later,
        ) is None,
{
    let mixed = mixed_track(mixed_caf_exists, mixed_wav_exists);
    let v = json_values(s, mixed, format);
    let qr = quoted("recording"@);
    let qs = quoted("stopping"@);
    let qf = quoted("failed"@);
    let t = decimal(ended_at as nat);
    let qreason = quoted(interrupted_reason());
    let null = "null"@;
    lemma_literals_lack_quote();
    lemma_json_keys();
    lemma_json_is_document(s, mixed, format);
    lemma_json_values_safe(s, mixed, format);
    lemma_recovery_patterns(ended_at);
    lemma_state_values(s.state);
    lemma_recovery_rewrites_only_active_sessions(s, mixed_caf_exists, mixed_wav_exists, format, ended_at);
    assert(v[2] == quoted(s.state.name()));
    // The state becomes failed.
    lemma_field_replace(v, 2, qr, qf, 1);
    let v1 = v.update(2, if v[2] == qr { qf } else { v[2] });
    lemma_update_safe(v, 2, if v[2] == qr { qf } else { v[2] });
    lemma_field_replace(v1, 2, qs, qf, 1);
    let v2 = v.update(2, qf);
    assert(v1.update(2, if v1[2] == qs { qf } else { v1[2] }) =~= v2);
    lemma_update_safe(v, 2, qf);
    // The end time fills a null end time.
    let o5 = match s.ended_at {
        Some(x) => Some(x as nat),
        None => None,
    };
    lemma_number_value(o5);
    assert(v2[5] == number_or_null(o5));
    lemma_field_replace(v2, 5, null, t, 0);
    let v3 = v2.update(5, if v2[5] == null { t } else { v2[5] });
    lemma_decimal_lacks_quote(ended_at as nat);
    lemma_plain_safe(t);
    lemma_update_safe(v2, 5, if v2[5] == null { t } else { v2[5] });
    // The interruption reason fills a null reason.
    let o7 = match s.recovery_reason {
        Some(r) => Some(escape_json(r)),
        None => None,
    };
    lemma_string_value(o7);
    assert(v3[7] == string_or_null(o7));
    lemma_field_replace(v3, 7, null, qreason, 0);
    let v4 = v3.update(7, if v3[7] == null { qreason } else { v3[7] });
    assert(v4 =~= recovered_values(v, ended_at));
    lemma_quoted_plain(interrupted_reason());
    lemma_update_safe(v3, 7, if v3[7] == null { qreason } else { v3[7] });
    // The recovered document reads failed, and no longer active.
    assert(v4[2] == qf);
    lemma_field_pattern(v4, 2, qf, 1);
    lemma_field_pattern(v4, 2, qr, 1);
    lemma_field_pattern(v4, 2, qs, 1);
}

/// `session.json` is one object of eleven fields, one per line in the order of
/// `json_keys`, and its string fields read back as the session's own values: the
/// id, the title and the recovery reason, once unescaped, are the session's.
pub proof fn lemma_json_fields_read_back(s: SessionView, mixed: Option<Seq<char>>, format: TrackFormat)
    ensures
        session_json(s, mixed, format) == document(json_values(s, mixed, format)),
        json_values(s, mixed, format).len() == json_keys().len(),
        json_values(s, mixed, format)[0] == quoted(escape_json(s.id)),
        json_values(s, mixed, format)[1] == quoted(escape_json(s.title)),
        s.recovery_reason matches Some(r) ==> json_values(s, mixed, format)[7] == quoted(
            escape_json(r),
        ),
        unescape_json(escape_json(s.id)) == s.id,
        unescape_json(escape_json(s.title)) == s.title,
        s.recovery_reason matches Some(r) ==> unescape_json(escape_json(r)) == r,
{
    lemma_json_is_document(s, mixed, format);
    lemma_escape_round_trip(s.id);
    lemma_escape_round_trip(s.title);
    if let Some(r) = s.recovery_reason {
        lemma_escape_round_trip(r);
    }
}

} // verus!
