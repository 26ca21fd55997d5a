//! Model-independent transcript types and the portable transcript formats.
use vstd::prelude::*;
use crate::text::{
    chars_of, concat, decimal, join, pad_zeros, push_char, push_decimal, push_padded_decimal,
    push_str,
};

verus! {

/// One timed piece of a transcript.
#[derive(Debug, Clone, PartialEq, Eq)]
pub struct TranscriptSegment {
    pub start_milliseconds: u64,
    pub end_milliseconds: u64,
    pub text: String,
}

/// What a transcription engine produced for a session.
#[derive(Debug, Clone, PartialEq, Eq)]
pub struct Transcript {
    pub engine: String,
    pub model: Option<String>,
    pub text: String,
    pub segments: Vec<TranscriptSegment>,
}

/// Why a transcript could not be produced or stored.
#[derive(Debug)]
pub enum TranscriptionError {
    NoEngineConfigured,
    Engine(String),
    Storage(String),
}

pub open spec fn transcription_error_message(e: TranscriptionError) -> Seq<char> {
    match e {
        TranscriptionError::NoEngineConfigured =>
            "No local transcription engine is configured. Add an implementation of TranscriptionEngine first."@,
        TranscriptionError::Engine(m) => "Transcription engine failed: "@ + m@,
        TranscriptionError::Storage(m) => "Could not write transcript files: "@ + m@,
    }
}

impl TranscriptionError {
    /// The message the error is displayed with.
    pub fn message(&self) -> (text: String)
        ensures
            text@ == transcription_error_message(*self),
    {
        let mut text = String::new();
        match self {
            TranscriptionError::NoEngineConfigured => push_str(
                &mut text,
                "No local transcription engine is configured. Add an implementation of TranscriptionEngine first.",
            ),
            TranscriptionError::Engine(m) => {
                push_str(&mut text, "Transcription engine failed: ");
                push_str(&mut text, m.as_str());
            },
            TranscriptionError::Storage(m) => {
                push_str(&mut text, "Could not write transcript files: ");
                push_str(&mut text, m.as_str());
            },
        }
        assert(text@ =~= transcription_error_message(*self));
        text
    }
}

/// The boundary a local Whisper, whisper.cpp, or other engine implements.
pub trait TranscriptionEngine {
    fn transcribe(&self, session_folder: &str) -> Result<Transcript, TranscriptionError>;
}

/// Placeholder used until the user chooses a local model implementation.
pub struct UnconfiguredEngine;

impl TranscriptionEngine for UnconfiguredEngine {
    fn transcribe(&self, session_folder: &str) -> (r: Result<Transcript, TranscriptionError>)
        ensures
            r matches Err(TranscriptionError::NoEngineConfigured),
    {
        Err(TranscriptionError::NoEngineConfigured)
    }
}

// ---------------------------------------------------------------------------
// Formats
// ---------------------------------------------------------------------------

/// `MM:SS.mmm` for a time in milliseconds; minutes may exceed two digits.
pub open spec fn timestamp_text(ms: u64) -> Seq<char> {
    pad_zeros(decimal((ms / 60000) as nat), 2) + seq![':'] + pad_zeros(
        decimal(((ms / 1000) % 60) as nat),
        2,
    ) + seq!['.'] + pad_zeros(decimal((ms % 1000) as nat), 3)
}

/// The escape of one character inside a transcript JSON string.
pub open spec fn json_escape_char(c: char) -> Seq<char> {
    if c == '\\' {
        seq!['\\', '\\']
    } else if c == '"' {
        seq!['\\', '"']
    } else if c == '\n' {
        seq!['\\', 'n']
    } else {
        seq![c]
    }
}

pub open spec fn json_escape(s: Seq<char>) -> Seq<char>
    decreases s.len(),
{
    if s.len() == 0 {
        Seq::empty()
    } else {
        json_escape(s.drop_last()) + json_escape_char(s.last())
    }
}

/// A JSON string literal for `s` (backslash, double quote and newline escaped).
pub open spec fn json_string_text(s: Seq<char>) -> Seq<char> {
    seq!['"'] + json_escape(s) + seq!['"']
}

/// The Markdown line block of one segment.
pub open spec fn markdown_segment(s: TranscriptSegment) -> Seq<char> {
    "["@ + timestamp_text(s.start_milliseconds) + "\u{2013}"@ + timestamp_text(s.end_milliseconds)
        + "] "@ + s.text@ + "\n\n"@
}

/// `transcript.md`: a heading, the engine, then one block per segment, or the
/// full text when there are no segments.
pub open spec fn markdown_text(t: Transcript) -> Seq<char> {
    "# Transcript\n\nEngine: "@ + t.engine@ + "\n\n"@ + concat(
        t.segments@.map_values(|s: TranscriptSegment| markdown_segment(s)),
    ) + (if t.segments@.len() == 0 {
        t.text@ + "\n"@
    } else {
        Seq::empty()
    })
}

/// The JSON object of one segment, indented as an array element.
pub open spec fn json_segment(s: TranscriptSegment) -> Seq<char> {
    "    {\"start_milliseconds\": "@ + decimal(s.start_milliseconds as nat)
        + ", \"end_milliseconds\": "@ + decimal(s.end_milliseconds as nat) + ", \"text\": "@
        + json_string_text(s.text@) + "}"@
}

/// `transcript.json`.
pub open spec fn json_text(t: Transcript) -> Seq<char> {
    "{\n  \"engine\": "@ + json_string_text(t.engine@) + ",\n  \"model\": "@ + (match t.model {
        Some(m) => json_string_text(m@),
        None => "null"@,
    }) + ",\n  \"text\": "@ + json_string_text(t.text@) + ",\n  \"segments\": [\n"@ + join(
        t.segments@.map_values(|s: TranscriptSegment| json_segment(s)),
        ",\n"@,
    ) + "\n  ]\n}\n"@
}

/// Appends `MM:SS.mmm` for `milliseconds`.
fn push_timestamp(out: &mut String, milliseconds: u64)
    ensures
        final(out)@ == old(out)@ + timestamp_text(milliseconds),
{
    push_padded_decimal(out, milliseconds / 60000, 2);
    push_char(out, ':');
    push_padded_decimal(out, (milliseconds / 1000) % 60, 2);
    push_char(out, '.');
    push_padded_decimal(out, milliseconds % 1000, 3);
    assert(final(out)@ =~= old(out)@ + timestamp_text(milliseconds));
}

/// `MM:SS.mmm` for a time in milliseconds.
pub fn timestamp(milliseconds: u64) -> (s: String)
    ensures
        s@ == timestamp_text(milliseconds),
{
    let mut s = String::new();
    push_timestamp(&mut s, milliseconds);
    assert(s@ =~= timestamp_text(milliseconds));
    s
}

fn push_json_string(out: &mut String, value: &str)
    ensures
        final(out)@ == old(out)@ + json_string_text(value@),
{
    let chars = chars_of(value);
    push_char(out, '"');
    let ghost start = out@;
    let mut i: usize = 0;
    while i < chars.len()
        invariant
            i <= chars@.len(),
            chars@ == value@,
            out@ == start + json_escape(chars@.take(i as int)),
        decreases chars.len() - i,
    {
        let c = chars[i];
        if c == '\\' {
            push_char(out, '\\');
            push_char(out, '\\');
        } else if c == '"' {
            push_char(out, '\\');
            push_char(out, '"');
        } else if c == '\n' {
            push_char(out, '\\');
            push_char(out, 'n');
        } else {
            push_char(out, c);
        }
        assert(chars@.take(i + 1).drop_last() =~= chars@.take(i as int));
        i = i + 1;
        assert(out@ =~= start + json_escape(chars@.take(i as int)));
    }
    assert(chars@.take(chars@.len() as int) =~= chars@);
    push_char(out, '"');
    assert(final(out)@ =~= old(out)@ + json_string_text(value@));
}

/// A JSON string literal for `value`.
pub fn json_string(value: &str) -> (s: String)
    ensures
        s@ == json_string_text(value@),
{
    let mut s = String::new();
    push_json_string(&mut s, value);
    assert(s@ =~= json_string_text(value@));
    s
}

fn push_markdown_segment(out: &mut String, segment: &TranscriptSegment)
    ensures
        final(out)@ == old(out)@ + markdown_segment(*segment),
{
    push_str(out, "[");
    push_timestamp(out, segment.start_milliseconds);
    push_str(out, "\u{2013}");
    push_timestamp(out, segment.end_milliseconds);
    push_str(out, "] ");
    push_str(out, segment.text.as_str());
    push_str(out, "\n\n");
    assert(final(out)@ =~= old(out)@ + markdown_segment(*segment));
}

fn push_json_segment(out: &mut String, segment: &TranscriptSegment)
    ensures
        final(out)@ == old(out)@ + json_segment(*segment),
{
    push_str(out, "    {\"start_milliseconds\": ");
    push_decimal(out, segment.start_milliseconds);
    push_str(out, ", \"end_milliseconds\": ");
    push_decimal(out, segment.end_milliseconds);
    push_str(out, ", \"text\": ");
    push_json_string(out, segment.text.as_str());
    push_str(out, "}");
    assert(final(out)@ =~= old(out)@ + json_segment(*segment));
}

/// Renders `transcript.md`.
pub fn markdown(transcript: &Transcript) -> (out: String)
    ensures
        out@ == markdown_text(*transcript),
{
    let mut out = String::new();
    push_str(&mut out, "# Transcript\n\nEngine: ");
    push_str(&mut out, transcript.engine.as_str());
    push_str(&mut out, "\n\n");
    let ghost head = out@;
    let ghost blocks = transcript.segments@.map_values(|s: TranscriptSegment| markdown_segment(s));
    let mut i: usize = 0;
    while i < transcript.segments.len()
        invariant
            i <= transcript.segments@.len(),
            blocks == transcript.segments@.map_values(|s: TranscriptSegment| markdown_segment(s)),
            out@ == head + concat(blocks.take(i as int)),
        decreases transcript.segments.len() - i,
    {
        let ghost before = out@;
        push_markdown_segment(&mut out, &transcript.segments[i]);
        assert(blocks.take(i + 1).drop_last() =~= blocks.take(i as int));
        assert(blocks.take(i + 1).last() == blocks[i as int]);
        i = i + 1;
        assert(out@ =~= head + concat(blocks.take(i as int)));
    }
    assert(blocks.take(transcript.segments@.len() as int) =~= blocks);
    if transcript.segments.len() == 0 {
        push_str(&mut out, transcript.text.as_str());
        push_str(&mut out, "\n");
    }
    assert(out@ =~= markdown_text(*transcript));
    out
}

/// Renders `transcript.json`.
pub fn json(transcript: &Transcript) -> (out: String)
    ensures
        out@ == json_text(*transcript),
{
    let mut out = String::new();
    push_str(&mut out, "{\n  \"engine\": ");
    push_json_string(&mut out, transcript.engine.as_str());
    push_str(&mut out, ",\n  \"model\": ");
    match &transcript.model {
        Some(m) => push_json_string(&mut out, m.as_str()),
        None => push_str(&mut out, "null"),
    }
    push_str(&mut out, ",\n  \"text\": ");
    push_json_string(&mut out, transcript.text.as_str());
    push_str(&mut out, ",\n  \"segments\": [\n");
    let ghost head = out@;
    let ghost items = transcript.segments@.map_values(|s: TranscriptSegment| json_segment(s));
    let mut i: usize = 0;
    while i < transcript.segments.len()
        invariant
            i <= transcript.segments@.len(),
            items == transcript.segments@.map_values(|s: TranscriptSegment| json_segment(s)),
            out@ == head + join(items.take(i as int), ",\n"@),
        decreases transcript.segments.len() - i,
    {
        let segment = &transcript.segments[i];
        let ghost before = out@;
        if i > 0 {
            push_str(&mut out, ",\n");
        }
        let ghost mid = out@;
        push_json_segment(&mut out, segment);
        assert(items.take(i + 1).drop_last() =~= items.take(i as int));
        assert(items.take(i + 1).last() == items[i as int]);
        if i == 0 {
            assert(items.take(1) =~= seq![items[0]]);
            assert(join(items.take(1), ",\n"@) == items[0]);
        }
        i = i + 1;
        assert(out@ =~= head + join(items.take(i as int), ",\n"@));
    }
    assert(items.take(transcript.segments@.len() as int) =~= items);
    push_str(&mut out, "\n  ]\n}\n");
    assert(out@ =~= json_text(*transcript));
    out
}

} // verus!
