//! The Linux (PipeWire) capture backend's decisions: permission outcome,
//! negotiated stream format, buffer ranges and the per-track WAV writer.
use vstd::prelude::*;
use crate::audio::{f32le_samples, f32le_to_pcm16};
use crate::native_helper::{CaptureMode, HelperError, PermissionStatus};
use crate::text::{chars_of, push_str, string_of};
use crate::windows::probed_status;

verus! {

/// The audio format PipeWire negotiated for a capture stream.
#[derive(Clone, Copy, Debug, PartialEq, Eq, Structural)]
pub struct CaptureFormat {
    pub sample_rate: u32,
    pub channels: u16,
}

fn text(s: &str) -> (r: String)
    ensures
        r@ == s@,
{
    let c = chars_of(s);
    string_of(c.as_slice())
}

/// The permission status for `mode` once its PipeWire streams were opened and
/// closed again: `probe` is the first failure, if any.
pub fn check_permissions(mode: CaptureMode, probe: Result<(), String>) -> (r: Result<PermissionStatus, HelperError>)
    ensures
        match probe {
            Ok(()) => r matches Ok(s) && (s.microphone@, s.screen_recording@) == probed_status(mode),
            Err(e) => r matches Err(HelperError::Backend(m)) && m@ == e@,
        },
{
    crate::windows::check_permissions(mode, probe)
}

/// Linux has no prompt of its own: requesting the permissions is probing them.
pub fn request_permissions(mode: CaptureMode, probe: Result<(), String>) -> (r: Result<PermissionStatus, HelperError>)
    ensures
        match probe {
            Ok(()) => r matches Ok(s) && (s.microphone@, s.screen_recording@) == probed_status(mode),
            Err(e) => r matches Err(HelperError::Backend(m)) && m@ == e@,
        },
{
    check_permissions(mode, probe)
}

/// The stream format PipeWire negotiated, or why it cannot be recorded: it
/// must be raw audio in F32LE with a non-zero rate and channel count. The
/// channel count is kept modulo 2^16.
pub fn negotiated_format(raw_audio: bool, f32le: bool, format_name: &str, rate: u32, channels: u32) -> (r: Result<
    CaptureFormat,
    String,
>)
    ensures
        !raw_audio ==> (r matches Err(m) && m@ == "PipeWire returned a non-raw audio format"@),
        raw_audio && !f32le ==> (r matches Err(m) && m@ == "PipeWire negotiated unsupported audio format: "@
            + format_name@),
        raw_audio && f32le && (rate == 0 || channels == 0) ==> (r matches Err(m) && m@
            == "PipeWire negotiated an invalid audio format"@),
        raw_audio && f32le && rate != 0 && channels != 0 ==> r == Ok::<CaptureFormat, String>(
            CaptureFormat { sample_rate: rate, channels: (channels % 65536) as u16 },
        ),
{
    if !raw_audio {
        return Err(text("PipeWire returned a non-raw audio format"));
    }
    if !f32le {
        let mut m = String::new();
        push_str(&mut m, "PipeWire negotiated unsupported audio format: ");
        push_str(&mut m, format_name);
        return Err(m);
    }
    if rate == 0 || channels == 0 {
        return Err(text("PipeWire negotiated an invalid audio format"));
    }
    Ok(CaptureFormat { sample_rate: rate, channels: (channels % 65536) as u16 })
}

/// The byte range `offset..offset + size` of a mapped buffer of `mapped`
/// bytes, or why it cannot be read.
pub fn buffer_range(offset: usize, size: usize, mapped: usize) -> (r: Result<(usize, usize), String>)
    ensures
        offset + size > usize::MAX ==> (r matches Err(m) && m@ == "PipeWire returned an invalid audio buffer range"@),
        offset + size <= usize::MAX && offset + size > mapped ==> (r matches Err(m) && m@
            == "PipeWire returned an audio buffer outside its mapped memory"@),
        offset + size <= mapped ==> r == Ok::<(usize, usize), String>((offset, (offset + size) as usize)),
{
    match offset.checked_add(size) {
        None => Err(text("PipeWire returned an invalid audio buffer range")),
        Some(end) => if end > mapped {
            Err(text("PipeWire returned an audio buffer outside its mapped memory"))
        } else {
            Ok((offset, end))
        },
    }
}

/// How a capture thread's run ended once its main loop returned.
pub fn capture_end(stop_requested: bool) -> (r: Result<(), String>)
    ensures
        r is Ok <==> stop_requested,
        r matches Err(m) ==> m@ == "Linux PipeWire capture stopped unexpectedly"@,
{
    if stop_requested {
        Ok(())
    } else {
        Err(text("Linux PipeWire capture stopped unexpectedly"))
    }
}

// ---------------------------------------------------------------------------
// The per-track writer
// ---------------------------------------------------------------------------

/// What the capture stream hands the track writer.
pub enum WriterEvent {
    /// The negotiated format.
    Format(CaptureFormat),
    /// Captured F32LE bytes.
    Frames(Vec<u8>),
    /// The stream ended.
    Closed,
}

/// What the track writer must do next.
pub enum WriterAction {
    /// Create the WAV file for this format.
    Create(CaptureFormat),
    /// Append these samples to the WAV file.
    Write(Vec<i16>),
    /// Nothing to do for this event.
    Ignore,
    /// Finalize the WAV file: the stream ended normally.
    Finish,
    /// Stop with this error (the file, if created, is finalized by the caller).
    Fail(String),
}

/// The track writer: it waits for the format, then converts frames.
pub struct TrackWriter {
    pub format: Option<CaptureFormat>,
}

impl TrackWriter {
    pub fn new() -> (w: TrackWriter)
        ensures
            w.format is None,
    {
        TrackWriter { format: None }
    }

    /// The writer's answer to the next stream event. Audio before the format,
    /// or an end before it, is an error; a second format is ignored; frames
    /// are converted to PCM16.
    pub fn step(&mut self, event: WriterEvent) -> (action: WriterAction)
        ensures
            match (old(self).format, event) {
                (None, WriterEvent::Format(f)) => final(self).format == Some(f) && action == WriterAction::Create(f),
                (None, WriterEvent::Frames(_)) => final(self).format is None && (action matches WriterAction::Fail(m)
                    && m@ == "PipeWire delivered audio before format negotiation"@),
                (None, WriterEvent::Closed) => final(self).format is None && (action matches WriterAction::Fail(m)
                    && m@ == "PipeWire stream ended before format negotiation"@),
                (Some(f), WriterEvent::Format(_)) => final(self).format == Some(f) && action is Ignore,
                (Some(f), WriterEvent::Frames(bytes)) => final(self).format == Some(f) && if bytes@.len() % 4 == 0 {
                    (action matches WriterAction::Write(samples) && samples@ == f32le_samples(bytes@))
                } else {
                    (action matches WriterAction::Fail(m) && m@ == "PipeWire returned an incomplete F32LE sample"@)
                },
                (Some(f), WriterEvent::Closed) => final(self).format == Some(f) && action is Finish,
            },
    {
        match self.format {
            None => match event {
                WriterEvent::Format(f) => {
                    self.format = Some(f);
                    WriterAction::Create(f)
                },
                WriterEvent::Frames(_) => WriterAction::Fail(
                    text("PipeWire delivered audio before format negotiation"),
                ),
                WriterEvent::Closed => WriterAction::Fail(
                    text("PipeWire stream ended before format negotiation"),
                ),
            },
            Some(_) => match event {
                WriterEvent::Format(_) => WriterAction::Ignore,
                WriterEvent::Frames(bytes) => match f32le_to_pcm16(bytes.as_slice()) {
                    Ok(samples) => WriterAction::Write(samples),
                    Err(m) => WriterAction::Fail(text(m)),
                },
                WriterEvent::Closed => WriterAction::Finish,
            },
        }
    }
}

} // verus!
