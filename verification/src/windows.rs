//! The Windows (WASAPI) capture backend's format handling and permission outcome.
use vstd::prelude::*;
use crate::audio::{f32_bits_to_pcm16, le_word, pcm16_from_f32_bits, read_le32};
use crate::native_helper::{
    microphone_missing, screen_recording_missing, CaptureMode, HelperError, PermissionStatus,
};
use crate::text::{chars_of, push_decimal, push_str, string_of};

verus! {

pub const WAVE_FORMAT_PCM: u16 = 1;

pub const WAVE_FORMAT_IEEE_FLOAT: u16 = 3;

pub const WAVE_FORMAT_EXTENSIBLE: u16 = 0xfffe;

/// How the samples of a capture format are encoded.
#[derive(Clone, Copy, Debug, PartialEq, Eq, Structural)]
pub enum SampleKind {
    Pcm,
    Float,
}

/// The shared-mode mix format of a Windows audio endpoint.
#[derive(Clone, Copy, Debug, PartialEq, Eq, Structural)]
pub struct CaptureFormat {
    pub sample_rate: u32,
    pub channels: u16,
    pub block_align: usize,
    pub bytes_per_sample: usize,
    pub bits_per_sample: u16,
    pub kind: SampleKind,
}

// ---------------------------------------------------------------------------
// WAVEFORMATEX
// ---------------------------------------------------------------------------

/// A little-endian 16-bit field at `i`.
pub open spec fn u16_field(b: Seq<u8>, i: int) -> u16 {
    (b[i] + 256 * b[i + 1]) as u16
}

/// The extra bytes a WAVEFORMATEX announces after its 18-byte base.
pub open spec fn extra_size(b: Seq<u8>) -> nat {
    u16_field(b, 16) as nat
}

/// The SubFormat GUID of integer PCM (`KSDATAFORMAT_SUBTYPE_PCM`).
pub open spec fn pcm_subformat() -> Seq<u8> {
    seq![0x01u8, 0x00, 0x00, 0x00, 0x00, 0x00, 0x10, 0x00, 0x80, 0x00, 0x00, 0xaa, 0x00, 0x38, 0x9b, 0x71]
}

/// The SubFormat GUID of IEEE float (`KSDATAFORMAT_SUBTYPE_IEEE_FLOAT`).
pub open spec fn float_subformat() -> Seq<u8> {
    seq![0x03u8, 0x00, 0x00, 0x00, 0x00, 0x00, 0x10, 0x00, 0x80, 0x00, 0x00, 0xaa, 0x00, 0x38, 0x9b, 0x71]
}

pub open spec fn no_format_message() -> Seq<char> {
    "Windows audio endpoint returned no format."@
}

pub open spec fn unsupported_format_message() -> Seq<char> {
    "Windows audio endpoint returned an unsupported format."@
}

pub open spec fn unsupported_subformat_message() -> Seq<char> {
    "Unsupported Windows extensible audio subformat."@
}

pub open spec fn unsupported_tag_message(tag: u16) -> Seq<char> {
    "Unsupported Windows audio format tag "@ + crate::text::decimal(tag as nat) + "."@
}

/// The capture format a WAVEFORMATEX (or WAVEFORMATEXTENSIBLE) describes, or why it is refused.
pub open spec fn capture_format_of(b: Seq<u8>) -> Result<CaptureFormat, Seq<char>> {
    if b.len() < 18 {
        Err(no_format_message())
    } else {
        let tag = u16_field(b, 0);
        let channels = u16_field(b, 2);
        let rate = le_word(b, 4);
        let block_align = u16_field(b, 12);
        let bits = u16_field(b, 14);
        let bytes_per_sample = bits / 8;
        if channels == 0 || rate == 0 || bytes_per_sample == 0 {
            Err(unsupported_format_message())
        } else {
            let kind: Result<SampleKind, Seq<char>> = if tag == WAVE_FORMAT_PCM {
                Ok(SampleKind::Pcm)
            } else if tag == WAVE_FORMAT_IEEE_FLOAT {
                Ok(SampleKind::Float)
            } else if tag == WAVE_FORMAT_EXTENSIBLE && extra_size(b) >= 22 {
                if b.subrange(24, 40) == pcm_subformat() {
                    Ok(SampleKind::Pcm)
                } else if b.subrange(24, 40) == float_subformat() {
                    Ok(SampleKind::Float)
                } else {
                    Err(unsupported_subformat_message())
                }
            } else {
                Err(unsupported_tag_message(tag))
            };
            match kind {
                Ok(k) => Ok(
                    CaptureFormat {
                        sample_rate: rate,
                        channels,
                        block_align: block_align as usize,
                        bytes_per_sample: bytes_per_sample as usize,
                        bits_per_sample: bits,
                        kind: k,
                    },
                ),
                Err(e) => Err(e),
            }
        }
    }
}

fn read_u16(b: &[u8], i: usize) -> (v: u16)
    requires
        i + 2 <= b@.len(),
    ensures
        v == u16_field(b@, i as int),
{
    b[i] as u16 + 256 * (b[i + 1] as u16)
}

fn text(s: &str) -> (r: String)
    ensures
        r@ == s@,
{
    let c = chars_of(s);
    string_of(c.as_slice())
}

/// Reads the endpoint's mix format from its WAVEFORMATEX bytes (`header` is
/// empty when the endpoint returned none); the announced extra bytes must be present.
pub fn read_capture_format(header: &[u8]) -> (r: Result<CaptureFormat, String>)
    requires
        header@.len() >= 18 ==> header@.len() >= 18 + extra_size(header@),
    ensures
        match r {
            Ok(f) => capture_format_of(header@) == Ok::<CaptureFormat, Seq<char>>(f),
            Err(m) => capture_format_of(header@) == Err::<CaptureFormat, Seq<char>>(m@),
        },
{
    if header.len() < 18 {
        return Err(text("Windows audio endpoint returned no format."));
    }
    let tag = read_u16(header, 0);
    let channels = read_u16(header, 2);
    let rate = read_le32(header, 4);
    let block_align = read_u16(header, 12);
    let bits = read_u16(header, 14);
    let extra = read_u16(header, 16);
    let bytes_per_sample = bits / 8;
    if channels == 0 || rate == 0 || bytes_per_sample == 0 {
        return Err(text("Windows audio endpoint returned an unsupported format."));
    }
    let kind = if tag == WAVE_FORMAT_PCM {
        SampleKind::Pcm
    } else if tag == WAVE_FORMAT_IEEE_FLOAT {
        SampleKind::Float
    } else if tag == WAVE_FORMAT_EXTENSIBLE && extra >= 22 {
        let tail: Vec<u8> = vec![0x00u8, 0x00, 0x00, 0x00, 0x00, 0x10, 0x00, 0x80, 0x00, 0x00, 0xaa, 0x00, 0x38, 0x9b, 0x71];
        let mut same_tail = true;
        let mut i: usize = 0;
        while i < 15
            invariant
                header@.len() >= 40,
                tail@ == pcm_subformat().subrange(1, 16),
                tail@ == float_subformat().subrange(1, 16),
                i <= 15,
                same_tail == (forall|j: int| 0 <= j < i ==> header@[25 + j] == tail@[j]),
            decreases 15 - i,
        {
            same_tail = same_tail && header[25 + i] == tail[i];
            i = i + 1;
        }
        proof {
            let g = header@.subrange(24, 40);
            if same_tail {
                assert(g.subrange(1, 16) =~= tail@);
            } else {
                let j = choose|j: int| 0 <= j < 15 && header@[25 + j] != tail@[j];
                assert(g[1 + j] != pcm_subformat()[1 + j]);
                assert(g[1 + j] != float_subformat()[1 + j]);
            }
            assert(header[24] == 1 && same_tail ==> g =~= pcm_subformat());
            assert(header[24] == 3 && same_tail ==> g =~= float_subformat());
            assert(header[24] != 1 ==> g[0] != pcm_subformat()[0]);
            assert(header[24] != 3 ==> g[0] != float_subformat()[0]);
        }
        if same_tail && header[24] == 1 {
            SampleKind::Pcm
        } else if same_tail && header[24] == 3 {
            SampleKind::Float
        } else {
            return Err(text("Unsupported Windows extensible audio subformat."));
        }
    } else {
        let mut m = String::new();
        push_str(&mut m, "Unsupported Windows audio format tag ");
        push_decimal(&mut m, tag as u64);
        push_str(&mut m, ".");
        assert(m@ =~= unsupported_tag_message(tag));
        return Err(m);
    };
    Ok(
        CaptureFormat {
            sample_rate: rate,
            channels,
            block_align: block_align as usize,
            bytes_per_sample: bytes_per_sample as usize,
            bits_per_sample: bits,
            kind,
        },
    )
}

// ---------------------------------------------------------------------------
// Samples
// ---------------------------------------------------------------------------

/// The signed 16-bit value of two little-endian bytes.
pub open spec fn signed16(lo: u8, hi: u8) -> int {
    if hi >= 128 {
        lo + 256 * hi - 65536
    } else {
        lo + 256 * hi
    }
}

/// An integer PCM sample of `bits` bits scaled to 16 bits: 8-bit samples are
/// unsigned and widened, wider samples keep their two most significant bytes,
/// and unsupported widths give silence.
pub open spec fn pcm_value(b: Seq<u8>, bits: u16) -> int {
    if bits == 8 {
        (b[0] - 128) * 256
    } else if bits == 16 {
        signed16(b[0], b[1])
    } else if bits == 24 {
        signed16(b[1], b[2])
    } else if bits == 32 {
        signed16(b[2], b[3])
    } else {
        0
    }
}

/// The bytes an integer sample of `bits` bits occupies when it is read.
pub open spec fn pcm_width(bits: u16) -> nat {
    if bits == 8 {
        1
    } else if bits == 16 {
        2
    } else if bits == 24 {
        3
    } else if bits == 32 {
        4
    } else {
        0
    }
}

fn signed16_exec(lo: u8, hi: u8) -> (v: i16)
    ensures
        v as int == signed16(lo, hi),
{
    if hi >= 128 {
        (lo as i32 + 256 * (hi as i32) - 65536) as i16
    } else {
        (lo as i32 + 256 * (hi as i32)) as i16
    }
}

/// Converts one integer PCM sample to 16 bits.
pub fn pcm_sample(bytes: &[u8], bits: u16) -> (v: i16)
    requires
        bytes@.len() >= pcm_width(bits),
    ensures
        v as int == pcm_value(bytes@, bits),
{
    if bits == 8 {
        ((bytes[0] as i16) - 128) * 256
    } else if bits == 16 {
        signed16_exec(bytes[0], bytes[1])
    } else if bits == 24 {
        signed16_exec(bytes[1], bytes[2])
    } else if bits == 32 {
        signed16_exec(bytes[2], bytes[3])
    } else {
        0
    }
}

/// Converts one little-endian IEEE float sample to 16 bits.
pub fn float_sample(bytes: &[u8]) -> (v: i16)
    requires
        bytes@.len() >= 4,
    ensures
        v as int == f32_bits_to_pcm16(le_word(bytes@, 0)),
{
    pcm16_from_f32_bits(read_le32(bytes, 0))
}

/// The sample stored at `offset` in a buffer of `format`.
pub open spec fn sample_value(bytes: Seq<u8>, offset: int, format: CaptureFormat) -> int {
    match format.kind {
        SampleKind::Pcm => pcm_value(bytes.subrange(offset, bytes.len() as int), format.bits_per_sample),
        SampleKind::Float => f32_bits_to_pcm16(le_word(bytes, offset)),
    }
}

/// The offset of a channel's sample in a frame.
pub open spec fn sample_offset(format: CaptureFormat, frame: int, channel: int) -> int {
    frame * format.block_align + channel * format.bytes_per_sample
}

/// `format` is one that `read_capture_format` yields and that a buffer of
/// `frames` frames of it fits in `len` bytes.
pub open spec fn buffer_fits(format: CaptureFormat, frames: nat, len: nat) -> bool {
    &&& format.bytes_per_sample >= pcm_width(format.bits_per_sample)
    &&& (format.kind is Float ==> format.bytes_per_sample >= 4)
    &&& frames * format.channels <= usize::MAX
    &&& (frames > 0 && format.channels > 0) ==> sample_offset(
        format,
        frames - 1,
        format.channels - 1,
    ) + format.bytes_per_sample <= len
}

/// Whether `decode_samples` may read `frames` frames of `format` from `len` bytes.
pub fn fits_buffer(format: CaptureFormat, frames: usize, len: usize) -> (r: bool)
    ensures
        r == buffer_fits(format, frames as nat, len as nat),
{
    let bits = format.bits_per_sample;
    let width: usize = if bits == 8 {
        1
    } else if bits == 16 {
        2
    } else if bits == 24 {
        3
    } else if bits == 32 {
        4
    } else {
        0
    };
    if format.bytes_per_sample < width {
        return false;
    }
    let float_too_narrow = match format.kind {
        SampleKind::Float => format.bytes_per_sample < 4,
        SampleKind::Pcm => false,
    };
    if float_too_narrow {
        return false;
    }
    let channels = format.channels as usize;
    if frames.checked_mul(channels).is_none() {
        return false;
    }
    if frames == 0 || channels == 0 {
        return true;
    }
    let last_frame = (frames - 1).checked_mul(format.block_align);
    let last_channel = (channels - 1).checked_mul(format.bytes_per_sample);
    match (last_frame, last_channel) {
        (Some(a), Some(b)) => match a.checked_add(b) {
            Some(start) => match start.checked_add(format.bytes_per_sample) {
                Some(end) => end <= len,
                None => false,
            },
            None => false,
        },
        _ => false,
    }
}

/// Decodes `frames` interleaved frames of `format` into 16-bit samples.
pub fn decode_samples(bytes: &[u8], frames: usize, format: CaptureFormat) -> (samples: Vec<i16>)
    requires
        buffer_fits(format, frames as nat, bytes@.len()),
    ensures
        samples@.len() == frames * format.channels,
        forall|f: int, c: int|
            0 <= f < frames && 0 <= c < format.channels ==> #[trigger] samples@[f
                * format.channels + c] as int == sample_value(
                bytes@,
                sample_offset(format, f, c),
                format,
            ),
{
    let channels = format.channels as usize;
    let mut samples: Vec<i16> = Vec::new();
    let mut frame: usize = 0;
    while frame < frames
        invariant
            buffer_fits(format, frames as nat, bytes@.len()),
            channels == format.channels,
            frame <= frames,
            samples@.len() == frame * channels,
            forall|f: int, c: int|
                0 <= f < frame && 0 <= c < channels ==> #[trigger] samples@[f * channels + c] as int
                    == sample_value(bytes@, sample_offset(format, f, c), format),
        decreases frames - frame,
    {
        let mut channel: usize = 0;
        while channel < channels
            invariant
                buffer_fits(format, frames as nat, bytes@.len()),
                channels == format.channels,
                frame < frames,
                channel <= channels,
                samples@.len() == frame * channels + channel,
                forall|f: int, c: int|
                    0 <= f < frame && 0 <= c < channels ==> #[trigger] samples@[f * channels + c] as int
                        == sample_value(bytes@, sample_offset(format, f, c), format),
                forall|c: int|
                    0 <= c < channel ==> #[trigger] samples@[frame * channels + c] as int
                        == sample_value(bytes@, sample_offset(format, frame as int, c), format),
            decreases channels - channel,
        {
            let total = bytes.len();
            proof {
                lemma_offset_fits(format, frames as nat, bytes@.len(), frame as int, channel as int);
                assert(total == bytes@.len());
                assert(frame * format.block_align <= total);
                assert(channel * format.bytes_per_sample <= total);
            }
            let frame_start = frame * format.block_align;
            let within = channel * format.bytes_per_sample;
            let offset = frame_start + within;
            let end = offset + format.bytes_per_sample;
            let sample = match format.kind {
                SampleKind::Pcm => {
                    let piece = slice_range(bytes, offset, end);
                    let v = pcm_sample(piece.as_slice(), format.bits_per_sample);
                    proof {
                        let rest = bytes@.subrange(offset as int, bytes@.len() as int);
                        assert forall|j: int| 0 <= j < piece@.len() implies piece@[j] == rest[j] by {}
                        assert(pcm_value(piece@, format.bits_per_sample) == pcm_value(rest, format.bits_per_sample));
                    }
                    v
                },
                SampleKind::Float => {
                    let piece = slice_range(bytes, offset, end);
                    let v = float_sample(piece.as_slice());
                    assert(le_word(piece@, 0) == le_word(bytes@, offset as int));
                    v
                },
            };
            let ghost before = samples@;
            samples.push(sample);
            proof {
                assert(samples@[frame * channels + channel] == sample);
                assert forall|f: int, c: int|
                    0 <= f < frame && 0 <= c < channels implies #[trigger] samples@[f * channels + c] as int
                        == sample_value(bytes@, sample_offset(format, f, c), format) by {
                    lemma_index_before(f, c, frame as int, channels as int);
                    assert(samples@[f * channels + c] == before[f * channels + c]);
                }
                assert forall|c: int|
                    0 <= c < channel + 1 implies #[trigger] samples@[frame * channels + c] as int
                        == sample_value(bytes@, sample_offset(format, frame as int, c), format) by {
                    if c < channel {
                        assert(samples@[frame * channels + c] == before[frame * channels + c]);
                    }
                }
            }
            channel = channel + 1;
        }
        proof {
            assert(frame * channels + channels == (frame + 1) * channels) by (nonlinear_arith);
            assert forall|f: int, c: int|
                0 <= f < frame + 1 && 0 <= c < channels implies #[trigger] samples@[f * channels + c] as int
                    == sample_value(bytes@, sample_offset(format, f, c), format) by {
                if f == frame {
                } else {
                }
            }
        }
        frame = frame + 1;
    }
    samples
}

proof fn lemma_index_before(f: int, c: int, frame: int, channels: int)
    requires
        0 <= f < frame,
        0 <= c < channels,
    ensures
        f * channels + c < frame * channels,
{
    assert(f * channels + c < (f + 1) * channels) by (nonlinear_arith)
        requires
            c < channels,
    ;
    assert((f + 1) * channels <= frame * channels) by (nonlinear_arith)
        requires
            f + 1 <= frame,
            0 < channels,
    ;
}

proof fn lemma_offset_fits(format: CaptureFormat, frames: nat, len: nat, f: int, c: int)
    requires
        buffer_fits(format, frames, len),
        0 <= f < frames,
        0 <= c < format.channels,
    ensures
        sample_offset(format, f, c) + format.bytes_per_sample <= len,
        0 <= f * format.block_align <= len,
        0 <= c * format.bytes_per_sample <= len,
{
    assert(f * format.block_align <= (frames - 1) * format.block_align) by (nonlinear_arith)
        requires
            0 <= f <= frames - 1,
    ;
    assert(c * format.bytes_per_sample <= (format.channels - 1) * format.bytes_per_sample) by (nonlinear_arith)
        requires
            0 <= c <= format.channels - 1,
    ;
    assert(0 <= f * format.block_align) by (nonlinear_arith)
        requires
            0 <= f,
    ;
    assert(0 <= c * format.bytes_per_sample) by (nonlinear_arith)
        requires
            0 <= c,
    ;
}

/// A copy of `bytes[from..to]`.
fn slice_range(bytes: &[u8], from: usize, to: usize) -> (out: Vec<u8>)
    requires
        from <= to <= bytes@.len(),
    ensures
        out@ == bytes@.subrange(from as int, to as int),
{
    let mut out: Vec<u8> = Vec::new();
    let mut i = from;
    while i < to
        invariant
            from <= i <= to <= bytes@.len(),
            out@ == bytes@.subrange(from as int, i as int),
        decreases to - i,
    {
        out.push(bytes[i]);
        i = i + 1;
        assert(out@ =~= bytes@.subrange(from as int, i as int));
    }
    out
}

// ---------------------------------------------------------------------------
// Permissions
// ---------------------------------------------------------------------------

/// The status reported after every endpoint that `mode` needs was opened:
/// those permissions are granted and the others are not required.
pub open spec fn probed_status(mode: CaptureMode) -> (Seq<char>, Seq<char>) {
    (
        if mode.needs_microphone() { "granted"@ } else { "not_required"@ },
        if mode.needs_screen_recording() { "granted"@ } else { "not_required"@ },
    )
}

/// The permission status for `mode` once its endpoints were probed: `probe` is
/// the first endpoint failure, if any.
pub fn check_permissions(mode: CaptureMode, probe: Result<(), String>) -> (r: Result<PermissionStatus, HelperError>)
    ensures
        match probe {
            Ok(()) => r matches Ok(s) && (s.microphone@, s.screen_recording@) == probed_status(mode),
            Err(e) => r matches Err(HelperError::Backend(m)) && m@ == e@,
        },
{
    match probe {
        Err(e) => Err(HelperError::Backend(e)),
        Ok(()) => Ok(
            PermissionStatus {
                microphone: if mode.requires_microphone() {
                    text("granted")
                } else {
                    text("not_required")
                },
                screen_recording: if mode.requires_screen_recording() {
                    text("granted")
                } else {
                    text("not_required")
                },
            },
        ),
    }
}

/// Windows has no prompt for these permissions: requesting them is probing them.
pub fn request_permissions(mode: CaptureMode, probe: Result<(), String>) -> (r: Result<PermissionStatus, HelperError>)
    ensures
        match probe {
            Ok(()) => r matches Ok(s) && (s.microphone@, s.screen_recording@) == probed_status(mode),
            Err(e) => r matches Err(HelperError::Backend(m)) && m@ == e@,
        },
{
    check_permissions(mode, probe)
}

/// The mix format follows the WAVEFORMATEX header: a header, with the extra
/// bytes it announces, that has channels, a rate and at least 8 bits per sample is read with integer samples when its tag
/// is 1 (PCM), with float samples when its tag is 3 (IEEE float), and for the
/// extensible tag (0xfffe, at least 22 extra bytes) by its SubFormat GUID; the
/// rate, channel count, block alignment and sample width are the header's own,
/// and float samples are only ever read from a float tag or GUID.
pub proof fn lemma_format_follows_header(b: Seq<u8>)
    requires
        b.len() >= 18,
        b.len() >= 18 + b[16] + 256 * b[17],
        b[2] + 256 * b[3] != 0,
        b[4] + 256 * b[5] + 65536 * b[6] + 16777216 * b[7] != 0,
        b[14] + 256 * b[15] >= 8,
    ensures
        b[0] == 1 && b[1] == 0 ==> (capture_format_of(b) matches Ok(f) && f.kind == SampleKind::Pcm),
        b[0] == 3 && b[1] == 0 ==> (capture_format_of(b) matches Ok(f) && f.kind == SampleKind::Float),
        b[0] == 0xfe && b[1] == 0xff && b[16] + 256 * b[17] >= 22 && b.len() >= 40 && b[24] == 3
            && b.subrange(25, 40) == seq![0x00u8, 0x00, 0x00, 0x00, 0x00, 0x10, 0x00, 0x80, 0x00, 0x00, 0xaa, 0x00, 0x38, 0x9b, 0x71]
            ==> (capture_format_of(b) matches Ok(f) && f.kind == SampleKind::Float),
        b[0] == 0xfe && b[1] == 0xff && b[16] + 256 * b[17] >= 22 && b.len() >= 40 && b[24] == 1
            && b.subrange(25, 40) == seq![0x00u8, 0x00, 0x00, 0x00, 0x00, 0x10, 0x00, 0x80, 0x00, 0x00, 0xaa, 0x00, 0x38, 0x9b, 0x71]
            ==> (capture_format_of(b) matches Ok(f) && f.kind == SampleKind::Pcm),
        capture_format_of(b) matches Ok(f) ==> {
            &&& f.channels == b[2] + 256 * b[3]
            &&& f.sample_rate == b[4] + 256 * b[5] + 65536 * b[6] + 16777216 * b[7]
            &&& f.block_align == b[12] + 256 * b[13]
            &&& f.bits_per_sample == b[14] + 256 * b[15]
            &&& f.bytes_per_sample == (b[14] + 256 * b[15]) / 8
            &&& (f.kind == SampleKind::Float ==> (b[0] == 3 && b[1] == 0) || (b[0] == 0xfe && b[1]
                == 0xff && b[24] == 3))
            &&& (f.kind == SampleKind::Pcm ==> (b[0] == 1 && b[1] == 0) || (b[0] == 0xfe && b[1]
                == 0xff && b[24] == 1))
        },
{
    let sub = b.subrange(24, 40);
    if b.len() >= 40 {
        assert(sub[0] == b[24]);
        assert(pcm_subformat()[0] == 1);
        assert(float_subformat()[0] == 3);
        if b.subrange(25, 40) == seq![0x00u8, 0x00, 0x00, 0x00, 0x00, 0x10, 0x00, 0x80, 0x00, 0x00, 0xaa, 0x00, 0x38, 0x9b, 0x71] {
            if b[24] == 1 {
                assert(sub =~= pcm_subformat());
            }
            if b[24] == 3 {
                assert(sub =~= float_subformat());
            }
        }
    }
}

/// After every endpoint a mode needs was opened, the reported status is ready
/// for that mode: the microphone is granted for microphone and combined capture,
/// Screen Recording for system and combined capture, and a permission the mode
/// does not use is reported as not required.
pub proof fn lemma_probed_status_is_ready(mode: CaptureMode, status: PermissionStatus)
    requires
        (status.microphone@, status.screen_recording@) == probed_status(mode),
    ensures
        (mode is Microphone || mode is Both) ==> status.microphone@ == "granted"@,
        (mode is System || mode is Both) ==> status.screen_recording@ == "granted"@,
        mode is System ==> status.microphone@ == "not_required"@,
        mode is Microphone ==> status.screen_recording@ == "not_required"@,
        !microphone_missing(status, mode) && !screen_recording_missing(status, mode),
{
}

} // verus!
