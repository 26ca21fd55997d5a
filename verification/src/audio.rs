//! Shared PCM16 WAV layout and sample conversion.
use vstd::prelude::*;
use vstd::arithmetic::power2::{pow2, lemma_pow2_pos, lemma_pow2_unfold, lemma2_to64, lemma2_to64_rest};

verus! {

/// The WAV format tag of integer PCM.
pub const WAVE_FORMAT_PCM: u16 = 1;

// ---------------------------------------------------------------------------
// Little-endian encodings
// ---------------------------------------------------------------------------

pub open spec fn le16(n: nat) -> Seq<u8> {
    seq![(n % 256) as u8, ((n / 256) % 256) as u8]
}

pub open spec fn le32(n: nat) -> Seq<u8> {
    seq![
        (n % 256) as u8,
        ((n / 256) % 256) as u8,
        ((n / 65536) % 256) as u8,
        ((n / 16777216) % 256) as u8,
    ]
}

/// The two's-complement bit pattern of a 16-bit sample.
pub open spec fn sample_bits(x: i16) -> nat {
    if x < 0 {
        (x + 65536) as nat
    } else {
        x as nat
    }
}

/// PCM16 samples as little-endian bytes.
pub open spec fn pcm16_bytes(samples: Seq<i16>) -> Seq<u8>
    decreases samples.len(),
{
    if samples.len() == 0 {
        Seq::empty()
    } else {
        pcm16_bytes(samples.drop_last()) + le16(sample_bits(samples.last()))
    }
}

fn push_le16(out: &mut Vec<u8>, n: u16)
    ensures
        final(out)@ == old(out)@ + le16(n as nat),
{
    out.push((n % 256) as u8);
    out.push((n / 256) as u8);
    assert(final(out)@ =~= old(out)@ + le16(n as nat));
}

fn push_le32(out: &mut Vec<u8>, n: u32)
    ensures
        final(out)@ == old(out)@ + le32(n as nat),
{
    out.push((n % 256) as u8);
    out.push(((n / 256) % 256) as u8);
    out.push(((n / 65536) % 256) as u8);
    out.push((n / 16777216) as u8);
    assert(final(out)@ =~= old(out)@ + le32(n as nat));
}

fn push_bytes(out: &mut Vec<u8>, bytes: &[u8])
    ensures
        final(out)@ == old(out)@ + bytes@,
{
    let mut i: usize = 0;
    while i < bytes.len()
        invariant
            i <= bytes@.len(),
            out@ == old(out)@ + bytes@.take(i as int),
        decreases bytes.len() - i,
    {
        out.push(bytes[i]);
        i = i + 1;
        assert(out@ =~= old(out)@ + bytes@.take(i as int));
    }
    assert(bytes@.take(bytes@.len() as int) =~= bytes@);
}

/// The little-endian bytes of PCM16 samples, as a WAV `data` chunk holds them.
pub fn encode_samples(samples: &[i16]) -> (bytes: Vec<u8>)
    ensures
        bytes@ == pcm16_bytes(samples@),
{
    let mut bytes: Vec<u8> = Vec::new();
    let mut i: usize = 0;
    while i < samples.len()
        invariant
            i <= samples@.len(),
            bytes@ == pcm16_bytes(samples@.take(i as int)),
        decreases samples.len() - i,
    {
        let x = samples[i];
        let u: u16 = if x < 0 {
            (x as i32 + 65536) as u16
        } else {
            x as u16
        };
        push_le16(&mut bytes, u);
        assert(samples@.take(i + 1).drop_last() =~= samples@.take(i as int));
        i = i + 1;
    }
    assert(samples@.take(samples@.len() as int) =~= samples@);
    bytes
}

// ---------------------------------------------------------------------------
// The WAV header
// ---------------------------------------------------------------------------

/// The WAV file is larger than its 32-bit size fields can describe.
#[derive(Debug, Clone, Copy, PartialEq, Eq, Structural)]
pub enum WavError {
    TooLarge,
}

impl WavError {
    pub fn message(&self) -> (m: &'static str)
        ensures
            m@ == "WAV file is too large"@,
    {
        "WAV file is too large"
    }
}

/// A PCM16 WAV stream being written: its format and how many data bytes it holds.
pub struct WavWriter {
    data_bytes: u32,
    sample_rate: u32,
    channels: u16,
    /// Every sample counted so far, in order.
    samples: Ghost<Seq<i16>>,
}

/// The 44-byte header of a PCM16 WAV file.
pub open spec fn wav_header(sample_rate: u32, channels: u16, data_bytes: u32) -> Seq<u8> {
    "RIFF"@.map_values(|c: char| c as u8) + le32((36 + data_bytes) as nat) + "WAVEfmt "@.map_values(
        |c: char| c as u8,
    ) + le32(16) + le16(WAVE_FORMAT_PCM as nat) + le16(channels as nat) + le32(sample_rate as nat)
        + le32((sample_rate * channels * 2) as nat) + le16((channels * 2) as nat) + le16(16)
        + "data"@.map_values(|c: char| c as u8) + le32(data_bytes as nat)
}

/// The format's byte rate and block alignment fit their 32- and 16-bit fields.
pub open spec fn wav_format_fits(sample_rate: u32, channels: u16) -> bool {
    sample_rate * channels * 2 <= u32::MAX && channels * 2 <= u16::MAX
}

impl WavWriter {
    /// The data bytes written so far.
    pub closed spec fn data_len(&self) -> u32 {
        self.data_bytes
    }

    pub closed spec fn rate(&self) -> u32 {
        self.sample_rate
    }

    pub closed spec fn channel_count(&self) -> u16 {
        self.channels
    }

    /// The samples counted by `count_samples` so far, in order.
    pub closed spec fn written(&self) -> Seq<i16> {
        self.samples@
    }

    /// A stream with no data yet; its file starts with 44 placeholder bytes.
    pub fn create(sample_rate: u32, channels: u16) -> (w: WavWriter)
        ensures
            w.data_len() == 0,
            w.rate() == sample_rate,
            w.channel_count() == channels,
            w.written() == Seq::<i16>::empty(),
    {
        WavWriter { data_bytes: 0, sample_rate, channels, samples: Ghost(Seq::empty()) }
    }

    /// The placeholder bytes a new WAV file starts with, overwritten by `header` when finished.
    pub fn placeholder() -> (bytes: Vec<u8>)
        ensures
            bytes@ == Seq::new(44, |i: int| 0u8),
    {
        let mut bytes: Vec<u8> = Vec::new();
        let mut i: usize = 0;
        while i < 44
            invariant
                i <= 44,
                bytes@ == Seq::new(i as nat, |j: int| 0u8),
            decreases 44 - i,
        {
            bytes.push(0);
            i = i + 1;
            assert(bytes@ =~= Seq::new(i as nat, |j: int| 0u8));
        }
        bytes
    }

    /// Accounts for `byte_count` data bytes just written (their count taken
    /// modulo 2^32); fails when the total no longer fits the 32-bit size field.
    pub fn add_data_bytes(&mut self, byte_count: usize) -> (r: Result<(), WavError>)
        ensures
            final(self).rate() == old(self).rate(),
            final(self).channel_count() == old(self).channel_count(),
            r is Ok <==> old(self).data_len() + (byte_count as int) % 4294967296 <= u32::MAX,
            r is Ok ==> final(self).data_len() == old(self).data_len() + (byte_count as int) % 4294967296,
            r is Err ==> final(self).data_len() == old(self).data_len(),
            final(self).written() == old(self).written(),
    {
        let added = ((byte_count as u64) % 4294967296) as u32;
        match self.data_bytes.checked_add(added) {
            Some(total) => {
                self.data_bytes = total;
                Ok(())
            },
            None => Err(WavError::TooLarge),
        }
    }

    /// Accounts for `samples`, whose bytes (`encode_samples`) were just appended to
    /// the file: their byte count, taken modulo 2^32, is added to the data size,
    /// and they join the samples written; fails, counting nothing, when the total
    /// no longer fits the 32-bit size field. While every chunk's byte count fits
    /// 32 bits, the data size stays two bytes per sample written.
    pub fn count_samples(&mut self, samples: &[i16]) -> (r: Result<(), WavError>)
        ensures
            final(self).rate() == old(self).rate(),
            final(self).channel_count() == old(self).channel_count(),
            r is Ok <==> old(self).data_len() + (2 * samples@.len()) % 4294967296 <= u32::MAX,
            r is Ok ==> final(self).data_len() == old(self).data_len() + (2 * samples@.len())
                % 4294967296 && final(self).written() == old(self).written() + samples@,
            r is Err ==> final(self).data_len() == old(self).data_len() && final(self).written()
                == old(self).written(),
            (r is Ok && old(self).data_len() == 2 * old(self).written().len() && 2 * samples@.len()
                < 4294967296) ==> final(self).data_len() == 2 * final(self).written().len(),
    {
        let n = samples.len() as u64;
        let count = (n % 0x8000_0000) * 2;
        assert(count == (2 * samples@.len()) % 4294967296) by (nonlinear_arith)
            requires
                count == (n % 0x8000_0000) * 2,
                n == samples@.len(),
        {
        }
        let r = self.add_data_bytes(count as usize);
        if r.is_ok() {
            self.samples = Ghost(self.samples@ + samples@);
        }
        r
    }

    /// The final 44-byte header describing the data written so far.
    pub fn header(&self) -> (r: Result<Vec<u8>, WavError>)
        requires
            wav_format_fits(self.rate(), self.channel_count()),
        ensures
            r is Ok <==> 36 + self.data_len() <= u32::MAX,
            r matches Ok(bytes) ==> bytes@ == wav_header(
                self.rate(),
                self.channel_count(),
                self.data_len(),
            ),
    {
        let byte_rate = self.sample_rate * (self.channels as u32) * 2;
        let block_align = self.channels * 2;
        let riff_size = match 36u32.checked_add(self.data_bytes) {
            Some(size) => size,
            None => return Err(WavError::TooLarge),
        };
        let mut out: Vec<u8> = Vec::new();
        push_bytes(&mut out, "RIFF".as_bytes());
        push_le32(&mut out, riff_size);
        push_bytes(&mut out, "WAVEfmt ".as_bytes());
        push_le32(&mut out, 16);
        push_le16(&mut out, WAVE_FORMAT_PCM);
        push_le16(&mut out, self.channels);
        push_le32(&mut out, self.sample_rate);
        push_le32(&mut out, byte_rate);
        push_le16(&mut out, block_align);
        push_le16(&mut out, 16);
        push_bytes(&mut out, "data".as_bytes());
        push_le32(&mut out, self.data_bytes);
        proof {
            reveal_strlit("RIFF");
            reveal_strlit("WAVEfmt ");
            reveal_strlit("data");
            vstd::string::is_ascii_spec_bytes("RIFF");
            vstd::string::is_ascii_spec_bytes("WAVEfmt ");
            vstd::string::is_ascii_spec_bytes("data");
        }
        assert(out@ =~= wav_header(self.sample_rate, self.channels, self.data_bytes));
        Ok(out)
    }
}

// ---------------------------------------------------------------------------
// 32-bit float samples
// ---------------------------------------------------------------------------

/// The number of binary digits of `n` (zero for zero).
pub open spec fn significant_bits(n: nat) -> nat
    decreases n,
{
    if n == 0 {
        0
    } else {
        1 + significant_bits(n / 2)
    }
}

/// `n` rounded to the nearest value with at most 24 significant binary digits,
/// ties to the value whose last kept digit is even: the rounding an IEEE-754
/// single-precision result undergoes.
pub open spec fn round_to_24_bits(n: nat) -> nat {
    if significant_bits(n) <= 24 {
        n
    } else {
        let unit = pow2((significant_bits(n) - 24) as nat);
        let q = n / unit;
        let r = n % unit;
        if r * 2 > unit || (r * 2 == unit && q % 2 == 1) {
            (q + 1) * unit
        } else {
            q * unit
        }
    }
}

/// The 16-bit PCM sample for a little-endian IEEE-754 single-precision sample
/// given by its bit pattern: the value clamped to [-1, 1], multiplied by 32767
/// in single precision, then truncated toward zero (NaN gives 0).
///
/// A finite value below 1 in magnitude is `significand / 2^scale`; its product
/// with 32767 is `significand * 32767 / 2^scale`, which single precision rounds
/// to 24 significant bits (a product too small for a normal number rounds
/// differently, but such products are below 1 and truncate to 0 either way).
pub open spec fn f32_bits_to_pcm16(bits: u32) -> int {
    let negative = bits >= 0x8000_0000;
    let exponent = (bits / 0x80_0000) % 256;
    let fraction = bits % 0x80_0000;
    if exponent == 255 && fraction != 0 {
        0
    } else if exponent >= 127 {
        if negative {
            -32767
        } else {
            32767
        }
    } else {
        let significand: nat = if exponent == 0 {
            fraction as nat
        } else {
            (fraction + 0x80_0000) as nat
        };
        let scale: nat = if exponent == 0 {
            149
        } else {
            (150 - exponent) as nat
        };
        let magnitude = round_to_24_bits(significand * 32767) / pow2(scale);
        if negative {
            -magnitude
        } else {
            magnitude as int
        }
    }
}

proof fn lemma_significant_bits(n: nat)
    ensures
        n < pow2(significant_bits(n)),
        n > 0 ==> pow2((significant_bits(n) - 1) as nat) <= n,
    decreases n,
{
    lemma2_to64();
    if n > 0 {
        lemma_significant_bits(n / 2);
        lemma_pow2_unfold(significant_bits(n));
        if n / 2 > 0 {
            lemma_pow2_unfold(significant_bits(n / 2));
        }
    }
}

proof fn lemma_pow2_monotonic(a: nat, b: nat)
    requires
        a <= b,
    ensures
        pow2(a) <= pow2(b),
    decreases b,
{
    if a < b {
        lemma_pow2_monotonic(a, (b - 1) as nat);
        lemma_pow2_unfold(b);
        lemma_pow2_pos((b - 1) as nat);
    }
}

proof fn lemma_bits_bound(n: nat, b: nat)
    requires
        n < pow2(b),
    ensures
        significant_bits(n) <= b,
{
    lemma_significant_bits(n);
    if significant_bits(n) > b {
        lemma_pow2_monotonic(b, (significant_bits(n) - 1) as nat);
    }
}

/// The rounding to 24 bits moves no value above a bound that the rounding unit divides.
proof fn lemma_round_below(n: nat, c: nat)
    requires
        n < c,
        significant_bits(n) > 24 ==> c % pow2((significant_bits(n) - 24) as nat) == 0,
    ensures
        round_to_24_bits(n) <= c,
        round_to_24_bits(n) <= 2 * n,
{
    if significant_bits(n) > 24 {
        let k = (significant_bits(n) - 24) as nat;
        let unit = pow2(k);
        lemma_pow2_pos(k);
        let q = n / unit;
        let r = n % unit;
        assert(n == q * unit + r) by (nonlinear_arith)
            requires
                unit > 0,
                q == n / unit,
                r == n % unit,
        ;
        assert(c == (c / unit) * unit) by (nonlinear_arith)
            requires
                unit > 0,
                c % unit == 0,
        ;
        assert(q < c / unit) by (nonlinear_arith)
            requires
                n == q * unit + r,
                c == (c / unit) * unit,
                n < c,
                0 <= r,
                unit > 0,
        ;
        assert((q + 1) * unit <= c) by (nonlinear_arith)
            requires
                q + 1 <= c / unit,
                c == (c / unit) * unit,
                unit > 0,
        ;
        lemma_significant_bits(n);
        lemma_pow2_monotonic(k, (significant_bits(n) - 1) as nat);
        assert(unit <= n);
        assert((q + 1) * unit <= 2 * n) by (nonlinear_arith)
            requires
                n == q * unit + r,
                0 <= r,
                unit <= n,
        ;
        assert(q * unit <= n) by (nonlinear_arith)
            requires
                n == q * unit + r,
                0 <= r,
        ;
    }
}

fn pow2_u64(k: u64) -> (p: u64)
    requires
        k < 64,
    ensures
        p == pow2(k as nat),
{
    let mut p: u64 = 1;
    let mut i: u64 = 0;
    proof {
        lemma2_to64();
        lemma2_to64_rest();
    }
    while i < k
        invariant
            i <= k < 64,
            p == pow2(i as nat),
        decreases k - i,
    {
        proof {
            lemma_pow2_unfold((i + 1) as nat);
            lemma_pow2_monotonic(i as nat, 62);
            lemma2_to64_rest();
        }
        p = p * 2;
        i = i + 1;
    }
    p
}

fn round_to_24_bits_exec(n: u64) -> (r: u64)
    requires
        n < 0x80_0000_0000,
    ensures
        r == round_to_24_bits(n as nat),
{
    proof {
        lemma2_to64();
        lemma2_to64_rest();
        lemma_bits_bound(n as nat, 39);
    }
    let mut len: u64 = 0;
    let mut t: u64 = n;
    while t > 0
        invariant
            significant_bits(n as nat) == len + significant_bits(t as nat),
            significant_bits(n as nat) <= 39,
        decreases t,
    {
        t = t / 2;
        len = len + 1;
    }
    if len <= 24 {
        return n;
    }
    let k = len - 24;
    let unit = pow2_u64(k);
    let q = n / unit;
    let rem = n % unit;
    let up = rem * 2 > unit || (rem * 2 == unit && q % 2 == 1);
    proof {
        lemma_pow2_monotonic(k as nat, 15);
        assert(q * unit <= n) by (nonlinear_arith)
            requires
                unit >= 1,
                q == n / unit,
        ;
        assert((q + 1) * unit <= n + unit) by (nonlinear_arith)
            requires
                q * unit <= n,
        ;
    }
    if up {
        (q + 1) * unit
    } else {
        q * unit
    }
}

/// Converts one little-endian single-precision sample (given by its bits) to PCM16.
pub fn pcm16_from_f32_bits(bits: u32) -> (r: i16)
    ensures
        r as int == f32_bits_to_pcm16(bits),
{
    let negative = bits >= 0x8000_0000;
    let exponent = (bits / 0x80_0000) % 256;
    let fraction = bits % 0x80_0000;
    if exponent == 255 && fraction != 0 {
        return 0;
    }
    if exponent >= 127 {
        return if negative {
            -32767
        } else {
            32767
        };
    }
    proof {
        lemma2_to64();
        lemma2_to64_rest();
    }
    let significand: u64 = if exponent == 0 {
        fraction as u64
    } else {
        fraction as u64 + 0x80_0000
    };
    let scale: u64 = if exponent == 0 {
        149
    } else {
        (150 - exponent) as u64
    };
    let product: u64 = significand * 32767;
    let rounded = round_to_24_bits_exec(product);
    proof {
        lemma_pow2_pos(scale as nat);
        lemma_pow2_monotonic(24, scale as nat);
        let k = (significant_bits(product as nat) - 24) as nat;
        lemma_bits_bound(product as nat, 39);
        if significant_bits(product as nat) > 24 {
            lemma_pow2_monotonic(k, scale as nat);
            vstd::arithmetic::power2::lemma_pow2_adds(k, (scale - k) as nat);
            let c = 32767 * pow2(scale as nat);
            let other = 32767 * pow2((scale - k) as nat);
            assert(c == other * pow2(k)) by (nonlinear_arith)
                requires
                    c == 32767 * pow2(scale as nat),
                    pow2(scale as nat) == pow2(k) * pow2((scale - k) as nat),
                    other == 32767 * pow2((scale - k) as nat),
            ;
            lemma_pow2_pos(k);
            vstd::arithmetic::div_mod::lemma_mod_multiples_basic(other as int, pow2(k) as int);
        }
        assert(product < 32767 * pow2(scale as nat)) by (nonlinear_arith)
            requires
                product == significand * 32767,
                significand < pow2(24),
                pow2(24) <= pow2(scale as nat),
        ;
        lemma_round_below(product as nat, 32767 * pow2(scale as nat));
    }
    let magnitude: u64 = if scale >= 40 {
        proof {
            lemma_pow2_monotonic(40, scale as nat);
            assert(rounded <= 2 * product);
            assert(rounded < pow2(scale as nat));
            assert(rounded as nat / pow2(scale as nat) == 0) by (nonlinear_arith)
                requires
                    rounded < pow2(scale as nat),
            ;
        }
        0
    } else {
        let unit = pow2_u64(scale);
        proof {
            assert(rounded / unit <= 32767) by (nonlinear_arith)
                requires
                    rounded <= 32767 * unit,
                    unit > 0,
            ;
        }
        rounded / unit
    };
    if negative {
        -(magnitude as i16)
    } else {
        magnitude as i16
    }
}

/// Samples as the little-endian 32-bit words of `bytes`.
pub open spec fn le_word(bytes: Seq<u8>, i: int) -> u32 {
    (bytes[i] + 256 * bytes[i + 1] + 65536 * bytes[i + 2] + 16777216 * bytes[i + 3]) as u32
}

/// The PCM16 samples of little-endian F32 audio, one per four bytes.
pub open spec fn f32le_samples(bytes: Seq<u8>) -> Seq<i16> {
    Seq::new(bytes.len() / 4, |i: int| f32_bits_to_pcm16(le_word(bytes, i * 4)) as i16)
}

/// Reads a little-endian 32-bit word at `i`.
pub fn read_le32(bytes: &[u8], i: usize) -> (w: u32)
    requires
        i + 4 <= bytes@.len(),
    ensures
        w == le_word(bytes@, i as int),
{
    bytes[i] as u32 + 256 * (bytes[i + 1] as u32) + 65536 * (bytes[i + 2] as u32) + 16777216 * (
    bytes[i + 3] as u32)
}

/// Converts F32LE audio bytes to PCM16 samples; a trailing partial sample is refused.
pub fn f32le_to_pcm16(bytes: &[u8]) -> (r: Result<Vec<i16>, &'static str>)
    ensures
        r is Ok <==> bytes@.len() % 4 == 0,
        r matches Ok(samples) ==> samples@ == f32le_samples(bytes@),
        r matches Err(m) ==> m@ == "PipeWire returned an incomplete F32LE sample"@,
{
    if bytes.len() % 4 != 0 {
        return Err("PipeWire returned an incomplete F32LE sample");
    }
    let count = bytes.len() / 4;
    let mut samples: Vec<i16> = Vec::new();
    let mut i: usize = 0;
    while i < count
        invariant
            count == bytes@.len() / 4,
            bytes@.len() % 4 == 0,
            i <= count,
            samples@ == f32le_samples(bytes@).take(i as int),
        decreases count - i,
    {
        assert(i * 4 + 4 <= bytes.len()) by (nonlinear_arith)
            requires
                i < count,
                count == bytes.len() / 4,
        ;
        let offset: usize = i * 4;
        let word = read_le32(bytes, offset);
        samples.push(pcm16_from_f32_bits(word));
        i = i + 1;
        assert(samples@ =~= f32le_samples(bytes@).take(i as int));
    }
    assert(samples@ =~= f32le_samples(bytes@));
    Ok(samples)
}

/// A converted sample is always within [-32767, 32767]: values beyond full
/// scale are clamped, and the most negative 16-bit value is never produced.
pub proof fn lemma_pcm16_in_range(bits: u32)
    ensures
        -32767 <= f32_bits_to_pcm16(bits) <= 32767,
{
    let negative = bits >= 0x8000_0000;
    let exponent = (bits / 0x80_0000) % 256;
    let fraction = bits % 0x80_0000;
    if !(exponent == 255 && fraction != 0) && exponent < 127 {
        lemma2_to64();
        lemma2_to64_rest();
        let significand: nat = if exponent == 0 { fraction as nat } else { (fraction + 0x80_0000) as nat };
        let scale: nat = if exponent == 0 { 149 } else { (150 - exponent) as nat };
        let product = significand * 32767;
        lemma_pow2_pos(scale);
        lemma_pow2_monotonic(24, scale);
        lemma_bits_bound(product, 39);
        if significant_bits(product) > 24 {
            let k = (significant_bits(product) - 24) as nat;
            lemma_pow2_monotonic(k, scale);
            vstd::arithmetic::power2::lemma_pow2_adds(k, (scale - k) as nat);
            let c = 32767 * pow2(scale);
            let other = 32767 * pow2((scale - k) as nat);
            assert(c == other * pow2(k)) by (nonlinear_arith)
                requires
                    c == 32767 * pow2(scale),
                    pow2(scale) == pow2(k) * pow2((scale - k) as nat),
                    other == 32767 * pow2((scale - k) as nat),
            ;
            lemma_pow2_pos(k);
            vstd::arithmetic::div_mod::lemma_mod_multiples_basic(other as int, pow2(k) as int);
        }
        assert(product < 32767 * pow2(scale)) by (nonlinear_arith)
            requires
                product == significand * 32767,
                significand < pow2(24),
                pow2(24) <= pow2(scale),
        ;
        lemma_round_below(product, 32767 * pow2(scale));
        let r = round_to_24_bits(product);
        assert(r / pow2(scale) <= 32767) by (nonlinear_arith)
            requires
                r <= 32767 * pow2(scale),
                pow2(scale) > 0,
        ;
    }
}

/// Sample bytes written in two pieces are the bytes of all the samples, two per sample.
proof fn lemma_pcm16_bytes_append(a: Seq<i16>, b: Seq<i16>)
    ensures
        pcm16_bytes(a + b) == pcm16_bytes(a) + pcm16_bytes(b),
        pcm16_bytes(b).len() == 2 * b.len(),
    decreases b.len(),
{
    if b.len() == 0 {
        assert(a + b =~= a);
        assert(pcm16_bytes(a) + pcm16_bytes(b) =~= pcm16_bytes(a));
    } else {
        lemma_pcm16_bytes_append(a, b.drop_last());
        assert((a + b).drop_last() =~= a + b.drop_last());
        assert((a + b).last() == b.last());
        assert(pcm16_bytes(a) + pcm16_bytes(b) =~= pcm16_bytes(a) + pcm16_bytes(b.drop_last()) + le16(
            sample_bits(b.last()),
        ));
    }
}

/// A finished WAV file is its header in place of the 44 placeholder bytes,
/// followed by the bytes of every sample written, in order: writing samples in
/// chunks gives the bytes of all of them, two per sample, and the header, 44 bytes
/// long, records the data size at byte 40 and the RIFF size (36 more) at byte 4.
pub proof fn lemma_wav_file_layout(
    sample_rate: u32,
    channels: u16,
    data_bytes: u32,
    written: Seq<i16>,
    more: Seq<i16>,
)
    ensures
        pcm16_bytes(written + more) == pcm16_bytes(written) + pcm16_bytes(more),
        pcm16_bytes(written).len() == 2 * written.len(),
        wav_header(sample_rate, channels, data_bytes).len() == 44,
        wav_header(sample_rate, channels, data_bytes).subrange(4, 8) == le32(
            (36 + data_bytes) as nat,
        ),
        wav_header(sample_rate, channels, data_bytes).subrange(40, 44) == le32(data_bytes as nat),
{
    lemma_pcm16_bytes_append(written, more);
    lemma_pcm16_bytes_append(Seq::empty(), written);
    assert(Seq::<i16>::empty() + written =~= written);
    reveal_strlit("RIFF");
    reveal_strlit("WAVEfmt ");
    reveal_strlit("data");
    let h = wav_header(sample_rate, channels, data_bytes);
    assert(h.subrange(4, 8) =~= le32((36 + data_bytes) as nat));
    assert(h.subrange(40, 44) =~= le32(data_bytes as nat));
}

/// What a file holds once `header` is written over its start.
pub open spec fn patch_start(file: Seq<u8>, header: Seq<u8>) -> Seq<u8> {
    header + file.subrange(header.len() as int, file.len() as int)
}

/// The samples of several chunks, one after the other.
pub open spec fn all_samples(chunks: Seq<Seq<i16>>) -> Seq<i16>
    decreases chunks.len(),
{
    if chunks.len() == 0 {
        Seq::empty()
    } else {
        all_samples(chunks.drop_last()) + chunks.last()
    }
}

/// The bytes of several chunks of samples, one chunk after the other.
pub open spec fn chunk_bytes(chunks: Seq<Seq<i16>>) -> Seq<u8>
    decreases chunks.len(),
{
    if chunks.len() == 0 {
        Seq::empty()
    } else {
        chunk_bytes(chunks.drop_last()) + pcm16_bytes(chunks.last())
    }
}

/// The bytes of chunks written one after the other are the bytes of all their samples.
proof fn lemma_chunk_bytes(chunks: Seq<Seq<i16>>)
    ensures
        chunk_bytes(chunks) == pcm16_bytes(all_samples(chunks)),
    decreases chunks.len(),
{
    if chunks.len() > 0 {
        lemma_chunk_bytes(chunks.drop_last());
        lemma_pcm16_bytes_append(all_samples(chunks.drop_last()), chunks.last());
    }
}

/// A finished WAV file is its header followed by the bytes of every sample
/// written, in order: the file holds the 44 placeholder bytes and then each
/// chunk's bytes as written, and the header written over the placeholder
/// describes the writer's data, two bytes per sample.
pub proof fn lemma_finished_wav_file(w: WavWriter, chunks: Seq<Seq<i16>>)
    requires
        all_samples(chunks) == w.written(),
        w.data_len() == 2 * w.written().len(),
    ensures
        patch_start(
            Seq::new(44, |i: int| 0u8) + chunk_bytes(chunks),
            wav_header(w.rate(), w.channel_count(), w.data_len()),
        ) == wav_header(w.rate(), w.channel_count(), w.data_len()) + pcm16_bytes(w.written()),
        pcm16_bytes(w.written()).len() == w.data_len(),
{
    lemma_chunk_bytes(chunks);
    lemma_wav_file_layout(w.rate(), w.channel_count(), w.data_len(), w.written(), Seq::empty());
    let file = Seq::new(44, |i: int| 0u8) + chunk_bytes(chunks);
    assert(file.subrange(44, file.len() as int) =~= chunk_bytes(chunks));
}

/// The header describes the writer's format, byte by byte: the `RIFF` tag and
/// size, `WAVEfmt `, a 16-byte PCM (tag 1) format chunk carrying the channel
/// count at byte 22, the sample rate at 24, the byte rate (rate x channels x 2)
/// at 28, the block alignment (channels x 2) at 32 and 16 bits per sample at 34,
/// then the `data` tag and the data size at 40.
pub proof fn lemma_wav_header_fields(sample_rate: u32, channels: u16, data_bytes: u32)
    requires
        wav_format_fits(sample_rate, channels),
    ensures
        ({
            let h = wav_header(sample_rate, channels, data_bytes);
            let byte_rate = sample_rate * channels * 2;
            let block_align = channels * 2;
            &&& h.len() == 44
            &&& h[0] == 0x52 && h[1] == 0x49 && h[2] == 0x46 && h[3] == 0x46
            &&& h[8] == 0x57 && h[9] == 0x41 && h[10] == 0x56 && h[11] == 0x45
            &&& h[12] == 0x66 && h[13] == 0x6d && h[14] == 0x74 && h[15] == 0x20
            &&& h[16] == 16 && h[17] == 0 && h[18] == 0 && h[19] == 0
            &&& h[20] == 1 && h[21] == 0
            &&& h[22] == channels % 256 && h[23] == channels / 256
            &&& h[24] == sample_rate % 256 && h[25] == (sample_rate / 256) % 256
            &&& h[26] == (sample_rate / 65536) % 256 && h[27] == sample_rate / 16777216
            &&& h[28] == byte_rate % 256 && h[29] == (byte_rate / 256) % 256
            &&& h[30] == (byte_rate / 65536) % 256 && h[31] == byte_rate / 16777216
            &&& h[32] == block_align % 256 && h[33] == block_align / 256
            &&& h[34] == 16 && h[35] == 0
            &&& h[36] == 0x64 && h[37] == 0x61 && h[38] == 0x74 && h[39] == 0x61
            &&& h[40] == data_bytes % 256 && h[41] == (data_bytes / 256) % 256
            &&& h[42] == (data_bytes / 65536) % 256 && h[43] == data_bytes / 16777216
        }),
{
    reveal_strlit("RIFF");
    reveal_strlit("WAVEfmt ");
    reveal_strlit("data");
    let h = wav_header(sample_rate, channels, data_bytes);
    assert(h.len() == 44);
}

} // verus!
