//! Mono PCM16 WAV files: encoding, decoding and cropping by milliseconds.
use vstd::prelude::*;
use crate::text::{chars_to_string, decimal, decimal_chars, extend_str, owned};
use crate::arith::{clip_u32, clip_u64, max_int, min_int, saturating_mul_u32, saturating_mul_u64};

verus! {

// ---------------------------------------------------------------------------
// Byte-level model
// ---------------------------------------------------------------------------

/// Little-endian bytes of a 16-bit value.
pub open spec fn le16(x: int) -> Seq<u8> {
    seq![(x % 256) as u8, (x / 256 % 256) as u8]
}

/// Little-endian bytes of a 32-bit value.
pub open spec fn le32(x: int) -> Seq<u8> {
    seq![(x % 256) as u8, (x / 256 % 256) as u8, (x / 65536 % 256) as u8, (x / 16777216 % 256) as u8]
}

/// The 16-bit little-endian value stored at `i`.
pub open spec fn u16_at(b: Seq<u8>, i: int) -> int {
    b[i] + 256 * b[i + 1]
}

/// The 32-bit little-endian value stored at `i`.
pub open spec fn u32_at(b: Seq<u8>, i: int) -> int {
    b[i] + 256 * b[i + 1] + 65536 * b[i + 2] + 16777216 * b[i + 3]
}

/// The two's complement bit pattern of a sample, as an unsigned number.
pub open spec fn sample_bits(s: i16) -> int {
    if s < 0 {
        s + 65536
    } else {
        s as int
    }
}

/// The sample whose two's complement bit pattern is `v` (`0 <= v < 65536`).
pub open spec fn sample_from_bits(v: int) -> i16 {
    if v >= 32768 {
        (v - 65536) as i16
    } else {
        v as i16
    }
}

/// The little-endian byte stream of a run of samples.
pub open spec fn pcm16_bytes(s: Seq<i16>) -> Seq<u8> {
    Seq::new(
        2 * s.len(),
        |i: int|
            if i % 2 == 0 {
                (sample_bits(s[i / 2]) % 256) as u8
            } else {
                (sample_bits(s[i / 2]) / 256) as u8
            },
    )
}

/// The samples held by a little-endian byte stream (a trailing odd byte is ignored).
pub open spec fn pcm16_samples(b: Seq<u8>) -> Seq<i16> {
    Seq::new(b.len() / 2, |i: int| sample_from_bits(u16_at(b, 2 * i)))
}

pub open spec fn tag_riff() -> Seq<u8> {
    seq![0x52u8, 0x49u8, 0x46u8, 0x46u8]
}

pub open spec fn tag_wave() -> Seq<u8> {
    seq![0x57u8, 0x41u8, 0x56u8, 0x45u8]
}

pub open spec fn tag_fmt() -> Seq<u8> {
    seq![0x66u8, 0x6du8, 0x74u8, 0x20u8]
}

pub open spec fn tag_data() -> Seq<u8> {
    seq![0x64u8, 0x61u8, 0x74u8, 0x61u8]
}

/// The 44-byte header of a mono PCM16 WAV file whose data chunk holds `data_len` bytes.
pub open spec fn wav_header(data_len: int, sample_rate: int) -> Seq<u8> {
    tag_riff() + le32(clip_u32(36 + data_len)) + tag_wave() + tag_fmt() + le32(16) + le16(1)
        + le16(1) + le32(sample_rate) + le32(clip_u32(2 * sample_rate)) + le16(2) + le16(16)
        + tag_data() + le32(data_len)
}

/// The bytes of the WAV file that holds `samples` at `sample_rate`.
pub open spec fn wav_bytes(samples: Seq<i16>, sample_rate: u32) -> Seq<u8> {
    wav_header(clip_u32(2 * samples.len() as int), sample_rate as int) + pcm16_bytes(samples)
}

/// Milliseconds that `sample_count` samples last (the product saturates at `u64::MAX`).
pub open spec fn duration_of(sample_count: int, sample_rate: int) -> int {
    clip_u64(sample_count * 1000) / sample_rate
}

/// The sample index that lies `offset_ms` into audio of `duration_ms` that holds
/// `sample_count` samples, rounded down and capped at `sample_count`.
pub open spec fn sample_index_of(offset_ms: int, duration_ms: int, sample_count: int) -> int {
    min_int(clip_u64(sample_count * offset_ms) / max_int(duration_ms, 1), sample_count)
}

// ---------------------------------------------------------------------------
// Decoding model
// ---------------------------------------------------------------------------

/// Why a byte string is not a mono PCM16 WAV file.
#[derive(Debug, Clone, Copy, PartialEq, Eq)]
pub enum WavError {
    NotRiffWave,
    ChunkLengthOverflow,
    TruncatedChunk,
    InvalidFmtChunk,
    UnsupportedFormat,
    InvalidDataLength,
    MissingFmtChunk,
    MissingDataChunk,
}

/// The chunk walk from `offset` on: the sample rate of the last `fmt ` chunk and the
/// samples of the last `data` chunk, given those seen before `offset`.
pub open spec fn scan_chunks(
    b: Seq<u8>,
    offset: int,
    rate: Option<u32>,
    data: Option<Seq<i16>>,
) -> Result<(Option<u32>, Option<Seq<i16>>), WavError>
    decreases b.len() + 2 - offset,
{
    if offset < 0 || offset + 8 > b.len() {
        Ok((rate, data))
    } else {
        let id = b.subrange(offset, offset + 4);
        let len = u32_at(b, offset + 4);
        let start = offset + 8;
        let end = start + len;
        if end > usize::MAX {
            Err(WavError::ChunkLengthOverflow)
        } else if end > b.len() {
            Err(WavError::TruncatedChunk)
        } else if id == tag_fmt() {
            if len < 16 {
                Err(WavError::InvalidFmtChunk)
            } else if u16_at(b, start) != 1 || u16_at(b, start + 2) != 1 || u16_at(b, start + 14)
                != 16 {
                Err(WavError::UnsupportedFormat)
            } else {
                scan_chunks(b, end + len % 2, Some(u32_at(b, start + 4) as u32), data)
            }
        } else if id == tag_data() {
            if len % 2 != 0 {
                Err(WavError::InvalidDataLength)
            } else {
                scan_chunks(b, end + len % 2, rate, Some(pcm16_samples(b.subrange(start, end))))
            }
        } else {
            scan_chunks(b, end + len % 2, rate, data)
        }
    }
}

/// The sample rate and samples of a mono PCM16 WAV file, or why it is not one.
pub open spec fn decode_spec(b: Seq<u8>) -> Result<(u32, Seq<i16>), WavError> {
    if b.len() < 12 || b.subrange(0, 4) != tag_riff() || b.subrange(8, 12) != tag_wave() {
        Err(WavError::NotRiffWave)
    } else {
        match scan_chunks(b, 12, None, None) {
            Err(e) => Err(e),
            Ok((None, _)) => Err(WavError::MissingFmtChunk),
            Ok((Some(_), None)) => Err(WavError::MissingDataChunk),
            Ok((Some(rate), Some(samples))) => Ok((rate, samples)),
        }
    }
}

/// The text that reports a decoding failure.
pub open spec fn wav_error_text(e: WavError) -> Seq<char> {
    match e {
        WavError::NotRiffWave => "unsupported WAV file; expected RIFF/WAVE"@,
        WavError::ChunkLengthOverflow => "WAV chunk length overflow"@,
        WavError::TruncatedChunk => "truncated WAV chunk"@,
        WavError::InvalidFmtChunk => "invalid WAV fmt chunk"@,
        WavError::UnsupportedFormat => "unsupported WAV format; expected PCM16 mono"@,
        WavError::InvalidDataLength => "invalid PCM16 WAV data length"@,
        WavError::MissingFmtChunk => "WAV fmt chunk was not found"@,
        WavError::MissingDataChunk => "WAV data chunk was not found"@,
    }
}

pub open spec fn opt_samples(o: Option<Vec<i16>>) -> Option<Seq<i16>> {
    match o {
        Some(v) => Some(v@),
        None => None,
    }
}

// ---------------------------------------------------------------------------
// Lemmas
// ---------------------------------------------------------------------------

proof fn lemma_le32_value(x: int)
    requires
        0 <= x <= u32::MAX,
    ensures
        le32(x)[0] + 256 * le32(x)[1] + 65536 * le32(x)[2] + 16777216 * le32(x)[3] == x,
{
}

/// The fields of a header sit where a reader looks for them.
proof fn lemma_header_fields(d: int, r: int)
    requires
        0 <= d <= u32::MAX,
        0 <= r <= u32::MAX,
    ensures
        ({
            let h = wav_header(d, r);
            &&& h.len() == 44
            &&& h.subrange(0, 4) == tag_riff()
            &&& h.subrange(8, 12) == tag_wave()
            &&& h.subrange(12, 16) == tag_fmt()
            &&& u32_at(h, 16) == 16
            &&& u16_at(h, 20) == 1
            &&& u16_at(h, 22) == 1
            &&& u32_at(h, 24) == r
            &&& u16_at(h, 34) == 16
            &&& h.subrange(36, 40) == tag_data()
            &&& u32_at(h, 40) == d
        }),
{
    let h = wav_header(d, r);
    let riff_len = clip_u32(36 + d);
    let byte_rate = clip_u32(2 * r);
    assert(h =~= seq![
        0x52u8, 0x49u8, 0x46u8, 0x46u8,
        le32(riff_len)[0], le32(riff_len)[1], le32(riff_len)[2], le32(riff_len)[3],
        0x57u8, 0x41u8, 0x56u8, 0x45u8,
        0x66u8, 0x6du8, 0x74u8, 0x20u8,
        16u8, 0u8, 0u8, 0u8,
        1u8, 0u8,
        1u8, 0u8,
        le32(r)[0], le32(r)[1], le32(r)[2], le32(r)[3],
        le32(byte_rate)[0], le32(byte_rate)[1], le32(byte_rate)[2], le32(byte_rate)[3],
        2u8, 0u8,
        16u8, 0u8,
        0x64u8, 0x61u8, 0x74u8, 0x61u8,
        le32(d)[0], le32(d)[1], le32(d)[2], le32(d)[3],
    ]);
    lemma_le32_value(r);
    lemma_le32_value(d);
    assert(h.subrange(0, 4) =~= tag_riff());
    assert(h.subrange(8, 12) =~= tag_wave());
    assert(h.subrange(12, 16) =~= tag_fmt());
    assert(h.subrange(36, 40) =~= tag_data());
}

/// Reading back the byte stream of a run of samples gives the samples.
proof fn lemma_pcm16_roundtrip(s: Seq<i16>)
    ensures
        pcm16_samples(pcm16_bytes(s)) == s,
{
    let b = pcm16_bytes(s);
    assert forall|i: int| 0 <= i < s.len() implies #[trigger] pcm16_samples(b)[i] == s[i] by {
        assert(b[2 * i] == (sample_bits(s[i]) % 256) as u8);
        assert((2 * i + 1) / 2 == i);
        assert(b[2 * i + 1] == (sample_bits(s[i]) / 256) as u8);
    }
    assert(pcm16_samples(b) =~= s);
}

proof fn lemma_scan_data_then_end(b: Seq<u8>, d: int, rate: u32, samples: Seq<i16>)
    requires
        b.len() == 44 + d,
        44 + d <= usize::MAX,
        0 <= d <= u32::MAX,
        d % 2 == 0,
        b.subrange(36, 40) == tag_data(),
        u32_at(b, 40) == d,
        pcm16_samples(b.subrange(44, 44 + d)) == samples,
    ensures
        scan_chunks(b, 36, Some(rate), None) == Ok::<(Option<u32>, Option<Seq<i16>>), WavError>(
            (Some(rate), Some(samples)),
        ),
{
    assert(tag_data()[0] != tag_fmt()[0]);
    assert(b.subrange(36, 40)[0] == tag_data()[0]);
    assert(b.subrange(36, 40) != tag_fmt());
    assert(scan_chunks(b, 44 + d, Some(rate), Some(samples)) == Ok::<
        (Option<u32>, Option<Seq<i16>>),
        WavError,
    >((Some(rate), Some(samples))));
}

proof fn lemma_scan_fmt_step(b: Seq<u8>, rate: u32)
    requires
        b.len() >= 44,
        b.subrange(12, 16) == tag_fmt(),
        u32_at(b, 16) == 16,
        u16_at(b, 20) == 1,
        u16_at(b, 22) == 1,
        u32_at(b, 24) == rate,
        u16_at(b, 34) == 16,
    ensures
        scan_chunks(b, 12, None, None) == scan_chunks(b, 36, Some(rate), None),
{
}

/// Decoding the file that `encode_pcm16_wav` writes gives back its sample rate and
/// samples, for every run of samples whose byte length fits the 32-bit size field
/// (and whose file length fits in memory).
pub proof fn lemma_wav_roundtrip(samples: Seq<i16>, sample_rate: u32)
    requires
        2 * samples.len() <= u32::MAX,
        44 + 2 * samples.len() <= usize::MAX,
    ensures
        decode_spec(wav_bytes(samples, sample_rate)) == Ok::<(u32, Seq<i16>), WavError>(
            (sample_rate, samples),
        ),
{
    let n = samples.len() as int;
    let d = 2 * n;
    let h = wav_header(d, sample_rate as int);
    let p = pcm16_bytes(samples);
    let b = wav_bytes(samples, sample_rate);
    lemma_header_fields(d, sample_rate as int);
    assert(b =~= h + p);
    assert(b.subrange(0, 4) =~= h.subrange(0, 4));
    assert(b.subrange(8, 12) =~= h.subrange(8, 12));
    assert(b.subrange(12, 16) =~= h.subrange(12, 16));
    assert(b.subrange(36, 40) =~= h.subrange(36, 40));
    assert forall|k: int| 0 <= k < 44 implies b[k] == h[k] by {}
    assert(u32_at(b, 16) == u32_at(h, 16));
    assert(u16_at(b, 20) == u16_at(h, 20));
    assert(u16_at(b, 22) == u16_at(h, 22));
    assert(u32_at(b, 24) == u32_at(h, 24));
    assert(u16_at(b, 34) == u16_at(h, 34));
    assert(u32_at(b, 40) == u32_at(h, 40));
    assert(b.subrange(44, 44 + d) =~= p);
    lemma_pcm16_roundtrip(samples);
    lemma_scan_fmt_step(b, sample_rate);
    lemma_scan_data_then_end(b, d, sample_rate, samples);
}

proof fn lemma_scan_data_len(b: Seq<u8>, offset: int, rate: Option<u32>, data: Option<Seq<i16>>)
    requires
        data matches Some(d) ==> d.len() <= b.len() / 2,
    ensures
        scan_chunks(b, offset, rate, data) matches Ok((_, Some(d))) ==> d.len() <= b.len() / 2,
    decreases b.len() + 2 - offset,
{
    if offset < 0 || offset + 8 > b.len() {
    } else {
        let len = u32_at(b, offset + 4);
        let start = offset + 8;
        let end = start + len;
        if end <= b.len() && end <= usize::MAX {
            lemma_scan_data_len(b, end + len % 2, Some(u32_at(b, start + 4) as u32), data);
            lemma_scan_data_len(b, end + len % 2, rate, data);
            if len % 2 == 0 {
                lemma_scan_data_len(
                    b,
                    end + len % 2,
                    rate,
                    Some(pcm16_samples(b.subrange(start, end))),
                );
            }
        }
    }
}

/// The decoded samples never outnumber half the file's bytes.
proof fn lemma_decoded_len(b: Seq<u8>)
    ensures
        decode_spec(b) matches Ok((_, s)) ==> s.len() <= b.len() / 2,
{
    lemma_scan_data_len(b, 12, None, None);
}

/// The text of a trim range that does not lie within the audio.
pub open spec fn invalid_range_text(start_ms: u64, end_ms: u64, duration: u64) -> Seq<char> {
    "invalid trim range "@ + decimal(start_ms as nat) + ".."@ + decimal(end_ms as nat)
        + "ms for "@ + decimal(duration as nat) + "ms audio"@
}

/// What `slice_pcm16_wav` gives for a file and a millisecond range: the cropped file
/// and its duration, or the text of the error.
pub open spec fn slice_spec(b: Seq<u8>, start_ms: u64, end_ms: u64) -> Result<(Seq<u8>, int), Seq<char>> {
    match decode_spec(b) {
        Err(e) => Err(wav_error_text(e)),
        Ok((rate, samples)) => {
            let n = samples.len() as int;
            let duration = duration_of(n, rate as int);
            if start_ms >= end_ms || end_ms > duration {
                Err(invalid_range_text(start_ms, end_ms, duration as u64))
            } else {
                let si = sample_index_of(start_ms as int, duration, n);
                let ei = sample_index_of(end_ms as int, duration, n);
                if ei <= si {
                    Err("trim range produced no audio samples"@)
                } else {
                    let cropped = samples.subrange(si, ei);
                    Ok((wav_bytes(cropped, rate), duration_of(ei - si, rate as int)))
                }
            }
        },
    }
}

/// Slicing a WAV file that `encode_pcm16_wav` wrote keeps exactly the samples that
/// lie between the two offsets, at the same sample rate.
pub proof fn lemma_slice_of_encoded(samples: Seq<i16>, sample_rate: u32, start_ms: u64, end_ms: u64)
    requires
        2 * samples.len() <= u32::MAX,
        44 + 2 * samples.len() <= usize::MAX,
        sample_rate > 0,
    ensures
        ({
            let n = samples.len() as int;
            let duration = duration_of(n, sample_rate as int);
            let si = sample_index_of(start_ms as int, duration, n);
            let ei = sample_index_of(end_ms as int, duration, n);
            start_ms < end_ms && end_ms <= duration && si < ei ==> slice_spec(
                wav_bytes(samples, sample_rate),
                start_ms,
                end_ms,
            ) == Ok::<(Seq<u8>, int), Seq<char>>(
                (wav_bytes(samples.subrange(si, ei), sample_rate), duration_of(ei - si, sample_rate as int)),
            )
        }),
{
    lemma_wav_roundtrip(samples, sample_rate);
}

// ---------------------------------------------------------------------------
// Executable code
// ---------------------------------------------------------------------------

/// A cropped WAV file and how long it plays.
#[derive(Debug, Clone, PartialEq, Eq)]
pub struct SlicedWav {
    pub bytes: Vec<u8>,
    pub duration_ms: u64,
}

/// The contents of a decoded mono PCM16 WAV file.
#[derive(Debug, Clone, PartialEq, Eq)]
pub struct DecodedPcm16Wav {
    pub sample_rate: u32,
    pub samples: Vec<i16>,
}

fn push_le16(out: &mut Vec<u8>, x: u16)
    ensures
        final(out)@ == old(out)@ + le16(x as int),
{
    out.push((x % 256) as u8);
    out.push((x / 256 % 256) as u8);
}

fn push_le32(out: &mut Vec<u8>, x: u32)
    ensures
        final(out)@ == old(out)@ + le32(x as int),
{
    out.push((x % 256) as u8);
    out.push((x / 256 % 256) as u8);
    out.push((x / 65536 % 256) as u8);
    out.push((x / 16777216 % 256) as u8);
}

fn push_tag(out: &mut Vec<u8>, a: u8, b: u8, c: u8, d: u8)
    ensures
        final(out)@ == old(out)@ + seq![a, b, c, d],
{
    out.push(a);
    out.push(b);
    out.push(c);
    out.push(d);
}

fn sample_to_bits(sample: i16) -> (bits: u16)
    ensures
        bits == sample_bits(sample),
{
    if sample < 0 {
        (sample as i32 + 65536) as u16
    } else {
        sample as u16
    }
}

fn bits_to_sample(lo: u8, hi: u8) -> (s: i16)
    ensures
        s == sample_from_bits(lo + 256 * hi),
{
    let v: u32 = lo as u32 + 256 * hi as u32;
    if v >= 32768 {
        (v as i32 - 65536) as i16
    } else {
        v as i16
    }
}

/// The milliseconds that `sample_count` samples last at `sample_rate`.
pub fn duration_ms(sample_count: usize, sample_rate: u32) -> (ms: u64)
    requires
        sample_rate > 0,
    ensures
        ms == duration_of(sample_count as int, sample_rate as int),
{
    saturating_mul_u64(sample_count as u64, 1000) / (sample_rate as u64)
}

/// The sample index that lies `offset_ms` into audio of `duration_ms` with
/// `sample_count` samples.
pub fn ms_to_sample_index(offset_ms: u64, duration_ms: u64, sample_count: usize) -> (index: usize)
    ensures
        index == sample_index_of(offset_ms as int, duration_ms as int, sample_count as int),
        index <= sample_count,
{
    let divisor: u64 = if duration_ms > 1 { duration_ms } else { 1 };
    let scaled = saturating_mul_u64(sample_count as u64, offset_ms) / divisor;
    if scaled < sample_count as u64 {
        scaled as usize
    } else {
        sample_count
    }
}

/// A mono PCM16 WAV file holding `samples` at `sample_rate`.
pub fn encode_pcm16_wav(samples: &[i16], sample_rate: u32) -> (out: Vec<u8>)
    ensures
        out@ == wav_bytes(samples@, sample_rate),
{
    let n = samples.len();
    let data_len: u32 = if n > (u32::MAX / 2) as usize { u32::MAX } else { (n * 2) as u32 };
    assert(data_len == clip_u32(2 * n as int));
    let riff_len: u32 = data_len.saturating_add(36);
    let byte_rate: u32 = saturating_mul_u32(sample_rate, 2);
    let mut out: Vec<u8> = Vec::new();
    push_tag(&mut out, 0x52, 0x49, 0x46, 0x46);
    push_le32(&mut out, riff_len);
    push_tag(&mut out, 0x57, 0x41, 0x56, 0x45);
    push_tag(&mut out, 0x66, 0x6d, 0x74, 0x20);
    push_le32(&mut out, 16);
    push_le16(&mut out, 1);
    push_le16(&mut out, 1);
    push_le32(&mut out, sample_rate);
    push_le32(&mut out, byte_rate);
    push_le16(&mut out, 2);
    push_le16(&mut out, 16);
    push_tag(&mut out, 0x64, 0x61, 0x74, 0x61);
    push_le32(&mut out, data_len);
    let ghost header = out@;
    assert(header =~= wav_header(clip_u32(2 * n as int), sample_rate as int));
    let mut i: usize = 0;
    while i < n
        invariant
            i <= n,
            n == samples@.len(),
            header.len() == 44,
            out@ =~= header + pcm16_bytes(samples@.take(i as int)),
        decreases n - i,
    {
        let bits = sample_to_bits(samples[i]);
        let ghost before = out@;
        out.push((bits % 256) as u8);
        out.push((bits / 256) as u8);
        proof {
            let t = samples@.take(i as int + 1);
            assert(pcm16_bytes(t) =~= pcm16_bytes(samples@.take(i as int)) + seq![
                (bits % 256) as u8,
                (bits / 256) as u8,
            ]) by {
                assert forall|k: int| 0 <= k < 2 * t.len() implies #[trigger] pcm16_bytes(t)[k] == (
                pcm16_bytes(samples@.take(i as int)) + seq![(bits % 256) as u8, (bits / 256) as u8])[k] by {
                    if k < 2 * i {
                        assert(t[k / 2] == samples@.take(i as int)[k / 2]);
                    }
                }
            }
        }
        i = i + 1;
    }
    assert(samples@.take(n as int) =~= samples@);
    out
}

/// The 16-bit little-endian value at `i`.
fn read_u16(b: &[u8], i: usize) -> (v: u16)
    requires
        i + 2 <= b@.len(),
    ensures
        v == u16_at(b@, i as int),
{
    b[i] as u16 + 256 * (b[i + 1] as u16)
}

/// The 32-bit little-endian value at `i`.
fn read_u32(b: &[u8], i: usize) -> (v: u32)
    requires
        i + 4 <= b@.len(),
    ensures
        v == u32_at(b@, i as int),
{
    b[i] as u32 + 256 * (b[i + 1] as u32) + 65536 * (b[i + 2] as u32) + 16777216 * (b[i + 3] as u32)
}

fn tag_at(b: &[u8], i: usize, tag: Ghost<Seq<u8>>, t0: u8, t1: u8, t2: u8, t3: u8) -> (r: bool)
    requires
        i + 4 <= b@.len(),
        tag@ == seq![t0, t1, t2, t3],
    ensures
        r == (b@.subrange(i as int, i + 4) == tag@),
{
    let r = b[i] == t0 && b[i + 1] == t1 && b[i + 2] == t2 && b[i + 3] == t3;
    proof {
        let sub = b@.subrange(i as int, i + 4);
        if r {
            assert(sub =~= tag@);
        } else if sub == tag@ {
            assert(sub[0] == t0 && sub[1] == t1 && sub[2] == t2 && sub[3] == t3);
        }
    }
    r
}

fn read_samples(b: &[u8], start: usize, end: usize) -> (v: Vec<i16>)
    requires
        start <= end <= b@.len(),
        (end - start) % 2 == 0,
    ensures
        v@ == pcm16_samples(b@.subrange(start as int, end as int)),
{
    let count = (end - start) / 2;
    let mut v: Vec<i16> = Vec::new();
    let mut k: usize = 0;
    while k < count
        invariant
            k <= count,
            count == (end - start) / 2,
            start <= end <= b@.len(),
            (end - start) % 2 == 0,
            v@ =~= Seq::new(k as nat, |j: int| sample_from_bits(u16_at(b@, start + 2 * j))),
        decreases count - k,
    {
        let s = bits_to_sample(b[start + 2 * k], b[start + 2 * k + 1]);
        v.push(s);
        k = k + 1;
    }
    let ghost sub = b@.subrange(start as int, end as int);
    assert forall|j: int| 0 <= j < count implies #[trigger] pcm16_samples(sub)[j] == v@[j] by {
        assert(sub[2 * j] == b@[start + 2 * j]);
        assert(sub[2 * j + 1] == b@[start + 2 * j + 1]);
    }
    assert(v@ =~= pcm16_samples(sub));
    v
}

/// Decodes a mono PCM16 WAV file.
pub fn decode_pcm16_wav(bytes: &[u8]) -> (res: Result<DecodedPcm16Wav, WavError>)
    requires
        bytes@.len() < usize::MAX,
    ensures
        match (res, decode_spec(bytes@)) {
            (Ok(d), Ok((rate, samples))) => d.sample_rate == rate && d.samples@ == samples,
            (Err(e), Err(e2)) => e == e2,
            _ => false,
        },
{
    let len = bytes.len();
    if len < 12 || !tag_at(bytes, 0, Ghost(tag_riff()), 0x52, 0x49, 0x46, 0x46) || !tag_at(
        bytes,
        8,
        Ghost(tag_wave()),
        0x57,
        0x41,
        0x56,
        0x45,
    ) {
        return Err(WavError::NotRiffWave);
    }
    let mut offset: usize = 12;
    let mut sample_rate: Option<u32> = None;
    let mut data: Option<Vec<i16>> = None;
    while offset.saturating_add(8) <= len
        invariant
            len == bytes@.len(),
            len < usize::MAX,
            12 <= offset <= len + 1,
            bytes@.subrange(0, 4) == tag_riff(),
            bytes@.subrange(8, 12) == tag_wave(),
            scan_chunks(bytes@, offset as int, sample_rate, opt_samples(data)) == scan_chunks(
                bytes@,
                12,
                None,
                None,
            ),
        decreases len + 2 - offset,
    {
        let chunk_len = read_u32(bytes, offset + 4) as usize;
        let data_start = offset + 8;
        let data_end = match data_start.checked_add(chunk_len) {
            Some(e) => e,
            None => {
                return Err(WavError::ChunkLengthOverflow);
            },
        };
        if data_end > len {
            return Err(WavError::TruncatedChunk);
        }
        let pad: usize = if chunk_len % 2 == 1 { 1 } else { 0 };
        if tag_at(bytes, offset, Ghost(tag_fmt()), 0x66, 0x6d, 0x74, 0x20) {
            if chunk_len < 16 {
                return Err(WavError::InvalidFmtChunk);
            }
            let audio_format = read_u16(bytes, data_start);
            let channels = read_u16(bytes, data_start + 2);
            let rate = read_u32(bytes, data_start + 4);
            let bits_per_sample = read_u16(bytes, data_start + 14);
            if audio_format != 1 || channels != 1 || bits_per_sample != 16 {
                return Err(WavError::UnsupportedFormat);
            }
            sample_rate = Some(rate);
        } else if tag_at(bytes, offset, Ghost(tag_data()), 0x64, 0x61, 0x74, 0x61) {
            if chunk_len % 2 != 0 {
                return Err(WavError::InvalidDataLength);
            }
            let samples = read_samples(bytes, data_start, data_end);
            data = Some(samples);
        }
        offset = data_end + pad;
    }
    let ghost final_data = opt_samples(data);
    assert(scan_chunks(bytes@, offset as int, sample_rate, final_data) == Ok::<
        (Option<u32>, Option<Seq<i16>>),
        WavError,
    >((sample_rate, final_data)));
    match sample_rate {
        None => Err(WavError::MissingFmtChunk),
        Some(rate) => match data {
            None => Err(WavError::MissingDataChunk),
            Some(samples) => Ok(DecodedPcm16Wav { sample_rate: rate, samples }),
        },
    }
}

/// The text that reports a decoding failure.
pub fn wav_error_message(e: WavError) -> (m: String)
    ensures
        m@ == wav_error_text(e),
{
    match e {
        WavError::NotRiffWave => owned("unsupported WAV file; expected RIFF/WAVE"),
        WavError::ChunkLengthOverflow => owned("WAV chunk length overflow"),
        WavError::TruncatedChunk => owned("truncated WAV chunk"),
        WavError::InvalidFmtChunk => owned("invalid WAV fmt chunk"),
        WavError::UnsupportedFormat => owned("unsupported WAV format; expected PCM16 mono"),
        WavError::InvalidDataLength => owned("invalid PCM16 WAV data length"),
        WavError::MissingFmtChunk => owned("WAV fmt chunk was not found"),
        WavError::MissingDataChunk => owned("WAV data chunk was not found"),
    }
}

fn invalid_range_message(start_ms: u64, end_ms: u64, duration: u64) -> (m: String)
    ensures
        m@ == invalid_range_text(start_ms, end_ms, duration),
{
    let mut v: Vec<char> = Vec::new();
    extend_str(&mut v, "invalid trim range ");
    let a = decimal_chars(start_ms);
    crate::text::extend_chars(&mut v, &a);
    extend_str(&mut v, "..");
    let b = decimal_chars(end_ms);
    crate::text::extend_chars(&mut v, &b);
    extend_str(&mut v, "ms for ");
    let c = decimal_chars(duration);
    crate::text::extend_chars(&mut v, &c);
    extend_str(&mut v, "ms audio");
    chars_to_string(&v)
}

/// Appends the elements of `tail` to `v`.
pub fn extend_vec<T: Copy>(v: &mut Vec<T>, tail: &[T])
    ensures
        final(v)@ == old(v)@ + tail@,
{
    let mut i: usize = 0;
    while i < tail.len()
        invariant
            i <= tail@.len(),
            v@ == old(v)@ + tail@.take(i as int),
        decreases tail@.len() - i,
    {
        v.push(tail[i]);
        assert(tail@.take(i as int + 1) =~= tail@.take(i as int).push(tail@[i as int]));
        i = i + 1;
    }
    assert(tail@.take(tail@.len() as int) =~= tail@);
}

/// A copy of `s[from..to]`.
pub fn copy_range<T: Copy>(s: &[T], from: usize, to: usize) -> (v: Vec<T>)
    requires
        from <= to <= s@.len(),
    ensures
        v@ == s@.subrange(from as int, to as int),
{
    let mut v: Vec<T> = Vec::new();
    let mut k: usize = from;
    while k < to
        invariant
            from <= k <= to <= s@.len(),
            v@ == s@.subrange(from as int, k as int),
        decreases to - k,
    {
        v.push(s[k]);
        assert(s@.subrange(from as int, k as int + 1) =~= s@.subrange(from as int, k as int).push(
            s@[k as int],
        ));
        k = k + 1;
    }
    v
}

/// Crops a mono PCM16 WAV file to the milliseconds `start_ms..end_ms`.
pub fn slice_pcm16_wav(bytes: &[u8], start_ms: u64, end_ms: u64) -> (res: Result<SlicedWav, String>)
    requires
        bytes@.len() < usize::MAX,
        decode_spec(bytes@) matches Ok((rate, _)) ==> rate > 0,
    ensures
        match (res, slice_spec(bytes@, start_ms, end_ms)) {
            (Ok(w), Ok((b, d))) => w.bytes@ == b && w.duration_ms == d,
            (Err(m), Err(t)) => m@ == t,
            _ => false,
        },
{
    let wav = match decode_pcm16_wav(bytes) {
        Ok(w) => w,
        Err(e) => {
            return Err(wav_error_message(e));
        },
    };
    proof {
        lemma_decoded_len(bytes@);
    }
    let n = wav.samples.len();
    let source_duration_ms = duration_ms(n, wav.sample_rate);
    if start_ms >= end_ms || end_ms > source_duration_ms {
        return Err(invalid_range_message(start_ms, end_ms, source_duration_ms));
    }
    let start_index = ms_to_sample_index(start_ms, source_duration_ms, n);
    let end_index = ms_to_sample_index(end_ms, source_duration_ms, n);
    if end_index <= start_index {
        return Err(owned("trim range produced no audio samples"));
    }
    let samples = copy_range(&wav.samples, start_index, end_index);
    let duration = duration_ms(samples.len(), wav.sample_rate);
    Ok(SlicedWav { bytes: encode_pcm16_wav(&samples, wav.sample_rate), duration_ms: duration })
}

} // verus!
