//! The PCM container: a canonical mono, 16-bit, signed, little-endian WAV
//! stream, encoded and decoded as plain bytes.
//!
//! A stream is 44 header bytes followed by two bytes per sample. The decoder
//! accepts exactly the canonical streams the encoder produces (one `fmt `
//! chunk of 16 bytes, integer PCM, one channel, 16 bits per sample, a sample
//! rate the synthesizer supports) and recovers the exact sample sequence:
//! the container is lossless, which [`lemma_wav_round_trip`] states.

use vstd::prelude::*;
use vstd::arithmetic::div_mod::{
    lemma_div_denominator, lemma_div_multiples_vanish_fancy, lemma_fundamental_div_mod,
    lemma_small_mod,
};
use crate::pipeline::{
    MAX_SAMPLE_RATE_HZ, SynthError, SynthesisRequest, lemma_num_samples_bound, spec_num_samples,
    spec_request_valid, spec_samples, synthesize,
};

verus! {

/// Largest sample count whose data chunk still fits the 32-bit RIFF size
/// fields.
pub const MAX_WAV_SAMPLES: usize = 2_147_483_609;

/// Byte `k` (0 or 1) of the 16-bit little-endian encoding of `x`.
pub open spec fn spec_le16_byte(x: int, k: int) -> u8 {
    if k == 0 {
        (x % 256) as u8
    } else {
        ((x / 256) % 256) as u8
    }
}

/// Byte `k` (0 to 3) of the 32-bit little-endian encoding of `x`.
pub open spec fn spec_le32_byte(x: int, k: int) -> u8 {
    if k == 0 {
        (x % 256) as u8
    } else if k == 1 {
        ((x / 256) % 256) as u8
    } else if k == 2 {
        ((x / 65536) % 256) as u8
    } else {
        ((x / 16777216) % 256) as u8
    }
}

/// The unsigned 16-bit value read little-endian at offset `j`.
pub open spec fn spec_from_le16_at(b: Seq<u8>, j: int) -> int {
    b[j] + 256 * b[j + 1]
}

/// The unsigned 32-bit value read little-endian at offset `j`.
pub open spec fn spec_from_le32_at(b: Seq<u8>, j: int) -> int {
    b[j] + 256 * b[j + 1] + 65536 * b[j + 2] + 16777216 * b[j + 3]
}

/// The two's-complement 16-bit code of a sample, in `[0, 65536)`.
pub open spec fn spec_sample_code(s: i16) -> int {
    if s >= 0 {
        s as int
    } else {
        s + 65536
    }
}

/// The sample whose two's-complement 16-bit code is `u`.
pub open spec fn spec_code_sample(u: int) -> int {
    if u < 32768 {
        u
    } else {
        u - 65536
    }
}

/// Byte `i` of the 44-byte header for `n` samples at `sr` hertz: the RIFF
/// magic and chunk size, the `WAVE` form type, one 16-byte `fmt ` chunk
/// (integer PCM, one channel, `sr` hertz, `2 * sr` bytes per second, blocks
/// of 2 bytes, 16 bits per sample), and the `data` chunk header.
pub open spec fn spec_header_byte(i: int, n: int, sr: int) -> u8 {
    if i == 0 {
        0x52
    } else if i == 1 {
        0x49
    } else if i == 2 {
        0x46
    } else if i == 3 {
        0x46
    } else if i < 8 {
        spec_le32_byte(36 + 2 * n, i - 4)
    } else if i == 8 {
        0x57
    } else if i == 9 {
        0x41
    } else if i == 10 {
        0x56
    } else if i == 11 {
        0x45
    } else if i == 12 {
        0x66
    } else if i == 13 {
        0x6d
    } else if i == 14 {
        0x74
    } else if i == 15 {
        0x20
    } else if i < 20 {
        spec_le32_byte(16, i - 16)
    } else if i < 22 {
        spec_le16_byte(1, i - 20)
    } else if i < 24 {
        spec_le16_byte(1, i - 22)
    } else if i < 28 {
        spec_le32_byte(sr, i - 24)
    } else if i < 32 {
        spec_le32_byte(2 * sr, i - 28)
    } else if i < 34 {
        spec_le16_byte(2, i - 32)
    } else if i < 36 {
        spec_le16_byte(16, i - 34)
    } else if i == 36 {
        0x64
    } else if i == 37 {
        0x61
    } else if i == 38 {
        0x74
    } else if i == 39 {
        0x61
    } else {
        spec_le32_byte(2 * n, i - 40)
    }
}

/// The encoded stream: the header, then each sample's two's-complement code
/// little-endian, in order.
pub open spec fn spec_encode(samples: Seq<i16>, sample_rate_hz: u32) -> Seq<u8> {
    Seq::new(
        (44 + 2 * samples.len()) as nat,
        |i: int|
            if i < 44 {
                spec_header_byte(i, samples.len() as int, sample_rate_hz as int)
            } else {
                spec_le16_byte(spec_sample_code(samples[(i - 44) / 2]), (i - 44) % 2)
            },
    )
}

/// The sample rate field of a stream (bytes 24 to 27).
pub open spec fn spec_wav_rate(b: Seq<u8>) -> int {
    spec_from_le32_at(b, 24)
}

/// How many samples the data region holds.
pub open spec fn spec_wav_num_samples(b: Seq<u8>) -> int {
    (b.len() - 44) / 2
}

/// The sample sequence of the data region.
pub open spec fn spec_wav_samples(b: Seq<u8>) -> Seq<i16> {
    Seq::new(
        spec_wav_num_samples(b) as nat,
        |i: int| spec_code_sample(spec_from_le16_at(b, 44 + 2 * i)) as i16,
    )
}

/// A canonical stream: exactly what the encoder produces from its own sample
/// region and sample rate field, with a rate the synthesizer supports.
pub open spec fn spec_wav_valid(b: Seq<u8>) -> bool {
    &&& b.len() >= 44
    &&& (b.len() - 44) % 2 == 0
    &&& spec_wav_num_samples(b) <= MAX_WAV_SAMPLES
    &&& 1 <= spec_wav_rate(b) <= MAX_SAMPLE_RATE_HZ
    &&& b == spec_encode(spec_wav_samples(b), spec_wav_rate(b) as u32)
}

/// Reading the four little-endian bytes of `x` back gives `x`.
proof fn lemma_le32_compose(x: int)
    requires
        0 <= x < 0x1_0000_0000,
    ensures
        (spec_le32_byte(x, 0) as int) + 256 * (spec_le32_byte(x, 1) as int)
            + 65536 * (spec_le32_byte(x, 2) as int) + 16777216 * (spec_le32_byte(x, 3) as int)
            == x,
{
    lemma_fundamental_div_mod(x, 256);
    lemma_fundamental_div_mod(x / 256, 256);
    lemma_fundamental_div_mod(x / 65536, 256);
    lemma_div_denominator(x, 256, 256);
    lemma_div_denominator(x, 65536, 256);
    assert((x / 65536) / 256 == x / 16777216);
    assert(x / 16777216 < 256);
    lemma_small_mod((x / 16777216) as nat, 256);
}

/// Reading the two little-endian bytes of `x` back gives `x`.
proof fn lemma_le16_compose(x: int)
    requires
        0 <= x < 0x1_0000,
    ensures
        (spec_le16_byte(x, 0) as int) + 256 * (spec_le16_byte(x, 1) as int) == x,
{
    lemma_fundamental_div_mod(x, 256);
    assert(x / 256 < 256);
    lemma_small_mod((x / 256) as nat, 256);
}

/// Four bytes read as a 32-bit value and encoded again give the same bytes.
proof fn lemma_le32_decompose(b0: u8, b1: u8, b2: u8, b3: u8)
    ensures
        spec_le32_byte(b0 + 256 * b1 + 65536 * b2 + 16777216 * b3, 0) == b0,
        spec_le32_byte(b0 + 256 * b1 + 65536 * b2 + 16777216 * b3, 1) == b1,
        spec_le32_byte(b0 + 256 * b1 + 65536 * b2 + 16777216 * b3, 2) == b2,
        spec_le32_byte(b0 + 256 * b1 + 65536 * b2 + 16777216 * b3, 3) == b3,
{
    let x = b0 + 256 * b1 + 65536 * b2 + 16777216 * b3;
    let t1 = b1 + 256 * b2 + 65536 * b3;
    let t2 = b2 + 256 * b3;
    lemma_div_multiples_vanish_fancy(t1, b0 as int, 256);
    assert(x == 256 * t1 + b0);
    assert(x / 256 == t1);
    lemma_fundamental_div_mod(x, 256);
    assert(x % 256 == b0);
    lemma_div_multiples_vanish_fancy(t2, b1 as int, 256);
    assert(t1 == 256 * t2 + b1);
    assert(t1 / 256 == t2);
    lemma_fundamental_div_mod(t1, 256);
    assert(t1 % 256 == b1);
    lemma_div_multiples_vanish_fancy(b3 as int, b2 as int, 256);
    assert(t2 / 256 == b3 as int);
    lemma_fundamental_div_mod(t2, 256);
    assert(t2 % 256 == b2);
    lemma_div_denominator(x, 256, 256);
    assert(x / 65536 == t2);
    lemma_div_denominator(x, 65536, 256);
    assert(x / 16777216 == b3 as int);
    lemma_small_mod(b3 as nat, 256);
}

/// Two bytes read as a 16-bit value and encoded again give the same bytes.
proof fn lemma_le16_decompose(b0: u8, b1: u8)
    ensures
        spec_le16_byte(b0 + 256 * b1, 0) == b0,
        spec_le16_byte(b0 + 256 * b1, 1) == b1,
{
    let x = b0 + 256 * b1;
    lemma_div_multiples_vanish_fancy(b1 as int, b0 as int, 256);
    assert(x / 256 == b1 as int);
    lemma_fundamental_div_mod(x, 256);
    assert(x % 256 == b0);
    lemma_small_mod(b1 as nat, 256);
}

/// Encoding then decoding is lossless: every encoded stream is canonical, and
/// its sample region and rate field read back as exactly the samples and the
/// rate that were encoded.
pub proof fn lemma_wav_round_trip(samples: Seq<i16>, sample_rate_hz: u32)
    requires
        samples.len() <= MAX_WAV_SAMPLES,
        1 <= sample_rate_hz <= MAX_SAMPLE_RATE_HZ,
    ensures
        spec_wav_valid(spec_encode(samples, sample_rate_hz)),
        spec_wav_samples(spec_encode(samples, sample_rate_hz)) == samples,
        spec_wav_rate(spec_encode(samples, sample_rate_hz)) == sample_rate_hz,
{
    let e = spec_encode(samples, sample_rate_hz);
    let n = samples.len() as int;
    assert(e.len() == 44 + 2 * n);
    assert(spec_wav_num_samples(e) == n);
    lemma_le32_compose(sample_rate_hz as int);
    assert(spec_wav_rate(e) == sample_rate_hz);
    assert forall|i: int| 0 <= i < n implies spec_wav_samples(e)[i] == samples[i] by {
        let c = spec_sample_code(samples[i]);
        assert(0 <= c < 65536);
        lemma_le16_compose(c);
        assert(e[44 + 2 * i] == spec_le16_byte(c, 0));
        assert(e[44 + 2 * i + 1] == spec_le16_byte(c, 1));
        assert(spec_from_le16_at(e, 44 + 2 * i) == c);
    }
    assert(spec_wav_samples(e) =~= samples);
    assert(e =~= spec_encode(spec_wav_samples(e), spec_wav_rate(e) as u32));
}

/// Append the 16-bit little-endian encoding of `x`.
fn push_le16(v: &mut Vec<u8>, x: u16)
    ensures
        final(v)@ == old(v)@ + seq![spec_le16_byte(x as int, 0), spec_le16_byte(x as int, 1)],
{
    v.push((x % 256) as u8);
    v.push((x / 256) as u8);
    proof {
        assert(v@ =~= old(v)@ + seq![spec_le16_byte(x as int, 0), spec_le16_byte(x as int, 1)]);
    }
}

/// Append the 32-bit little-endian encoding of `x`.
fn push_le32(v: &mut Vec<u8>, x: u32)
    ensures
        final(v)@ == old(v)@ + seq![
            spec_le32_byte(x as int, 0),
            spec_le32_byte(x as int, 1),
            spec_le32_byte(x as int, 2),
            spec_le32_byte(x as int, 3),
        ],
{
    v.push((x % 256) as u8);
    v.push(((x / 256) % 256) as u8);
    v.push(((x / 65536) % 256) as u8);
    v.push(((x / 16777216) % 256) as u8);
    proof {
        assert(v@ =~= old(v)@ + seq![
            spec_le32_byte(x as int, 0),
            spec_le32_byte(x as int, 1),
            spec_le32_byte(x as int, 2),
            spec_le32_byte(x as int, 3),
        ]);
    }
}

/// The unsigned 16-bit value at offset `j`.
fn read_le16(b: &Vec<u8>, j: usize) -> (x: u32)
    requires
        j + 2 <= b@.len(),
    ensures
        x == spec_from_le16_at(b@, j as int),
{
    let l: usize = b.len();
    assert(j + 2 <= l);
    (b[j] as u32) + 256 * (b[j + 1] as u32)
}

/// The unsigned 32-bit value at offset `j`.
fn read_le32(b: &Vec<u8>, j: usize) -> (x: u32)
    requires
        j + 4 <= b@.len(),
    ensures
        x == spec_from_le32_at(b@, j as int),
{
    let l: usize = b.len();
    assert(j + 4 <= l);
    (b[j] as u32) + 256 * (b[j + 1] as u32) + 65536 * (b[j + 2] as u32)
        + 16777216 * (b[j + 3] as u32)
}

/// Serialize the samples as a canonical mono 16-bit PCM stream at
/// `sample_rate_hz`.
pub fn encode_wav(samples: &Vec<i16>, sample_rate_hz: u32) -> (out: Vec<u8>)
    requires
        samples@.len() <= MAX_WAV_SAMPLES,
        1 <= sample_rate_hz <= MAX_SAMPLE_RATE_HZ,
    ensures
        out@ == spec_encode(samples@, sample_rate_hz),
{
    let ghost target = spec_encode(samples@, sample_rate_hz);
    let n: usize = samples.len();
    let data_len: u32 = 2 * (n as u32);
    let riff_len: u32 = 36 + data_len;
    let mut out: Vec<u8> = Vec::new();
    out.push(0x52);
    out.push(0x49);
    out.push(0x46);
    out.push(0x46);
    push_le32(&mut out, riff_len);
    out.push(0x57);
    out.push(0x41);
    out.push(0x56);
    out.push(0x45);
    out.push(0x66);
    out.push(0x6d);
    out.push(0x74);
    out.push(0x20);
    push_le32(&mut out, 16);
    push_le16(&mut out, 1);
    push_le16(&mut out, 1);
    push_le32(&mut out, sample_rate_hz);
    push_le32(&mut out, 2 * sample_rate_hz);
    push_le16(&mut out, 2);
    push_le16(&mut out, 16);
    out.push(0x64);
    out.push(0x61);
    out.push(0x74);
    out.push(0x61);
    push_le32(&mut out, data_len);
    proof {
        assert(out@.len() == 44);
        assert(forall|i: int| 0 <= i < 44 ==> out@[i] == target[i]);
    }
    let mut i: usize = 0;
    while i < n
        invariant
            n == samples@.len() <= MAX_WAV_SAMPLES,
            i <= n,
            out@.len() == 44 + 2 * i,
            target.len() == 44 + 2 * n,
            target == spec_encode(samples@, sample_rate_hz),
            forall|j: int| 0 <= j < out@.len() ==> out@[j] == target[j],
        decreases n - i,
    {
        let s: i16 = samples[i];
        let code: u16 = if s >= 0 {
            s as u16
        } else {
            ((s as i32) + 65536) as u16
        };
        assert(code as int == spec_sample_code(samples@[i as int]));
        out.push((code % 256) as u8);
        out.push((code / 256) as u8);
        proof {
            assert((44 + 2 * (i as int) - 44) % 2 == 0);
            assert((44 + 2 * (i as int) - 44) / 2 == i as int);
            assert((44 + 2 * (i as int) + 1 - 44) % 2 == 1);
            assert((44 + 2 * (i as int) + 1 - 44) / 2 == i as int);
            assert(target[44 + 2 * (i as int)] == spec_le16_byte(code as int, 0));
            assert(target[44 + 2 * (i as int) + 1] == spec_le16_byte(code as int, 1));
        }
        i = i + 1;
    }
    proof {
        assert(out@ =~= target);
    }
    out
}

/// A canonical stream implies the exact field values the decoder checks.
proof fn lemma_valid_fields(b: Seq<u8>)
    requires
        spec_wav_valid(b),
    ensures
        (b.len() - 44) % 2 == 0,
        b[0] == 0x52 && b[1] == 0x49 && b[2] == 0x46 && b[3] == 0x46,
        spec_from_le32_at(b, 4) == 36 + (b.len() - 44),
        b[8] == 0x57 && b[9] == 0x41 && b[10] == 0x56 && b[11] == 0x45,
        b[12] == 0x66 && b[13] == 0x6d && b[14] == 0x74 && b[15] == 0x20,
        spec_from_le32_at(b, 16) == 16,
        spec_from_le16_at(b, 20) == 1,
        spec_from_le16_at(b, 22) == 1,
        spec_from_le32_at(b, 28) == 2 * spec_wav_rate(b),
        spec_from_le16_at(b, 32) == 2,
        spec_from_le16_at(b, 34) == 16,
        b[36] == 0x64 && b[37] == 0x61 && b[38] == 0x74 && b[39] == 0x61,
        spec_from_le32_at(b, 40) == b.len() - 44,
{
    let n = spec_wav_num_samples(b);
    let rate = spec_wav_rate(b);
    assert(b.len() - 44 == 2 * n);
    lemma_le32_compose(36 + 2 * n);
    lemma_le32_compose(16);
    lemma_le16_compose(1);
    lemma_le32_compose(2 * rate);
    lemma_le16_compose(2);
    lemma_le16_compose(16);
    lemma_le32_compose(2 * n);
}

/// The decoder's checks imply that the stream is canonical.
proof fn lemma_checks_imply_valid(b: Seq<u8>, n: int, rate: int)
    requires
        b.len() == 44 + 2 * n,
        0 <= n <= MAX_WAV_SAMPLES,
        1 <= rate <= MAX_SAMPLE_RATE_HZ,
        b[0] == 0x52 && b[1] == 0x49 && b[2] == 0x46 && b[3] == 0x46,
        spec_from_le32_at(b, 4) == 36 + 2 * n,
        b[8] == 0x57 && b[9] == 0x41 && b[10] == 0x56 && b[11] == 0x45,
        b[12] == 0x66 && b[13] == 0x6d && b[14] == 0x74 && b[15] == 0x20,
        spec_from_le32_at(b, 16) == 16,
        spec_from_le16_at(b, 20) == 1,
        spec_from_le16_at(b, 22) == 1,
        spec_from_le32_at(b, 24) == rate,
        spec_from_le32_at(b, 28) == 2 * rate,
        spec_from_le16_at(b, 32) == 2,
        spec_from_le16_at(b, 34) == 16,
        b[36] == 0x64 && b[37] == 0x61 && b[38] == 0x74 && b[39] == 0x61,
        spec_from_le32_at(b, 40) == 2 * n,
    ensures
        spec_wav_valid(b),
{
    assert(spec_wav_num_samples(b) == n);
    assert(spec_wav_rate(b) == rate);
    let s = spec_wav_samples(b);
    assert(s.len() == n);
    let e = spec_encode(s, rate as u32);
    lemma_le32_decompose(b[4], b[5], b[6], b[7]);
    lemma_le32_decompose(b[16], b[17], b[18], b[19]);
    lemma_le16_decompose(b[20], b[21]);
    lemma_le16_decompose(b[22], b[23]);
    lemma_le32_decompose(b[24], b[25], b[26], b[27]);
    lemma_le32_decompose(b[28], b[29], b[30], b[31]);
    lemma_le16_decompose(b[32], b[33]);
    lemma_le16_decompose(b[34], b[35]);
    lemma_le32_decompose(b[40], b[41], b[42], b[43]);
    assert forall|i: int| 0 <= i < b.len() implies b[i] == e[i] by {
        if i >= 44 {
            let j = (i - 44) / 2;
            assert(0 <= j < n);
            let u = spec_from_le16_at(b, 44 + 2 * j);
            assert(0 <= u < 65536);
            assert(s[j] == spec_code_sample(u) as i16);
            assert(spec_sample_code(s[j]) == u);
            lemma_le16_decompose(b[44 + 2 * j], b[44 + 2 * j + 1]);
            if (i - 44) % 2 == 0 {
                assert(i == 44 + 2 * j);
                assert(e[i] == spec_le16_byte(u, 0));
            } else {
                assert(i == 44 + 2 * j + 1);
                assert(e[i] == spec_le16_byte(u, 1));
            }
        }
    }
    assert(b =~= e);
}

/// Parse a canonical mono 16-bit PCM stream back into its samples and sample
/// rate. Returns `None` exactly on the streams the encoder cannot produce.
pub fn decode_wav(bytes: &Vec<u8>) -> (r: Option<(Vec<i16>, u32)>)
    ensures
        spec_wav_valid(bytes@) ==> (r matches Some(p)
            && p.0@ == spec_wav_samples(bytes@)
            && p.1 == spec_wav_rate(bytes@)),
        !spec_wav_valid(bytes@) ==> r is None,
{
    let len: usize = bytes.len();
    if len < 44 {
        return None;
    }
    if (len - 44) % 2 != 0 {
        proof {
            if spec_wav_valid(bytes@) {
                lemma_valid_fields(bytes@);
            }
        }
        return None;
    }
    let n: usize = (len - 44) / 2;
    if n > MAX_WAV_SAMPLES {
        return None;
    }
    if bytes[0] != 0x52 || bytes[1] != 0x49 || bytes[2] != 0x46 || bytes[3] != 0x46
        || bytes[8] != 0x57 || bytes[9] != 0x41 || bytes[10] != 0x56 || bytes[11] != 0x45
        || bytes[12] != 0x66 || bytes[13] != 0x6d || bytes[14] != 0x74 || bytes[15] != 0x20
        || bytes[36] != 0x64 || bytes[37] != 0x61 || bytes[38] != 0x74 || bytes[39] != 0x61 {
        proof {
            if spec_wav_valid(bytes@) {
                lemma_valid_fields(bytes@);
            }
        }
        return None;
    }
    let riff_size: u32 = read_le32(bytes, 4);
    let fmt_size: u32 = read_le32(bytes, 16);
    let format_tag: u32 = read_le16(bytes, 20);
    let channels: u32 = read_le16(bytes, 22);
    let rate: u32 = read_le32(bytes, 24);
    let byte_rate: u32 = read_le32(bytes, 28);
    let block_align: u32 = read_le16(bytes, 32);
    let bits: u32 = read_le16(bytes, 34);
    let data_size: u32 = read_le32(bytes, 40);
    let ok: bool = riff_size as u64 == 36 + 2 * (n as u64)
        && fmt_size == 16
        && format_tag == 1
        && channels == 1
        && 1 <= rate && rate <= MAX_SAMPLE_RATE_HZ
        && byte_rate as u64 == 2 * (rate as u64)
        && block_align == 2
        && bits == 16
        && data_size as u64 == 2 * (n as u64);
    if !ok {
        proof {
            if spec_wav_valid(bytes@) {
                lemma_valid_fields(bytes@);
            }
        }
        return None;
    }
    proof {
        lemma_checks_imply_valid(bytes@, n as int, rate as int);
    }
    let mut out: Vec<i16> = Vec::new();
    let mut i: usize = 0;
    while i < n
        invariant
            bytes@.len() == 44 + 2 * n,
            n <= MAX_WAV_SAMPLES,
            i <= n,
            out@.len() == i,
            spec_wav_num_samples(bytes@) == n,
            forall|j: int| 0 <= j < i ==> out@[j] == spec_wav_samples(bytes@)[j],
        decreases n - i,
    {
        let u: u32 = (bytes[44 + 2 * i] as u32) + 256 * (bytes[45 + 2 * i] as u32);
        let s: i16 = if u < 32768 {
            u as i16
        } else {
            ((u as i32) - 65536) as i16
        };
        proof {
            assert(spec_from_le16_at(bytes@, 44 + 2 * (i as int)) == u);
            assert(spec_wav_samples(bytes@)[i as int] == spec_code_sample(u as int) as i16);
        }
        out.push(s);
        i = i + 1;
    }
    proof {
        assert(out@ =~= spec_wav_samples(bytes@));
    }
    Some((out, rate))
}

/// Synthesize a request and serialize the result in one step: the canonical
/// PCM stream for every valid request, `InvalidParameter` for every other.
pub fn render_wav(req: &SynthesisRequest) -> (r: Result<Vec<u8>, SynthError>)
    ensures
        spec_request_valid(*req) ==> (r matches Ok(bytes)
            && bytes@ == spec_encode(spec_samples(*req), req.sample_rate_hz)),
        !spec_request_valid(*req) ==> r == Result::<Vec<u8>, SynthError>::Err(
            SynthError::InvalidParameter,
        ),
{
    match synthesize(req) {
        Ok(samples) => {
            proof {
                lemma_num_samples_bound(*req);
                assert(samples@.len() == spec_num_samples(*req));
            }
            Ok(encode_wav(&samples, req.sample_rate_hz))
        },
        Err(e) => Err(e),
    }
}

} // verus!
