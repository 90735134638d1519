//! Pulse Code Modulation (PCM) decoder for raw PCM and log-PCM (A-law, mu-law) codecs.

use vstd::prelude::*;

use crate::codecs::{
    codec_desc, find_codec_info, support_audio_codec, AudioBuffer, AudioCodecId,
    AudioCodecParameters, CodecInfo, FinalizeResult, SupportedAudioCodec, AudioDecoderOptions, AudioSpec,
    GenericAudioBuffer, Sample, SampleFormat, CODEC_ID_PCM_ALAW, CODEC_ID_PCM_F32BE, CODEC_ID_PCM_F32LE,
    CODEC_ID_PCM_F64BE, CODEC_ID_PCM_F64LE, CODEC_ID_PCM_MULAW, CODEC_ID_PCM_S16BE,
    CODEC_ID_PCM_S16LE, CODEC_ID_PCM_S24BE, CODEC_ID_PCM_S24LE, CODEC_ID_PCM_S32BE,
    CODEC_ID_PCM_S32LE, CODEC_ID_PCM_S8, CODEC_ID_PCM_U16BE, CODEC_ID_PCM_U16LE,
    CODEC_ID_PCM_U24BE, CODEC_ID_PCM_U24LE, CODEC_ID_PCM_U32BE, CODEC_ID_PCM_U32LE,
    CODEC_ID_PCM_U8,
};
use crate::errors::{decode_error, unsupported_error, Error, Result};
use crate::io::{
    is_eof_error, lemma_layouts, lemma_layouts8, lemma_pow2_values, pow2, signed, uint_be,
    uint_le, BufReader,
};

verus! {

// ---------------------------------------------------------------------------------------------
// G.711 log-PCM expansion
// ---------------------------------------------------------------------------------------------

/// The quantisation bits of a log-PCM code.
pub const XLAW_QUANT_MASK: u8 = 0x0f;
/// The segment bits of a log-PCM code.
pub const XLAW_SEG_MASK: u8 = 0x70;
/// The shift that brings the segment bits down to the low bits.
pub const XLAW_SEG_SHIFT: u32 = 4;

/// The absolute value of an integer.
pub open spec fn abs_int(x: int) -> int {
    if x < 0 { -x } else { x }
}

/// The linear value of an A-law code: the code is first inverted at its even bits; the low four
/// bits are the quantisation step, the next three the segment, and the top bit the sign.
pub open spec fn alaw_value(code: u8) -> int {
    let v = code ^ 0x55u8;
    let quant = (v & 0x0fu8) as int;
    let seg = ((v & 0x70u8) >> 4u8) as int;
    let mag = if seg == 0 {
        quant * 16 + 8
    } else if seg == 1 {
        quant * 16 + 0x108
    } else {
        (quant * 16 + 0x108) * pow2((seg - 1) as nat)
    };
    if v & 0x80u8 == 0x80u8 {
        mag
    } else {
        -mag
    }
}

/// The linear value of a mu-law code: the code is first inverted; the low four bits are the
/// quantisation step, the next three the segment (an exponent), and the top bit the sign.
pub open spec fn mulaw_value(code: u8) -> int {
    let v = !code;
    let quant = (v & 0x0fu8) as int;
    let seg = ((v & 0x70u8) >> 4u8) as int;
    let mag = (quant * 8 + 0x84) * pow2(seg as nat) - 0x84;
    if v & 0x80u8 == 0x80u8 {
        -mag
    } else {
        mag
    }
}

/// Small powers of two.
proof fn lemma_small_pow2()
    ensures
        pow2(0) == 1,
        pow2(1) == 2,
        pow2(2) == 4,
        pow2(3) == 8,
        pow2(4) == 16,
        pow2(5) == 32,
        pow2(6) == 64,
        pow2(7) == 128,
{
    reveal_with_fuel(pow2, 8);
}

/// Shifting a small non-negative 16-bit value left multiplies it by a power of two.
proof fn lemma_shl_i16(x: i16, k: u8)
    requires
        0 <= x <= 252,
        k <= 7,
    ensures
        x << k == x * pow2(k as nat),
{
    lemma_small_pow2();
    if k == 0 {
        assert(x << 0u8 == x) by (bit_vector);
    } else if k == 1 {
        assert(0 <= x <= 252 ==> x << 1u8 == x * 2) by (bit_vector);
    } else if k == 2 {
        assert(0 <= x <= 252 ==> x << 2u8 == x * 4) by (bit_vector);
    } else if k == 3 {
        assert(0 <= x <= 252 ==> x << 3u8 == x * 8) by (bit_vector);
    } else if k == 4 {
        assert(0 <= x <= 252 ==> x << 4u8 == x * 16) by (bit_vector);
    } else if k == 5 {
        assert(0 <= x <= 252 ==> x << 5u8 == x * 32) by (bit_vector);
    } else if k == 6 {
        assert(0 <= x <= 252 ==> x << 6u8 == x * 64) by (bit_vector);
    } else {
        assert(0 <= x <= 252 ==> x << 7u8 == x * 128) by (bit_vector);
    }
}

/// Shifting a non-negative 16-bit value up to 504 left by up to six bits multiplies it by a
/// power of two.
proof fn lemma_shl_i16_504(x: i16, k: u8)
    requires
        0 <= x <= 504,
        k <= 6,
    ensures
        x << k == x * pow2(k as nat),
{
    lemma_small_pow2();
    if k == 0 {
        assert(x << 0u8 == x) by (bit_vector);
    } else if k == 1 {
        assert(0 <= x <= 504 ==> x << 1u8 == x * 2) by (bit_vector);
    } else if k == 2 {
        assert(0 <= x <= 504 ==> x << 2u8 == x * 4) by (bit_vector);
    } else if k == 3 {
        assert(0 <= x <= 504 ==> x << 3u8 == x * 8) by (bit_vector);
    } else if k == 4 {
        assert(0 <= x <= 504 ==> x << 4u8 == x * 16) by (bit_vector);
    } else if k == 5 {
        assert(0 <= x <= 504 ==> x << 5u8 == x * 32) by (bit_vector);
    } else {
        assert(0 <= x <= 504 ==> x << 6u8 == x * 64) by (bit_vector);
    }
}

/// Expands an A-law code to a linear 16-bit sample.
pub fn alaw_to_linear(a_val: u8) -> (r: i16)
    ensures
        r == alaw_value(a_val),
{
    let a_val = a_val ^ 0x55;
    let q = a_val & XLAW_QUANT_MASK;
    assert(q <= 15 && (q << 4u8) == q * 16) by (bit_vector)
        requires
            q == a_val & 0x0fu8,
    ;
    let mut t = ((a_val & XLAW_QUANT_MASK) << 4) as i16;
    let seg = (a_val & XLAW_SEG_MASK) >> XLAW_SEG_SHIFT;
    assert(seg <= 7) by (bit_vector)
        requires
            seg == (a_val & 0x70u8) >> 4u32,
    ;
    assert(seg == (a_val & 0x70u8) >> 4u8) by (bit_vector)
        requires
            seg == (a_val & 0x70u8) >> 4u32,
    ;
    proof {
        lemma_small_pow2();
    }
    if seg == 0 {
        t = t + 0x8;
    } else if seg == 1 {
        t = t + 0x108;
    } else {
        proof {
            lemma_shl_i16_504((t + 0x108) as i16, (seg - 1) as u8);
        }
        t = (t + 0x108) << (seg - 1);
    }
    if a_val & 0x80 == 0x80 {
        t
    } else {
        -t
    }
}

/// Expands a mu-law code to a linear 16-bit sample.
pub fn mulaw_to_linear(mu_val: u8) -> (r: i16)
    ensures
        r == mulaw_value(mu_val),
{
    let bias: i16 = 0x84;
    let mu_val = !mu_val;
    let q = mu_val & XLAW_QUANT_MASK;
    assert(q <= 15 && (q << 3u8) == q * 8) by (bit_vector)
        requires
            q == mu_val & 0x0fu8,
    ;
    let mut t = ((mu_val & XLAW_QUANT_MASK) << 3) as i16 + bias;
    let seg = (mu_val & XLAW_SEG_MASK) >> XLAW_SEG_SHIFT;
    assert(seg <= 7 && seg == (mu_val & 0x70u8) >> 4u8) by (bit_vector)
        requires
            seg == (mu_val & 0x70u8) >> 4u32,
    ;
    proof {
        lemma_small_pow2();
        lemma_shl_i16(t, seg);
    }
    t = t << seg;
    if mu_val & 0x80 == 0x80 {
        bias - t
    } else {
        t - bias
    }
}

/// The magnitude of an A-law code's expansion grows strictly with the code's segment and
/// quantisation bits (the low seven bits after inverting the even bits): two codes of the same
/// sign never expand to the same value, and the larger code expands to the larger magnitude.
pub proof fn law_alaw_strictly_increasing(a: u8, b: u8)
    requires
        (a ^ 0x55u8) & 0x80u8 == (b ^ 0x55u8) & 0x80u8,
        (a ^ 0x55u8) & 0x7fu8 < (b ^ 0x55u8) & 0x7fu8,
    ensures
        0 < abs_int(alaw_value(a)) < abs_int(alaw_value(b)),
{
    lemma_small_pow2();
    let va = a ^ 0x55u8;
    let vb = b ^ 0x55u8;
    assert(((va & 0x70u8) >> 4u8) * 16 + (va & 0x0fu8) == va & 0x7fu8 && (va & 0x70u8) >> 4u8 <= 7
        && va & 0x0fu8 <= 15 && ((vb & 0x70u8) >> 4u8) * 16 + (vb & 0x0fu8) == vb & 0x7fu8 && (vb
        & 0x70u8) >> 4u8 <= 7 && vb & 0x0fu8 <= 15) by (bit_vector);
    let sa = ((va & 0x70u8) >> 4u8) as int;
    let qa = (va & 0x0fu8) as int;
    let sb = ((vb & 0x70u8) >> 4u8) as int;
    let qb = (vb & 0x0fu8) as int;
    lemma_alaw_mag_bounds(sa, qa);
    lemma_alaw_mag_bounds(sb, qb);
    if sa < sb {
        lemma_alaw_mag_bounds(sa + 1, 0);
        if sa + 1 < sb {
            lemma_alaw_mag_grows(sa + 1, sb);
        }
    } else {
        assert(sa == sb && qa < qb);
        if sa >= 2 {
            assert((qa * 16 + 0x108) * pow2((sa - 1) as nat) < (qb * 16 + 0x108) * pow2(
                (sa - 1) as nat,
            )) by (nonlinear_arith)
                requires
                    qa < qb,
                    pow2((sa - 1) as nat) >= 1,
            ;
        }
        if sa >= 1 {
            assert(pow2((sa - 1) as nat) >= 1);
        }
    }
}

/// The magnitude of an A-law code of segment `seg` and quantisation step `quant`.
pub open spec fn alaw_mag(seg: int, quant: int) -> int {
    if seg == 0 {
        quant * 16 + 8
    } else if seg == 1 {
        quant * 16 + 0x108
    } else {
        (quant * 16 + 0x108) * pow2((seg - 1) as nat)
    }
}

/// Each A-law segment's magnitudes lie below the next segment's.
proof fn lemma_alaw_mag_bounds(seg: int, quant: int)
    requires
        0 <= seg <= 8,
        0 <= quant <= 15,
    ensures
        seg == 0 ==> 8 <= alaw_mag(seg, quant) <= 248,
        seg >= 1 ==> 264 * pow2((seg - 1) as nat) <= alaw_mag(seg, quant) <= 504 * pow2(
            (seg - 1) as nat,
        ),
        seg >= 1 ==> pow2((seg - 1) as nat) >= 1,
        seg >= 1 ==> pow2(seg as nat) == 2 * pow2((seg - 1) as nat),
{
    lemma_small_pow2();
    reveal_with_fuel(pow2, 9);
    if seg >= 2 {
        let p = pow2((seg - 1) as nat);
        assert(264 * p <= (quant * 16 + 0x108) * p <= 504 * p) by (nonlinear_arith)
            requires
                0 <= quant <= 15,
                p >= 1,
        ;
    }
}

/// Across segments, every magnitude of a lower segment lies below every one of a higher.
proof fn lemma_alaw_mag_grows(lo: int, hi: int)
    requires
        1 <= lo < hi <= 7,
    ensures
        504 * pow2((lo - 1) as nat) < 264 * pow2((hi - 1) as nat),
    decreases hi - lo,
{
    lemma_small_pow2();
    reveal_with_fuel(pow2, 9);
}

/// The magnitude of a mu-law code's expansion grows strictly with the code's segment and
/// quantisation bits (the low seven bits after inverting the code): two codes of the same sign
/// never expand to the same value, save the two zeros.
pub proof fn law_mulaw_strictly_increasing(a: u8, b: u8)
    requires
        !a & 0x80u8 == !b & 0x80u8,
        !a & 0x7fu8 < !b & 0x7fu8,
    ensures
        abs_int(mulaw_value(a)) < abs_int(mulaw_value(b)),
{
    lemma_small_pow2();
    let va = !a;
    let vb = !b;
    assert(((va & 0x70u8) >> 4u8) * 16 + (va & 0x0fu8) == va & 0x7fu8 && (va & 0x70u8) >> 4u8 <= 7
        && va & 0x0fu8 <= 15 && ((vb & 0x70u8) >> 4u8) * 16 + (vb & 0x0fu8) == vb & 0x7fu8 && (vb
        & 0x70u8) >> 4u8 <= 7 && vb & 0x0fu8 <= 15) by (bit_vector);
}

/// Flipping the sign bit of an A-law code negates its linear value.
pub proof fn law_alaw_sign_symmetry(code: u8)
    ensures
        alaw_value(code ^ 0x80u8) == -alaw_value(code),
{
    let f = code ^ 0x80u8;
    assert((f ^ 0x55u8) & 0x0fu8 == (code ^ 0x55u8) & 0x0fu8) by (bit_vector)
        requires
            f == code ^ 0x80u8,
    ;
    assert((f ^ 0x55u8) & 0x70u8 == (code ^ 0x55u8) & 0x70u8) by (bit_vector)
        requires
            f == code ^ 0x80u8,
    ;
    assert(((f ^ 0x55u8) & 0x80u8 == 0x80u8) == !((code ^ 0x55u8) & 0x80u8 == 0x80u8))
        by (bit_vector)
        requires
            f == code ^ 0x80u8,
    ;
}

/// Flipping the sign bit of a mu-law code negates its linear value.
pub proof fn law_mulaw_sign_symmetry(code: u8)
    ensures
        mulaw_value(code ^ 0x80u8) == -mulaw_value(code),
{
    let f = code ^ 0x80u8;
    assert(!f & 0x0fu8 == !code & 0x0fu8) by (bit_vector)
        requires
            f == code ^ 0x80u8,
    ;
    assert(!f & 0x70u8 == !code & 0x70u8) by (bit_vector)
        requires
            f == code ^ 0x80u8,
    ;
    assert((!f & 0x80u8 == 0x80u8) == !(!code & 0x80u8 == 0x80u8)) by (bit_vector)
        requires
            f == code ^ 0x80u8,
    ;
}

// ---------------------------------------------------------------------------------------------
// Codecs and sample layouts
// ---------------------------------------------------------------------------------------------

/// The PCM codecs, by sample layout.
#[derive(Clone, Copy, Debug, PartialEq, Eq, Structural)]
pub enum PcmCodec {
    S32Le,
    S32Be,
    S24Le,
    S24Be,
    S16Le,
    S16Be,
    S8,
    U32Le,
    U32Be,
    U24Le,
    U24Be,
    U16Le,
    U16Be,
    U8,
    F32Le,
    F32Be,
    F64Le,
    F64Be,
    ALaw,
    MuLaw,
}

/// The PCM codec of a codec identifier, if it is one.
pub open spec fn pcm_codec_spec(id: AudioCodecId) -> Option<PcmCodec> {
    if id == CODEC_ID_PCM_S32LE {
        Some(PcmCodec::S32Le)
    } else if id == CODEC_ID_PCM_S32BE {
        Some(PcmCodec::S32Be)
    } else if id == CODEC_ID_PCM_S24LE {
        Some(PcmCodec::S24Le)
    } else if id == CODEC_ID_PCM_S24BE {
        Some(PcmCodec::S24Be)
    } else if id == CODEC_ID_PCM_S16LE {
        Some(PcmCodec::S16Le)
    } else if id == CODEC_ID_PCM_S16BE {
        Some(PcmCodec::S16Be)
    } else if id == CODEC_ID_PCM_S8 {
        Some(PcmCodec::S8)
    } else if id == CODEC_ID_PCM_U32LE {
        Some(PcmCodec::U32Le)
    } else if id == CODEC_ID_PCM_U32BE {
        Some(PcmCodec::U32Be)
    } else if id == CODEC_ID_PCM_U24LE {
        Some(PcmCodec::U24Le)
    } else if id == CODEC_ID_PCM_U24BE {
        Some(PcmCodec::U24Be)
    } else if id == CODEC_ID_PCM_U16LE {
        Some(PcmCodec::U16Le)
    } else if id == CODEC_ID_PCM_U16BE {
        Some(PcmCodec::U16Be)
    } else if id == CODEC_ID_PCM_U8 {
        Some(PcmCodec::U8)
    } else if id == CODEC_ID_PCM_F32LE {
        Some(PcmCodec::F32Le)
    } else if id == CODEC_ID_PCM_F32BE {
        Some(PcmCodec::F32Be)
    } else if id == CODEC_ID_PCM_F64LE {
        Some(PcmCodec::F64Le)
    } else if id == CODEC_ID_PCM_F64BE {
        Some(PcmCodec::F64Be)
    } else if id == CODEC_ID_PCM_ALAW {
        Some(PcmCodec::ALaw)
    } else if id == CODEC_ID_PCM_MULAW {
        Some(PcmCodec::MuLaw)
    } else {
        None
    }
}

/// Gets the PCM codec of a codec identifier, if it is one.
fn pcm_codec_of(id: AudioCodecId) -> (r: Option<PcmCodec>)
    ensures
        r == pcm_codec_spec(id),
{
    if id == CODEC_ID_PCM_S32LE {
        Some(PcmCodec::S32Le)
    } else if id == CODEC_ID_PCM_S32BE {
        Some(PcmCodec::S32Be)
    } else if id == CODEC_ID_PCM_S24LE {
        Some(PcmCodec::S24Le)
    } else if id == CODEC_ID_PCM_S24BE {
        Some(PcmCodec::S24Be)
    } else if id == CODEC_ID_PCM_S16LE {
        Some(PcmCodec::S16Le)
    } else if id == CODEC_ID_PCM_S16BE {
        Some(PcmCodec::S16Be)
    } else if id == CODEC_ID_PCM_S8 {
        Some(PcmCodec::S8)
    } else if id == CODEC_ID_PCM_U32LE {
        Some(PcmCodec::U32Le)
    } else if id == CODEC_ID_PCM_U32BE {
        Some(PcmCodec::U32Be)
    } else if id == CODEC_ID_PCM_U24LE {
        Some(PcmCodec::U24Le)
    } else if id == CODEC_ID_PCM_U24BE {
        Some(PcmCodec::U24Be)
    } else if id == CODEC_ID_PCM_U16LE {
        Some(PcmCodec::U16Le)
    } else if id == CODEC_ID_PCM_U16BE {
        Some(PcmCodec::U16Be)
    } else if id == CODEC_ID_PCM_U8 {
        Some(PcmCodec::U8)
    } else if id == CODEC_ID_PCM_F32LE {
        Some(PcmCodec::F32Le)
    } else if id == CODEC_ID_PCM_F32BE {
        Some(PcmCodec::F32Be)
    } else if id == CODEC_ID_PCM_F64LE {
        Some(PcmCodec::F64Le)
    } else if id == CODEC_ID_PCM_F64BE {
        Some(PcmCodec::F64Be)
    } else if id == CODEC_ID_PCM_ALAW {
        Some(PcmCodec::ALaw)
    } else if id == CODEC_ID_PCM_MULAW {
        Some(PcmCodec::MuLaw)
    } else {
        None
    }
}

/// Whether the codec is one of the PCM or log-PCM codecs that this decoder decodes.
pub fn is_supported_pcm_codec(codec_id: AudioCodecId) -> (r: bool)
    ensures
        r == (pcm_codec_spec(codec_id) is Some),
{
    pcm_codec_of(codec_id).is_some()
}

/// The sample format a codec decodes to, and the width in bits of that format.
pub open spec fn pcm_sample_format(c: PcmCodec) -> (SampleFormat, u32) {
    match c {
        PcmCodec::S32Le | PcmCodec::S32Be => (SampleFormat::S32, 32),
        PcmCodec::S24Le | PcmCodec::S24Be => (SampleFormat::S24, 24),
        PcmCodec::S16Le | PcmCodec::S16Be => (SampleFormat::S16, 16),
        PcmCodec::S8 => (SampleFormat::S8, 8),
        PcmCodec::U32Le | PcmCodec::U32Be => (SampleFormat::U32, 32),
        PcmCodec::U24Le | PcmCodec::U24Be => (SampleFormat::U24, 24),
        PcmCodec::U16Le | PcmCodec::U16Be => (SampleFormat::U16, 16),
        PcmCodec::U8 => (SampleFormat::U8, 8),
        PcmCodec::F32Le | PcmCodec::F32Be => (SampleFormat::F32, 32),
        PcmCodec::F64Le | PcmCodec::F64Be => (SampleFormat::F64, 64),
        PcmCodec::ALaw | PcmCodec::MuLaw => (SampleFormat::S16, 16),
    }
}

/// Gets the sample format a codec decodes to, and the width in bits of that format.
fn sample_format_of(c: PcmCodec) -> (r: (SampleFormat, u32))
    ensures
        r == pcm_sample_format(c),
{
    match c {
        PcmCodec::S32Le | PcmCodec::S32Be => (SampleFormat::S32, 32),
        PcmCodec::S24Le | PcmCodec::S24Be => (SampleFormat::S24, 24),
        PcmCodec::S16Le | PcmCodec::S16Be => (SampleFormat::S16, 16),
        PcmCodec::S8 => (SampleFormat::S8, 8),
        PcmCodec::U32Le | PcmCodec::U32Be => (SampleFormat::U32, 32),
        PcmCodec::U24Le | PcmCodec::U24Be => (SampleFormat::U24, 24),
        PcmCodec::U16Le | PcmCodec::U16Be => (SampleFormat::U16, 16),
        PcmCodec::U8 => (SampleFormat::U8, 8),
        PcmCodec::F32Le | PcmCodec::F32Be => (SampleFormat::F32, 32),
        PcmCodec::F64Le | PcmCodec::F64Be => (SampleFormat::F64, 64),
        PcmCodec::ALaw | PcmCodec::MuLaw => (SampleFormat::S16, 16),
    }
}

/// Whether a codec may be used without a known coded sample width: floating-point and log-PCM.
pub open spec fn width_optional(c: PcmCodec) -> bool {
    match c {
        PcmCodec::F32Le | PcmCodec::F32Be | PcmCodec::F64Le | PcmCodec::F64Be | PcmCodec::ALaw
        | PcmCodec::MuLaw => true,
        _ => false,
    }
}

/// The number of bytes each coded sample of a codec occupies.
pub open spec fn coded_bytes(c: PcmCodec) -> nat {
    match c {
        PcmCodec::S32Le | PcmCodec::S32Be | PcmCodec::U32Le | PcmCodec::U32Be | PcmCodec::F32Le
        | PcmCodec::F32Be => 4,
        PcmCodec::S24Le | PcmCodec::S24Be | PcmCodec::U24Le | PcmCodec::U24Be => 3,
        PcmCodec::S16Le | PcmCodec::S16Be | PcmCodec::U16Le | PcmCodec::U16Be => 2,
        PcmCodec::F64Le | PcmCodec::F64Be => 8,
        PcmCodec::S8 | PcmCodec::U8 | PcmCodec::ALaw | PcmCodec::MuLaw => 1,
    }
}

/// The coded width is one the decoder accepts for the codec: at most the width of the sample
/// format, and non-zero unless the codec does not need it.
pub open spec fn coded_width_ok(c: PcmCodec, cw: u32) -> bool {
    &&& cw <= pcm_sample_format(c).1
    &&& (cw == 0 ==> width_optional(c))
}

/// The decoded value of the sample whose coded bytes start at offset `o` of `s`, for a codec
/// and a coded width of `cw` bits. Integer samples are shifted left so the `cw` coded bits
/// occupy the top of the sample format; 24-bit samples are held in the low 24 bits of a 32-bit
/// word (the coded value is widened to 32 bits, shifted, and narrowed back by eight bits).
/// Floating-point samples are their bit patterns; log-PCM samples their linear expansion.
pub open spec fn pcm_sample(c: PcmCodec, cw: u32, s: Seq<u8>, o: int) -> int {
    match c {
        PcmCodec::S32Le => ((signed(uint_le(s, o, 4), 32) as i32) << ((32 - cw) as u32)) as int,
        PcmCodec::S32Be => ((signed(uint_be(s, o, 4), 32) as i32) << ((32 - cw) as u32)) as int,
        PcmCodec::S24Le => ((((signed(uint_le(s, o, 3), 24) as i32) << 8i32) << ((24 - cw) as u32))
            >> 8i32) as int,
        PcmCodec::S24Be => ((((signed(uint_be(s, o, 3), 24) as i32) << 8i32) << ((24 - cw) as u32))
            >> 8i32) as int,
        PcmCodec::S16Le => ((signed(uint_le(s, o, 2), 16) as i16) << ((16 - cw) as u32)) as int,
        PcmCodec::S16Be => ((signed(uint_be(s, o, 2), 16) as i16) << ((16 - cw) as u32)) as int,
        PcmCodec::S8 => ((signed(s[o] as int, 8) as i8) << ((8 - cw) as u32)) as int,
        PcmCodec::U32Le => ((uint_le(s, o, 4) as u32) << ((32 - cw) as u32)) as int,
        PcmCodec::U32Be => ((uint_be(s, o, 4) as u32) << ((32 - cw) as u32)) as int,
        PcmCodec::U24Le => ((((uint_le(s, o, 3) as u32) << 8u32) << ((24 - cw) as u32)) >> 8u32) as int,
        PcmCodec::U24Be => ((((uint_be(s, o, 3) as u32) << 8u32) << ((24 - cw) as u32)) >> 8u32) as int,
        PcmCodec::U16Le => ((uint_le(s, o, 2) as u16) << ((16 - cw) as u32)) as int,
        PcmCodec::U16Be => ((uint_be(s, o, 2) as u16) << ((16 - cw) as u32)) as int,
        PcmCodec::U8 => (s[o] << ((8 - cw) as u32)) as int,
        PcmCodec::F32Le => uint_le(s, o, 4),
        PcmCodec::F32Be => uint_be(s, o, 4),
        PcmCodec::F64Le => uint_le(s, o, 8),
        PcmCodec::F64Be => uint_be(s, o, 8),
        PcmCodec::ALaw => alaw_value(s[o]),
        PcmCodec::MuLaw => mulaw_value(s[o]),
    }
}

/// Gets the number of bytes each coded sample of a codec occupies.
fn coded_bytes_of(c: PcmCodec) -> (r: usize)
    ensures
        r == coded_bytes(c),
{
    match c {
        PcmCodec::S32Le | PcmCodec::S32Be | PcmCodec::U32Le | PcmCodec::U32Be | PcmCodec::F32Le
        | PcmCodec::F32Be => 4,
        PcmCodec::S24Le | PcmCodec::S24Be | PcmCodec::U24Le | PcmCodec::U24Be => 3,
        PcmCodec::S16Le | PcmCodec::S16Be | PcmCodec::U16Le | PcmCodec::U16Be => 2,
        PcmCodec::F64Le | PcmCodec::F64Be => 8,
        PcmCodec::S8 | PcmCodec::U8 | PcmCodec::ALaw | PcmCodec::MuLaw => 1,
    }
}

/// Reads and decodes one coded sample.
fn read_sample(reader: &mut BufReader, codec: PcmCodec, cw: u32) -> (r: Result<i128>)
    requires
        old(reader).inv(),
        coded_width_ok(codec, cw),
    ensures
        old(reader).consumed(*final(reader), coded_bytes(codec) as int),
        r is Ok <==> old(reader).remaining() >= coded_bytes(codec),
        r matches Ok(v) ==> v == pcm_sample(codec, cw, old(reader).data(), old(reader).position()),
        r matches Err(e) ==> is_eof_error(e),
{
    match codec {
        PcmCodec::S32Le => {
            let raw = reader.read_i32()?;
            Ok((raw << (32 - cw)) as i128)
        },
        PcmCodec::S32Be => {
            let raw = reader.read_be_i32()?;
            Ok((raw << (32 - cw)) as i128)
        },
        PcmCodec::S24Le => {
            let raw = reader.read_i24()? << 8i32;
            Ok(((raw << (24 - cw)) >> 8i32) as i128)
        },
        PcmCodec::S24Be => {
            let raw = reader.read_be_i24()? << 8i32;
            Ok(((raw << (24 - cw)) >> 8i32) as i128)
        },
        PcmCodec::S16Le => {
            let raw = reader.read_i16()?;
            Ok((raw << (16 - cw)) as i128)
        },
        PcmCodec::S16Be => {
            let raw = reader.read_be_i16()?;
            Ok((raw << (16 - cw)) as i128)
        },
        PcmCodec::S8 => {
            let raw = reader.read_i8()?;
            Ok((raw << (8 - cw)) as i128)
        },
        PcmCodec::U32Le => {
            let raw = reader.read_u32()?;
            Ok((raw << (32 - cw)) as i128)
        },
        PcmCodec::U32Be => {
            let raw = reader.read_be_u32()?;
            Ok((raw << (32 - cw)) as i128)
        },
        PcmCodec::U24Le => {
            let raw = reader.read_u24()? << 8u32;
            Ok(((raw << (24 - cw)) >> 8u32) as i128)
        },
        PcmCodec::U24Be => {
            let raw = reader.read_be_u24()? << 8u32;
            Ok(((raw << (24 - cw)) >> 8u32) as i128)
        },
        PcmCodec::U16Le => {
            let raw = reader.read_u16()?;
            Ok((raw << (16 - cw)) as i128)
        },
        PcmCodec::U16Be => {
            let raw = reader.read_be_u16()?;
            Ok((raw << (16 - cw)) as i128)
        },
        PcmCodec::U8 => {
            let raw = reader.read_u8()?;
            Ok((raw << (8 - cw)) as i128)
        },
        PcmCodec::F32Le => Ok(reader.read_u32()? as i128),
        PcmCodec::F32Be => Ok(reader.read_be_u32()? as i128),
        PcmCodec::F64Le => Ok(reader.read_u64()? as i128),
        PcmCodec::F64Be => Ok(reader.read_be_u64()? as i128),
        PcmCodec::ALaw => Ok(alaw_to_linear(reader.read_u8()?) as i128),
        PcmCodec::MuLaw => Ok(mulaw_to_linear(reader.read_u8()?) as i128),
    }
}

/// The `n` bytes of `s` starting at offset `o`, in reverse order.
pub open spec fn reversed_bytes(s: Seq<u8>, o: int, n: int) -> Seq<u8> {
    Seq::new(n as nat, |i: int| s[o + n - 1 - i])
}

/// A big-endian codec decodes the bytes of a sample as its little-endian twin decodes the same
/// bytes in reverse order, at every coded width.
pub proof fn law_pcm_byte_order(s: Seq<u8>, o: int, cw: u32)
    requires
        0 <= o,
    ensures
        o + 2 <= s.len() ==> pcm_sample(PcmCodec::S16Be, cw, s, o) == pcm_sample(
            PcmCodec::S16Le,
            cw,
            reversed_bytes(s, o, 2),
            0,
        ),
        o + 2 <= s.len() ==> pcm_sample(PcmCodec::U16Be, cw, s, o) == pcm_sample(
            PcmCodec::U16Le,
            cw,
            reversed_bytes(s, o, 2),
            0,
        ),
        o + 3 <= s.len() ==> pcm_sample(PcmCodec::S24Be, cw, s, o) == pcm_sample(
            PcmCodec::S24Le,
            cw,
            reversed_bytes(s, o, 3),
            0,
        ),
        o + 3 <= s.len() ==> pcm_sample(PcmCodec::U24Be, cw, s, o) == pcm_sample(
            PcmCodec::U24Le,
            cw,
            reversed_bytes(s, o, 3),
            0,
        ),
        o + 4 <= s.len() ==> pcm_sample(PcmCodec::S32Be, cw, s, o) == pcm_sample(
            PcmCodec::S32Le,
            cw,
            reversed_bytes(s, o, 4),
            0,
        ),
        o + 4 <= s.len() ==> pcm_sample(PcmCodec::U32Be, cw, s, o) == pcm_sample(
            PcmCodec::U32Le,
            cw,
            reversed_bytes(s, o, 4),
            0,
        ),
        o + 4 <= s.len() ==> pcm_sample(PcmCodec::F32Be, cw, s, o) == pcm_sample(
            PcmCodec::F32Le,
            cw,
            reversed_bytes(s, o, 4),
            0,
        ),
        o + 8 <= s.len() ==> pcm_sample(PcmCodec::F64Be, cw, s, o) == pcm_sample(
            PcmCodec::F64Le,
            cw,
            reversed_bytes(s, o, 8),
            0,
        ),
{
    lemma_layouts(s, o);
    lemma_layouts(s, o + 4);
    lemma_layouts8(s, o);
    let r2 = reversed_bytes(s, o, 2);
    let r3 = reversed_bytes(s, o, 3);
    let r4 = reversed_bytes(s, o, 4);
    let r8 = reversed_bytes(s, o, 8);
    lemma_layouts(r2, 0);
    lemma_layouts(r3, 0);
    lemma_layouts(r4, 0);
    lemma_layouts(r8, 0);
    lemma_layouts(r8, 4);
    lemma_layouts8(r8, 0);
    if o + 2 <= s.len() {
        assert(uint_be(s, o, 2) == uint_le(r2, 0, 2));
    }
    if o + 3 <= s.len() {
        assert(uint_be(s, o, 3) == uint_le(r3, 0, 3));
    }
    if o + 4 <= s.len() {
        assert(uint_be(s, o, 4) == uint_le(r4, 0, 4));
    }
    if o + 8 <= s.len() {
        assert(uint_be(s, o, 4) == uint_le(r8, 4, 4));
        assert(uint_be(s, o + 4, 4) == uint_le(r8, 0, 4));
        assert(uint_be(s, o, 8) == uint_le(r8, 0, 8));
    }
}

/// At the full width of its sample format, an integer sample is the plain (unsigned codecs) or
/// two's complement (signed codecs) reading of its bytes: most significant byte first for the
/// big-endian codecs, last for the little-endian ones.
pub proof fn law_pcm_full_width_samples(s: Seq<u8>, o: int)
    requires
        0 <= o,
    ensures
        o + 1 <= s.len() ==> pcm_sample(PcmCodec::U8, 8, s, o) == s[o],
        o + 1 <= s.len() ==> pcm_sample(PcmCodec::S8, 8, s, o) == signed(s[o] as int, 8),
        o + 2 <= s.len() ==> pcm_sample(PcmCodec::U16Be, 16, s, o) == 256 * s[o] + s[o + 1],
        o + 2 <= s.len() ==> pcm_sample(PcmCodec::U16Le, 16, s, o) == s[o] + 256 * s[o + 1],
        o + 2 <= s.len() ==> pcm_sample(PcmCodec::S16Be, 16, s, o) == signed(
            256 * s[o] + s[o + 1],
            16,
        ),
        o + 2 <= s.len() ==> pcm_sample(PcmCodec::S16Le, 16, s, o) == signed(
            s[o] + 256 * s[o + 1],
            16,
        ),
        o + 3 <= s.len() ==> pcm_sample(PcmCodec::U24Be, 24, s, o) == 65536 * s[o] + 256 * s[o
            + 1] + s[o + 2],
        o + 3 <= s.len() ==> pcm_sample(PcmCodec::U24Le, 24, s, o) == s[o] + 256 * s[o + 1]
            + 65536 * s[o + 2],
        o + 3 <= s.len() ==> pcm_sample(PcmCodec::S24Be, 24, s, o) == signed(
            65536 * s[o] + 256 * s[o + 1] + s[o + 2],
            24,
        ),
        o + 3 <= s.len() ==> pcm_sample(PcmCodec::S24Le, 24, s, o) == signed(
            s[o] + 256 * s[o + 1] + 65536 * s[o + 2],
            24,
        ),
        o + 4 <= s.len() ==> pcm_sample(PcmCodec::U32Be, 32, s, o) == 16777216 * s[o] + 65536
            * s[o + 1] + 256 * s[o + 2] + s[o + 3],
        o + 4 <= s.len() ==> pcm_sample(PcmCodec::U32Le, 32, s, o) == s[o] + 256 * s[o + 1]
            + 65536 * s[o + 2] + 16777216 * s[o + 3],
        o + 4 <= s.len() ==> pcm_sample(PcmCodec::S32Be, 32, s, o) == signed(
            16777216 * s[o] + 65536 * s[o + 1] + 256 * s[o + 2] + s[o + 3],
            32,
        ),
        o + 4 <= s.len() ==> pcm_sample(PcmCodec::S32Le, 32, s, o) == signed(
            s[o] + 256 * s[o + 1] + 65536 * s[o + 2] + 16777216 * s[o + 3],
            32,
        ),
{
    lemma_layouts(s, o);
    lemma_pow2_values();
    let b = s[o];
    let x8 = signed(b as int, 8) as i8;
    let ub2 = uint_be(s, o, 2) as u16;
    let ul2 = uint_le(s, o, 2) as u16;
    let xb2 = signed(uint_be(s, o, 2), 16) as i16;
    let xl2 = signed(uint_le(s, o, 2), 16) as i16;
    let ub3 = uint_be(s, o, 3) as u32;
    let ul3 = uint_le(s, o, 3) as u32;
    let xb3 = signed(uint_be(s, o, 3), 24) as i32;
    let xl3 = signed(uint_le(s, o, 3), 24) as i32;
    let ub4 = uint_be(s, o, 4) as u32;
    let ul4 = uint_le(s, o, 4) as u32;
    let xb4 = signed(uint_be(s, o, 4), 32) as i32;
    let xl4 = signed(uint_le(s, o, 4), 32) as i32;
    if o + 3 <= s.len() {
        assert(0 <= uint_be(s, o, 3) < 16777216 && 0 <= uint_le(s, o, 3) < 16777216);
        assert(-8388608 <= signed(uint_be(s, o, 3), 24) < 8388608);
        assert(-8388608 <= signed(uint_le(s, o, 3), 24) < 8388608);
    }
    assert({
        &&& b << 0u32 == b
        &&& x8 << 0u32 == x8
        &&& ub2 << 0u32 == ub2
        &&& ul2 << 0u32 == ul2
        &&& xb2 << 0u32 == xb2
        &&& xl2 << 0u32 == xl2
        &&& (ub3 < 16777216 ==> ((ub3 << 8u32) << 0u32) >> 8u32 == ub3)
        &&& (ul3 < 16777216 ==> ((ul3 << 8u32) << 0u32) >> 8u32 == ul3)
        &&& (-8388608 <= xb3 < 8388608 ==> ((xb3 << 8i32) << 0u32) >> 8i32 == xb3)
        &&& (-8388608 <= xl3 < 8388608 ==> ((xl3 << 8i32) << 0u32) >> 8i32 == xl3)
        &&& ub4 << 0u32 == ub4
        &&& ul4 << 0u32 == ul4
        &&& xb4 << 0u32 == xb4
        &&& xl4 << 0u32 == xl4
    }) by (bit_vector);
}

/// Every sample a codec decodes, at the given coded width, is a value of the sample type `T`.
pub open spec fn samples_fit<T: Sample>(c: PcmCodec, cw: u32) -> bool {
    forall|s: Seq<u8>, o: int| #[trigger] T::in_range(pcm_sample(c, cw, s, o))
}

/// The frames that reading `frames` frames of `channels` interleaved coded samples from `s`,
/// starting at offset `p`, decodes: sample `f` of channel `ch` is the coded sample at index
/// `f * channels + ch`.
pub open spec fn decoded_sample(c: PcmCodec, cw: u32, s: Seq<u8>, p: int, channels: int, ch: int, f: int) -> int {
    pcm_sample(c, cw, s, p + (f * channels + ch) * coded_bytes(c))
}

/// Reading past the remaining bytes at sample `f * channels + c` means that fewer than
/// `frames * channels` samples remained.
proof fn lemma_short_read(rem: int, f: int, c: int, channels: int, frames: int, w: int)
    requires
        0 <= f < frames,
        0 <= c < channels,
        w >= 0,
        rem - (f * channels + c) * w < w,
    ensures
        rem < frames * channels * w,
{
    assert((f * channels + c + 1) * w <= frames * channels * w) by (nonlinear_arith)
        requires
            0 <= f < frames,
            0 <= c < channels,
            w >= 0,
    ;
    assert(rem < (f * channels + c + 1) * w) by (nonlinear_arith)
        requires
            rem - (f * channels + c) * w < w,
    ;
}

/// Decodes `capacity` frames of interleaved samples into an empty buffer.
fn decode_frames<T: Sample>(buf: &mut AudioBuffer<T>, reader: &mut BufReader, codec: PcmCodec, cw: u32) -> (r: Result<()>)
    requires
        old(buf).inv(),
        old(buf).spec_frames() == 0,
        old(reader).inv(),
        coded_width_ok(codec, cw),
        samples_fit::<T>(codec, cw),
    ensures
        final(buf).inv(),
        final(buf).spec_spec() == old(buf).spec_spec(),
        final(buf).spec_capacity() == old(buf).spec_capacity(),
        final(buf).planes_view().len() == old(buf).planes_view().len(),
        final(reader).inv(),
        final(reader).data() == old(reader).data(),
        r is Ok <==> old(reader).remaining() >= old(buf).spec_capacity() * old(buf).planes_view().len()
            * coded_bytes(codec),
        r is Ok ==> final(buf).spec_frames() == old(buf).spec_capacity(),
        r is Ok ==> forall|ch: int, f: int|
            0 <= ch < final(buf).planes_view().len() && 0 <= f < final(buf).spec_frames()
                ==> (#[trigger] final(buf).planes_view()[ch][f]).value() == decoded_sample(
                codec,
                cw,
                old(reader).data(),
                old(reader).position(),
                old(buf).planes_view().len() as int,
                ch,
                f,
            ),
        r matches Err(e) ==> is_eof_error(e),
{
    let num_frames = buf.capacity();
    let num_channels = buf.spec().channels.count();
    let ghost s = reader.data();
    let ghost p0 = reader.position();
    let ghost w = coded_bytes(codec) as int;
    let ghost nch = num_channels as int;
    let ghost rem = old(reader).remaining();
    let mut frame_idx: usize = 0;
    assert(0 * nch * w == 0) by (nonlinear_arith);
    while frame_idx < num_frames
        invariant
            frame_idx <= num_frames,
            num_frames == buf.spec_capacity(),
            num_channels == buf.planes_view().len(),
            s == old(reader).data(),
            p0 == old(reader).position(),
            buf.inv(),
            buf.spec_frames() == frame_idx,
            buf.spec_spec() == old(buf).spec_spec(),
            buf.spec_capacity() == old(buf).spec_capacity(),
            buf.planes_view().len() == old(buf).planes_view().len(),
            reader.inv(),
            reader.data() == s,
            reader.position() == p0 + frame_idx * nch * w,
            rem == s.len() - p0,
            rem >= frame_idx * nch * w,
            coded_width_ok(codec, cw),
            samples_fit::<T>(codec, cw),
            w == coded_bytes(codec),
            nch == num_channels,
            forall|ch: int, f: int|
                0 <= ch < nch && 0 <= f < frame_idx ==> (#[trigger] buf.planes_view()[ch][f]).value()
                    == decoded_sample(codec, cw, s, p0, nch, ch, f),
        ensures
            buf.inv(),
            buf.spec_spec() == old(buf).spec_spec(),
            buf.spec_capacity() == old(buf).spec_capacity(),
            buf.planes_view().len() == old(buf).planes_view().len(),
            reader.inv(),
            reader.data() == s,
            frame_idx == num_frames,
            buf.spec_frames() == num_frames,
            rem >= num_frames * nch * w,
            forall|ch: int, f: int|
                0 <= ch < nch && 0 <= f < num_frames ==> (#[trigger] buf.planes_view()[ch][f]).value()
                    == decoded_sample(codec, cw, s, p0, nch, ch, f),
        decreases num_frames - frame_idx,
    {
        let mut frame: Vec<T> = Vec::new();
        let mut ch: usize = 0;
        while ch < num_channels
            invariant
                ch <= num_channels,
                frame_idx < num_frames,
                frame@.len() == ch,
                s == old(reader).data(),
                p0 == old(reader).position(),
                buf.inv(),
                buf.spec_frames() == frame_idx,
                buf.spec_spec() == old(buf).spec_spec(),
                buf.spec_capacity() == old(buf).spec_capacity(),
                buf.planes_view().len() == old(buf).planes_view().len(),
                num_channels == buf.planes_view().len(),
                num_frames == buf.spec_capacity(),
                reader.inv(),
                reader.data() == s,
                reader.position() == p0 + (frame_idx * nch + ch) * w,
                rem == s.len() - p0,
                coded_width_ok(codec, cw),
                samples_fit::<T>(codec, cw),
                w == coded_bytes(codec),
                nch == num_channels,
                forall|k: int|
                    0 <= k < ch ==> (#[trigger] frame@[k]).value() == decoded_sample(
                        codec,
                        cw,
                        s,
                        p0,
                        nch,
                        k,
                        frame_idx as int,
                    ),
            decreases num_channels - ch,
        {
            let ghost before = reader.position();
            let res = read_sample(reader, codec, cw);
            match res {
                Ok(v) => {
                    assert(T::in_range(pcm_sample(codec, cw, s, before)));
                    frame.push(T::from_value(v));
                    assert((frame_idx * nch + ch) * w + w == (frame_idx * nch + ch + 1) * w)
                        by (nonlinear_arith);
                },
                Err(e) => {
                    proof {
                        lemma_short_read(rem, frame_idx as int, ch as int, nch, num_frames as int, w);
                    }
                    return Err(e);
                },
            }
            ch = ch + 1;
        }
        assert((frame_idx * nch + nch) * w == (frame_idx + 1) * nch * w) by (nonlinear_arith);
        let ghost old_planes = buf.planes_view();
        buf.push_frame(&frame);
        assert forall|c: int, f: int|
            0 <= c < nch && 0 <= f < frame_idx + 1 implies (#[trigger] buf.planes_view()[c][f]).value()
                == decoded_sample(codec, cw, s, p0, nch, c, f) by {
            assert(buf.planes_view()[c] == old_planes[c].push(frame@[c]));
            if f < frame_idx {
                assert(buf.planes_view()[c][f] == old_planes[c][f]);
            }
        }
        frame_idx = frame_idx + 1;
    }
    Ok(())
}

/// Every A-law code expands to a value of magnitude at most 32256.
pub proof fn lemma_alaw_range(code: u8)
    ensures
        -32256 <= alaw_value(code) <= 32256,
{
    let v = code ^ 0x55u8;
    let q = v & 0x0fu8;
    let seg = (v & 0x70u8) >> 4u8;
    assert(q <= 15) by (bit_vector)
        requires
            q == v & 0x0fu8,
    ;
    assert(seg <= 7) by (bit_vector)
        requires
            seg == (v & 0x70u8) >> 4u8,
    ;
    lemma_small_pow2();
    let quant = q as int;
    if seg >= 2 {
        let k = (seg - 1) as nat;
        assert(pow2(k) <= 64);
        assert((quant * 16 + 0x108) * pow2(k) <= 504 * 64) by (nonlinear_arith)
            requires
                0 <= quant <= 15,
                0 <= pow2(k) <= 64,
        ;
        assert((quant * 16 + 0x108) * pow2(k) >= 0) by (nonlinear_arith)
            requires
                0 <= quant <= 15,
                0 <= pow2(k) <= 64,
        ;
    }
}

/// Every mu-law code expands to a value of magnitude at most 32124.
pub proof fn lemma_mulaw_range(code: u8)
    ensures
        -32124 <= mulaw_value(code) <= 32124,
{
    let v = !code;
    let q = v & 0x0fu8;
    let seg = (v & 0x70u8) >> 4u8;
    assert(q <= 15) by (bit_vector)
        requires
            q == v & 0x0fu8,
    ;
    assert(seg <= 7) by (bit_vector)
        requires
            seg == (v & 0x70u8) >> 4u8,
    ;
    lemma_small_pow2();
    let quant = q as int;
    let k = seg as nat;
    assert(1 <= pow2(k) <= 128);
    assert((quant * 8 + 0x84) * pow2(k) <= 252 * 128) by (nonlinear_arith)
        requires
            0 <= quant <= 15,
            1 <= pow2(k) <= 128,
    ;
    assert((quant * 8 + 0x84) * pow2(k) >= 0x84) by (nonlinear_arith)
        requires
            0 <= quant <= 15,
            1 <= pow2(k) <= 128,
    ;
}

/// The samples of each codec fit the sample type of its sample format.
proof fn lemma_samples_fit(c: PcmCodec, cw: u32)
    ensures
        pcm_sample_format(c).0 == SampleFormat::U8 ==> samples_fit::<u8>(c, cw),
        pcm_sample_format(c).0 == SampleFormat::U16 ==> samples_fit::<u16>(c, cw),
        pcm_sample_format(c).0 == SampleFormat::U24 ==> samples_fit::<u32>(c, cw),
        pcm_sample_format(c).0 == SampleFormat::U32 ==> samples_fit::<u32>(c, cw),
        pcm_sample_format(c).0 == SampleFormat::S8 ==> samples_fit::<i8>(c, cw),
        pcm_sample_format(c).0 == SampleFormat::S16 ==> samples_fit::<i16>(c, cw),
        pcm_sample_format(c).0 == SampleFormat::S24 ==> samples_fit::<i32>(c, cw),
        pcm_sample_format(c).0 == SampleFormat::S32 ==> samples_fit::<i32>(c, cw),
        pcm_sample_format(c).0 == SampleFormat::F32 ==> samples_fit::<u32>(c, cw),
        pcm_sample_format(c).0 == SampleFormat::F64 ==> samples_fit::<u64>(c, cw),
{
    assert forall|s: Seq<u8>, o: int| #[trigger] pcm_sample(c, cw, s, o) == pcm_sample(c, cw, s, o)
        implies {
        &&& pcm_sample_format(c).0 == SampleFormat::S16 ==> i16::in_range(pcm_sample(c, cw, s, o))
        &&& pcm_sample_format(c).0 == SampleFormat::F32 ==> u32::in_range(pcm_sample(c, cw, s, o))
        &&& pcm_sample_format(c).0 == SampleFormat::F64 ==> u64::in_range(pcm_sample(c, cw, s, o))
    } by {
        if c == PcmCodec::ALaw {
            lemma_alaw_range(s[o]);
        } else if c == PcmCodec::MuLaw {
            lemma_mulaw_range(s[o]);
        } else if c == PcmCodec::F32Le || c == PcmCodec::F32Be || c == PcmCodec::F64Le
            || c == PcmCodec::F64Be {
            lemma_layouts(s, o);
            lemma_layouts(s, o + 4);
            lemma_layouts8(s, o);
            assert(0 <= s[o] <= 255 && 0 <= s[o + 1] <= 255 && 0 <= s[o + 2] <= 255 && 0 <= s[o
                + 3] <= 255);
            assert(0 <= s[o + 4] <= 255 && 0 <= s[o + 5] <= 255 && 0 <= s[o + 6] <= 255 && 0 <= s[o
                + 7] <= 255);
        }
    }
}

/// Decodes `capacity` frames of interleaved samples into an empty buffer of the codec's sample
/// format.
fn decode_into(buf: &mut GenericAudioBuffer, reader: &mut BufReader, codec: PcmCodec, cw: u32) -> (r: Result<()>)
    requires
        old(buf).inv(),
        old(buf).spec_frames() == 0,
        old(buf).format() == pcm_sample_format(codec).0,
        old(reader).inv(),
        coded_width_ok(codec, cw),
    ensures
        final(buf).inv(),
        final(buf).format() == old(buf).format(),
        final(buf).spec_spec() == old(buf).spec_spec(),
        final(buf).spec_capacity() == old(buf).spec_capacity(),
        final(buf).spec_planes() == old(buf).spec_planes(),
        final(reader).inv(),
        final(reader).data() == old(reader).data(),
        r is Ok <==> old(reader).remaining() >= old(buf).spec_capacity() * old(buf).spec_planes()
            * coded_bytes(codec),
        r is Ok ==> final(buf).spec_frames() == old(buf).spec_capacity(),
        r is Ok ==> forall|ch: int, f: int|
            0 <= ch < final(buf).spec_planes() && 0 <= f < final(buf).spec_frames()
                ==> #[trigger] final(buf).sample(ch, f) == decoded_sample(
                codec,
                cw,
                old(reader).data(),
                old(reader).position(),
                old(buf).spec_planes() as int,
                ch,
                f,
            ),
        r matches Err(e) ==> is_eof_error(e),
{
    proof {
        lemma_samples_fit(codec, cw);
    }
    match buf {
        GenericAudioBuffer::U8(b) => decode_frames(b, reader, codec, cw),
        GenericAudioBuffer::U16(b) => decode_frames(b, reader, codec, cw),
        GenericAudioBuffer::U24(b) => decode_frames(b, reader, codec, cw),
        GenericAudioBuffer::U32(b) => decode_frames(b, reader, codec, cw),
        GenericAudioBuffer::S8(b) => decode_frames(b, reader, codec, cw),
        GenericAudioBuffer::S16(b) => decode_frames(b, reader, codec, cw),
        GenericAudioBuffer::S24(b) => decode_frames(b, reader, codec, cw),
        GenericAudioBuffer::S32(b) => decode_frames(b, reader, codec, cw),
        GenericAudioBuffer::F32(b) => decode_frames(b, reader, codec, cw),
        GenericAudioBuffer::F64(b) => decode_frames(b, reader, codec, cw),
    }
}

// ---------------------------------------------------------------------------------------------
// Decoder
// ---------------------------------------------------------------------------------------------

/// The coded width of the parameters: the bits per coded sample if known, else the bits per
/// sample if known, else zero.
pub open spec fn pcm_coded_width(params: AudioCodecParameters) -> u32 {
    match params.bits_per_coded_sample {
        Some(w) => w,
        None => match params.bits_per_sample {
            Some(w) => w,
            None => 0,
        },
    }
}

/// The outcome of checking parameters for the PCM decoder: the first check they fail, in the
/// order the decoder makes them, or success.
pub open spec fn pcm_params_check(params: AudioCodecParameters) -> core::result::Result<(), Error> {
    if pcm_codec_spec(params.codec) is None {
        Err(Error::Unsupported("pcm: invalid codec"))
    } else if params.max_frames_per_packet is None {
        Err(Error::Unsupported("pcm: maximum frames per packet is required"))
    } else if params.sample_rate is None {
        Err(Error::Unsupported("pcm: sample rate is required"))
    } else if params.channels is None {
        Err(Error::Unsupported("pcm: channels or channel_layout is required"))
    } else if params.channels.unwrap().count < 1 {
        Err(Error::Unsupported("pcm: number of channels cannot be 0"))
    } else if pcm_coded_width(params) == 0 && !width_optional(pcm_codec_spec(params.codec).unwrap()) {
        Err(Error::Unsupported("pcm: unknown bits per (coded) sample"))
    } else if pcm_coded_width(params) > pcm_sample_format(pcm_codec_spec(params.codec).unwrap()).1 {
        Err(Error::DecodeError("pcm: coded bits per sample is greater than the sample format"))
    } else {
        Ok(())
    }
}

/// The PCM decoder accepts exactly the parameters of a PCM or log-PCM codec that give the
/// maximum frames per packet, the sample rate and at least one channel (any number of them),
/// with a coded width the codec accepts.
pub proof fn law_pcm_accepted_params(p: AudioCodecParameters)
    ensures
        pcm_params_check(p) is Ok <==> {
            &&& pcm_codec_spec(p.codec) is Some
            &&& p.max_frames_per_packet is Some
            &&& p.sample_rate is Some
            &&& p.channels is Some
            &&& p.channels.unwrap().count >= 1
            &&& coded_width_ok(pcm_codec_spec(p.codec).unwrap(), pcm_coded_width(p))
        },
{
}

/// The codecs the PCM decoder supports, in the order it lists them.
pub open spec fn pcm_codec_table() -> Seq<SupportedAudioCodec> {
    seq![
        codec_desc(CODEC_ID_PCM_S32LE, "pcm_s32le", "PCM Signed 32-bit Little-Endian Interleaved"),
        codec_desc(CODEC_ID_PCM_S32BE, "pcm_s32be", "PCM Signed 32-bit Big-Endian Interleaved"),
        codec_desc(CODEC_ID_PCM_S24LE, "pcm_s24le", "PCM Signed 24-bit Little-Endian Interleaved"),
        codec_desc(CODEC_ID_PCM_S24BE, "pcm_s24be", "PCM Signed 24-bit Big-Endian Interleaved"),
        codec_desc(CODEC_ID_PCM_S16LE, "pcm_s16le", "PCM Signed 16-bit Little-Endian Interleaved"),
        codec_desc(CODEC_ID_PCM_S16BE, "pcm_s16be", "PCM Signed 16-bit Big-Endian Interleaved"),
        codec_desc(CODEC_ID_PCM_S8, "pcm_s8", "PCM Signed 8-bit Interleaved"),
        codec_desc(CODEC_ID_PCM_U32LE, "pcm_u32le", "PCM Unsigned 32-bit Little-Endian Interleaved"),
        codec_desc(CODEC_ID_PCM_U32BE, "pcm_u32be", "PCM Unsigned 32-bit Big-Endian Interleaved"),
        codec_desc(CODEC_ID_PCM_U24LE, "pcm_u24le", "PCM Unsigned 24-bit Little-Endian Interleaved"),
        codec_desc(CODEC_ID_PCM_U24BE, "pcm_u24be", "PCM Unsigned 24-bit Big-Endian Interleaved"),
        codec_desc(CODEC_ID_PCM_U16LE, "pcm_u16le", "PCM Unsigned 16-bit Little-Endian Interleaved"),
        codec_desc(CODEC_ID_PCM_U16BE, "pcm_u16be", "PCM Unsigned 16-bit Big-Endian Interleaved"),
        codec_desc(CODEC_ID_PCM_U8, "pcm_u8", "PCM Unsigned 8-bit Interleaved"),
        codec_desc(CODEC_ID_PCM_F32LE, "pcm_f32le", "PCM 32-bit Little-Endian Floating Point Interleaved"),
        codec_desc(CODEC_ID_PCM_F32BE, "pcm_f32be", "PCM 32-bit Big-Endian Floating Point Interleaved"),
        codec_desc(CODEC_ID_PCM_F64LE, "pcm_f64le", "PCM 64-bit Little-Endian Floating Point Interleaved"),
        codec_desc(CODEC_ID_PCM_F64BE, "pcm_f64be", "PCM 64-bit Big-Endian Floating Point Interleaved"),
        codec_desc(CODEC_ID_PCM_ALAW, "pcm_alaw", "PCM A-law"),
        codec_desc(CODEC_ID_PCM_MULAW, "pcm_mulaw", "PCM Mu-law"),
    ]
}

/// The position of a codec in the table of supported PCM codecs.
pub open spec fn pcm_table_index(c: PcmCodec) -> int {
    match c {
        PcmCodec::S32Le => 0,
        PcmCodec::S32Be => 1,
        PcmCodec::S24Le => 2,
        PcmCodec::S24Be => 3,
        PcmCodec::S16Le => 4,
        PcmCodec::S16Be => 5,
        PcmCodec::S8 => 6,
        PcmCodec::U32Le => 7,
        PcmCodec::U32Be => 8,
        PcmCodec::U24Le => 9,
        PcmCodec::U24Be => 10,
        PcmCodec::U16Le => 11,
        PcmCodec::U16Be => 12,
        PcmCodec::U8 => 13,
        PcmCodec::F32Le => 14,
        PcmCodec::F32Be => 15,
        PcmCodec::F64Le => 16,
        PcmCodec::F64Be => 17,
        PcmCodec::ALaw => 18,
        PcmCodec::MuLaw => 19,
    }
}

/// Pulse Code Modulation (PCM) decoder for all raw PCM and log-PCM codecs.
pub struct PcmDecoder {
    params: AudioCodecParameters,
    coded_width: u32,
    buf: GenericAudioBuffer,
}

impl PcmDecoder {
    /// The decoder's invariant: the codec is a PCM codec, the coded width is one it accepts, and
    /// the buffer is well formed and of the codec's sample format.
    pub closed spec fn wf(&self) -> bool {
        &&& pcm_codec_spec(self.params.codec) is Some
        &&& coded_width_ok(pcm_codec_spec(self.params.codec).unwrap(), self.coded_width)
        &&& self.buf.inv()
        &&& self.buf.format() == pcm_sample_format(pcm_codec_spec(self.params.codec).unwrap()).0
    }

    /// The codec parameters the decoder was created with.
    pub closed spec fn spec_params(&self) -> AudioCodecParameters {
        self.params
    }

    /// The coded width of the samples, in bits.
    pub closed spec fn spec_coded_width(&self) -> u32 {
        self.coded_width
    }

    /// The buffer of the last decoded packet.
    pub closed spec fn spec_buf(&self) -> GenericAudioBuffer {
        self.buf
    }

    /// The PCM codec being decoded.
    pub open spec fn spec_codec(&self) -> PcmCodec {
        pcm_codec_spec(self.spec_params().codec).unwrap()
    }

    /// Creates a decoder for the given parameters, or returns the error of the first check the
    /// parameters fail: the codec must be a PCM codec; the maximum frames per packet, the sample
    /// rate and a non-zero number of channels must be known; and the coded width must be known
    /// (for integer codecs) and at most the width of the sample format.
    pub fn try_new(params: &AudioCodecParameters, _opts: &AudioDecoderOptions) -> (r: Result<Self>)
        ensures
            r is Ok <==> pcm_params_check(*params) is Ok,
            r matches Err(e) ==> pcm_params_check(*params) == Err::<(), Error>(e),
            r matches Ok(d) ==> {
                &&& d.wf()
                &&& d.spec_params() == *params
                &&& d.spec_coded_width() == pcm_coded_width(*params)
                &&& d.spec_buf().inv()
                &&& d.spec_buf().format() == pcm_sample_format(d.spec_codec()).0
                &&& d.spec_buf().spec_spec() == AudioSpec {
                    rate: params.sample_rate.unwrap(),
                    channels: params.channels.unwrap(),
                }
                &&& d.spec_buf().spec_capacity() == params.max_frames_per_packet.unwrap() as usize
                &&& d.spec_buf().spec_frames() == 0
            },
    {
        let codec = match pcm_codec_of(params.codec) {
            Some(codec) => codec,
            None => return unsupported_error("pcm: invalid codec"),
        };

        let frames = match params.max_frames_per_packet {
            Some(frames) => frames as usize,
            _ => return unsupported_error("pcm: maximum frames per packet is required"),
        };

        let rate = match params.sample_rate {
            Some(rate) => rate,
            _ => return unsupported_error("pcm: sample rate is required"),
        };

        let spec = if let Some(channels) = &params.channels {
            if channels.count() < 1 {
                return unsupported_error("pcm: number of channels cannot be 0");
            }
            AudioSpec::new(rate, *channels)
        } else {
            return unsupported_error("pcm: channels or channel_layout is required");
        };

        let (sample_format, sample_format_width) = sample_format_of(codec);

        let coded_width = match params.bits_per_coded_sample {
            Some(w) => w,
            None => match params.bits_per_sample {
                Some(w) => w,
                None => 0,
            },
        };

        if coded_width == 0 {
            match codec {
                PcmCodec::F32Le | PcmCodec::F32Be => (),
                PcmCodec::F64Le | PcmCodec::F64Be => (),
                PcmCodec::ALaw | PcmCodec::MuLaw => (),
                _ => return unsupported_error("pcm: unknown bits per (coded) sample"),
            }
        } else if coded_width > sample_format_width {
            return decode_error("pcm: coded bits per sample is greater than the sample format");
        }

        let buf = GenericAudioBuffer::new(sample_format, spec, frames);

        Ok(PcmDecoder { params: *params, coded_width, buf })
    }

    /// Decodes the interleaved samples of a packet into the buffer.
    fn decode_inner(&mut self, packet: &[u8]) -> (r: Result<()>)
        requires
            old(self).wf(),
        ensures
            final(self).wf(),
            final(self).spec_params() == old(self).spec_params(),
            final(self).spec_coded_width() == old(self).spec_coded_width(),
            final(self).spec_buf().format() == old(self).spec_buf().format(),
            final(self).spec_buf().spec_spec() == old(self).spec_buf().spec_spec(),
            final(self).spec_buf().spec_capacity() == old(self).spec_buf().spec_capacity(),
            final(self).spec_buf().spec_planes() == old(self).spec_buf().spec_planes(),
            r is Ok <==> packet@.len() >= old(self).spec_buf().spec_capacity()
                * old(self).spec_buf().spec_planes() * coded_bytes(old(self).spec_codec()),
            r is Ok ==> final(self).spec_buf().spec_frames() == old(self).spec_buf().spec_capacity(),
            r is Ok ==> forall|ch: int, f: int|
                0 <= ch < final(self).spec_buf().spec_planes() && 0 <= f
                    < final(self).spec_buf().spec_frames() ==> #[trigger] final(self).spec_buf().sample(
                    ch,
                    f,
                ) == decoded_sample(
                    old(self).spec_codec(),
                    old(self).spec_coded_width(),
                    packet@,
                    0,
                    old(self).spec_buf().spec_planes() as int,
                    ch,
                    f,
                ),
            r matches Err(e) ==> is_eof_error(e),
    {
        let mut reader = BufReader::new(packet);

        self.buf.clear();

        let cw = self.coded_width;

        match pcm_codec_of(self.params.codec) {
            Some(codec) => decode_into(&mut self.buf, &mut reader, codec, cw),
            None => unsupported_error("pcm: codec is unsupported"),
        }
    }

    /// Decodes a packet of interleaved samples: `capacity` frames of one coded sample per
    /// channel. Sample `f` of channel `ch` is decoded from the coded sample at index
    /// `f * channels + ch`. If the packet is too short, the error is returned and the buffer is
    /// left empty.
    pub fn decode(&mut self, packet: &[u8]) -> (r: Result<()>)
        requires
            old(self).wf(),
        ensures
            final(self).wf(),
            final(self).spec_params() == old(self).spec_params(),
            final(self).spec_coded_width() == old(self).spec_coded_width(),
            final(self).spec_buf().format() == old(self).spec_buf().format(),
            final(self).spec_buf().spec_spec() == old(self).spec_buf().spec_spec(),
            final(self).spec_buf().spec_capacity() == old(self).spec_buf().spec_capacity(),
            final(self).spec_buf().spec_planes() == old(self).spec_buf().spec_planes(),
            r is Ok <==> packet@.len() >= old(self).spec_buf().spec_capacity()
                * old(self).spec_buf().spec_planes() * coded_bytes(old(self).spec_codec()),
            r is Ok ==> final(self).spec_buf().spec_frames() == old(self).spec_buf().spec_capacity(),
            r is Ok ==> forall|ch: int, f: int|
                0 <= ch < final(self).spec_buf().spec_planes() && 0 <= f
                    < final(self).spec_buf().spec_frames() ==> #[trigger] final(self).spec_buf().sample(
                    ch,
                    f,
                ) == decoded_sample(
                    old(self).spec_codec(),
                    old(self).spec_coded_width(),
                    packet@,
                    0,
                    old(self).spec_buf().spec_planes() as int,
                    ch,
                    f,
                ),
            r is Err ==> final(self).spec_buf().spec_frames() == 0,
            r matches Err(e) ==> is_eof_error(e),
    {
        match self.decode_inner(packet) {
            Err(e) => {
                self.buf.clear();
                Err(e)
            },
            Ok(()) => Ok(()),
        }
    }

    /// Gets the codecs the PCM decoder supports.
    pub fn supported_codecs() -> (r: Vec<SupportedAudioCodec>)
        ensures
            r@ == pcm_codec_table(),
    {
        let mut v: Vec<SupportedAudioCodec> = Vec::new();
        v.push(support_audio_codec(CODEC_ID_PCM_S32LE, "pcm_s32le", "PCM Signed 32-bit Little-Endian Interleaved"));
        v.push(support_audio_codec(CODEC_ID_PCM_S32BE, "pcm_s32be", "PCM Signed 32-bit Big-Endian Interleaved"));
        v.push(support_audio_codec(CODEC_ID_PCM_S24LE, "pcm_s24le", "PCM Signed 24-bit Little-Endian Interleaved"));
        v.push(support_audio_codec(CODEC_ID_PCM_S24BE, "pcm_s24be", "PCM Signed 24-bit Big-Endian Interleaved"));
        v.push(support_audio_codec(CODEC_ID_PCM_S16LE, "pcm_s16le", "PCM Signed 16-bit Little-Endian Interleaved"));
        v.push(support_audio_codec(CODEC_ID_PCM_S16BE, "pcm_s16be", "PCM Signed 16-bit Big-Endian Interleaved"));
        v.push(support_audio_codec(CODEC_ID_PCM_S8, "pcm_s8", "PCM Signed 8-bit Interleaved"));
        v.push(support_audio_codec(CODEC_ID_PCM_U32LE, "pcm_u32le", "PCM Unsigned 32-bit Little-Endian Interleaved"));
        v.push(support_audio_codec(CODEC_ID_PCM_U32BE, "pcm_u32be", "PCM Unsigned 32-bit Big-Endian Interleaved"));
        v.push(support_audio_codec(CODEC_ID_PCM_U24LE, "pcm_u24le", "PCM Unsigned 24-bit Little-Endian Interleaved"));
        v.push(support_audio_codec(CODEC_ID_PCM_U24BE, "pcm_u24be", "PCM Unsigned 24-bit Big-Endian Interleaved"));
        v.push(support_audio_codec(CODEC_ID_PCM_U16LE, "pcm_u16le", "PCM Unsigned 16-bit Little-Endian Interleaved"));
        v.push(support_audio_codec(CODEC_ID_PCM_U16BE, "pcm_u16be", "PCM Unsigned 16-bit Big-Endian Interleaved"));
        v.push(support_audio_codec(CODEC_ID_PCM_U8, "pcm_u8", "PCM Unsigned 8-bit Interleaved"));
        v.push(support_audio_codec(CODEC_ID_PCM_F32LE, "pcm_f32le", "PCM 32-bit Little-Endian Floating Point Interleaved"));
        v.push(support_audio_codec(CODEC_ID_PCM_F32BE, "pcm_f32be", "PCM 32-bit Big-Endian Floating Point Interleaved"));
        v.push(support_audio_codec(CODEC_ID_PCM_F64LE, "pcm_f64le", "PCM 64-bit Little-Endian Floating Point Interleaved"));
        v.push(support_audio_codec(CODEC_ID_PCM_F64BE, "pcm_f64be", "PCM 64-bit Big-Endian Floating Point Interleaved"));
        v.push(support_audio_codec(CODEC_ID_PCM_ALAW, "pcm_alaw", "PCM A-law"));
        v.push(support_audio_codec(CODEC_ID_PCM_MULAW, "pcm_mulaw", "PCM Mu-law"));
        assert(v@ =~= pcm_codec_table());
        v
    }

    /// Gets the information of the codec in use.
    pub fn codec_info(&self) -> (r: CodecInfo)
        requires
            self.wf(),
        ensures
            r == pcm_codec_table()[pcm_table_index(self.spec_codec())].info,
    {
        let table = Self::supported_codecs();
        let ghost k = pcm_table_index(self.spec_codec());
        assert(table@[k].id == self.params.codec);
        find_codec_info(&table, self.params.codec).unwrap()
    }

    /// Finalizes the decoder. The decoder does not verify the decoded audio.
    pub fn finalize(&mut self) -> (r: FinalizeResult)
        ensures
            *final(self) == *old(self),
            r.verify_ok is None,
    {
        FinalizeResult { verify_ok: None }
    }

    /// Gets the codec parameters the decoder was created with.
    pub fn codec_params(&self) -> (r: &AudioCodecParameters)
        ensures
            *r == self.spec_params(),
    {
        &self.params
    }

    /// Gets the buffer of the last decoded packet.
    pub fn last_decoded(&self) -> (r: &GenericAudioBuffer)
        ensures
            *r == self.spec_buf(),
    {
        &self.buf
    }

    /// Resets the decoder. No state is kept between packets, so nothing changes.
    pub fn reset(&mut self)
        requires
            old(self).wf(),
        ensures
            final(self).wf(),
            final(self).spec_params() == old(self).spec_params(),
            final(self).spec_coded_width() == old(self).spec_coded_width(),
            final(self).spec_buf() == old(self).spec_buf(),
    {
    }
}

} // verus!
