//! Sample-format conversions, framing and tone-phase bookkeeping for a
//! software-defined-radio sample pipeline.

use vstd::prelude::*;

pub mod bss;
pub mod buffer;
pub mod gen;
pub mod sample;
pub mod sampletypes;

verus! {

/// The bit depth of a sample buffer: unsigned 8-bit, signed 16-bit or 32-bit
/// float samples.
#[derive(Copy, Clone)]
pub enum BitDepth {
    Char,
    S16,
    Float,
}

/// The value that a `u8` (unsigned 8-bit) sample takes as a signed 16-bit
/// sample: the byte range `0..=255` is stretched over the whole `i16` range.
pub open spec fn char_to_s16_spec(v: u8) -> int {
    v as int * 65535 / 255 - 32768
}

/// The value that a signed 16-bit sample takes as an unsigned 8-bit sample.
pub open spec fn s16_to_char_spec(v: i16) -> int {
    (v as int + 32768) * 255 / 65535
}

/// Converts an unsigned 8-bit sample to a signed 16-bit sample.
pub fn char_to_s16(v: u8) -> (r: i16)
    ensures
        r as int == char_to_s16_spec(v),
{
    ((v as i32 * 65535i32 / 255i32) + (-32768i32)) as i16
}

/// Converts a signed 16-bit sample to an unsigned 8-bit sample.
pub fn s16_to_char(v: i16) -> (r: u8)
    ensures
        r as int == s16_to_char_spec(v),
{
    ((v as i32 + 32768i32) * 255i32 / 65535i32) as u8
}

/// Widening an 8-bit sample to 16 bits and narrowing it back gives the sample
/// that was widened; the widened value always fits an `i16`.
pub proof fn lemma_char_s16_roundtrip(v: u8)
    ensures
        i16::MIN <= char_to_s16_spec(v) <= i16::MAX,
        char_to_s16_spec(v) == 257 * v - 32768,
        s16_to_char_spec(char_to_s16_spec(v) as i16) == v,
{
    assert(v as int * 65535 == (257 * v) * 255);
    assert((257 * v) * 255 / 255 == 257 * v);
    assert((257 * v as int) * 255 / 65535 == v) by (nonlinear_arith)
        requires
            0 <= v <= 255,
    ;
}

/// Widening preserves the order of samples.
pub proof fn lemma_char_to_s16_monotonic(a: u8, b: u8)
    requires
        a <= b,
    ensures
        char_to_s16_spec(a) <= char_to_s16_spec(b),
{
    lemma_char_s16_roundtrip(a);
    lemma_char_s16_roundtrip(b);
}

/// Narrowing preserves the order of samples, and always gives a byte.
pub proof fn lemma_s16_to_char_monotonic(a: i16, b: i16)
    requires
        a <= b,
    ensures
        0 <= s16_to_char_spec(a) <= s16_to_char_spec(b) <= u8::MAX,
{
    assert(0 <= (a as int + 32768) * 255 / 65535 <= (b as int + 32768) * 255 / 65535 <= 255)
        by (nonlinear_arith)
        requires
            -32768 <= a <= b <= 32767,
    ;
}

} // verus!
