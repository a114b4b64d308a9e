//! What a sample type offers the pipeline: its zero, its width in bytes and its
//! little-endian encoding. Implemented for 8-bit (`u8`) samples, signed 16-bit
//! (`i16`) samples, and for the IEEE-754 bit pattern (`u32`) of 32-bit float
//! samples.

use vstd::prelude::*;
use vstd::arithmetic::div_mod::lemma_fundamental_div_mod_converse;

verus! {

/// A sample type that can be laid out as little-endian bytes.
pub trait Sample: Sized + Copy {
    /// The number of bytes of one sample.
    spec fn width() -> nat;

    /// The zero sample.
    spec fn zero_spec() -> Self;

    /// The little-endian bytes of `self`.
    spec fn le_bytes(self) -> Seq<u8>;

    /// The sample whose little-endian bytes are `b` (`b` holds `width()` bytes).
    spec fn from_le_seq(b: Seq<u8>) -> Self;

    fn byte_width() -> (r: usize)
        ensures
            r == Self::width(),
            1 <= r <= 8,
    ;

    fn zero() -> (r: Self)
        ensures
            r == Self::zero_spec(),
    ;

    /// Appends the little-endian bytes of `self` to `out`.
    fn push_le_bytes(self, out: &mut Vec<u8>)
        ensures
            final(out)@ == old(out)@ + self.le_bytes(),
    ;

    /// Reads the sample whose little-endian bytes start at `buf[at]`.
    fn read_le_bytes(buf: &[u8], at: usize) -> (r: Self)
        requires
            at + Self::width() <= buf@.len(),
        ensures
            r == Self::from_le_seq(buf@.subrange(at as int, at + Self::width())),
    ;

    proof fn lemma_width()
        ensures
            1 <= Self::width() <= 8,
    ;

    /// Reading back the bytes of a sample gives the sample.
    proof fn lemma_le_bytes(self)
        ensures
            self.le_bytes().len() == Self::width(),
            Self::from_le_seq(self.le_bytes()) == self,
    ;

    /// Every run of `width()` bytes is the encoding of the sample it reads as.
    proof fn lemma_from_le(b: Seq<u8>)
        requires
            b.len() == Self::width(),
        ensures
            Self::from_le_seq(b).le_bytes() == b,
    ;

    /// The zero sample is laid out as `width()` zero bytes.
    proof fn lemma_zero_bytes()
        ensures
            Self::zero_spec().le_bytes() == Seq::new(Self::width(), |i: int| 0u8),
    ;
}

/// The little-endian bytes of a signed 16-bit sample (two's complement).
pub open spec fn i16_le(v: i16) -> Seq<u8> {
    let u: int = if v < 0 { v + 65536 } else { v as int };
    seq![(u % 256) as u8, (u / 256) as u8]
}

/// The signed 16-bit sample whose little-endian bytes are `b`.
pub open spec fn i16_from_le_seq(b: Seq<u8>) -> i16 {
    let u: int = b[0] + 256 * b[1];
    (if u >= 32768 { u - 65536 } else { u }) as i16
}

/// The little-endian bytes of a 32-bit word.
pub open spec fn u32_le(v: u32) -> Seq<u8> {
    seq![
        (v % 256) as u8,
        (v / 256 % 256) as u8,
        (v / 65536 % 256) as u8,
        (v / 16777216) as u8,
    ]
}

/// The 32-bit word whose little-endian bytes are `b`.
pub open spec fn u32_from_le_seq(b: Seq<u8>) -> u32 {
    (b[0] + 256 * b[1] + 65536 * b[2] + 16777216 * b[3]) as u32
}

/// `num_traits::ToBytes::to_le_bytes` on a `u8`: the byte itself.
#[verifier::external_body]
fn u8_to_le_bytes(v: u8) -> (r: [u8; 1])
    ensures
        r@ == seq![v],
{
    num_traits::ToBytes::to_le_bytes(&v)
}

/// `num_traits::FromBytes::from_le_bytes` on one byte: the byte itself.
#[verifier::external_body]
fn u8_from_le_bytes(b: [u8; 1]) -> (r: u8)
    ensures
        r == b@[0],
{
    num_traits::FromBytes::from_le_bytes(&b)
}

/// `num_traits::ToBytes::to_le_bytes` on an `i16`: its two's-complement bytes,
/// least significant first.
#[verifier::external_body]
fn i16_to_le_bytes(v: i16) -> (r: [u8; 2])
    ensures
        r@ == i16_le(v),
{
    num_traits::ToBytes::to_le_bytes(&v)
}

/// `num_traits::FromBytes::from_le_bytes` on two bytes read as an `i16`,
/// least significant first.
#[verifier::external_body]
fn i16_from_le_bytes(b: [u8; 2]) -> (r: i16)
    ensures
        r == i16_from_le_seq(b@),
{
    num_traits::FromBytes::from_le_bytes(&b)
}

/// `num_traits::ToBytes::to_le_bytes` on a `u32`: its four bytes, least
/// significant first.
#[verifier::external_body]
fn u32_to_le_bytes(v: u32) -> (r: [u8; 4])
    ensures
        r@ == u32_le(v),
{
    num_traits::ToBytes::to_le_bytes(&v)
}

/// `num_traits::FromBytes::from_le_bytes` on four bytes read as a `u32`,
/// least significant first.
#[verifier::external_body]
fn u32_from_le_bytes(b: [u8; 4]) -> (r: u32)
    ensures
        r == u32_from_le_seq(b@),
{
    num_traits::FromBytes::from_le_bytes(&b)
}

impl Sample for u8 {
    open spec fn width() -> nat {
        1
    }

    open spec fn zero_spec() -> u8 {
        0
    }

    open spec fn le_bytes(self) -> Seq<u8> {
        seq![self]
    }

    open spec fn from_le_seq(b: Seq<u8>) -> u8 {
        b[0]
    }

    fn byte_width() -> (r: usize) {
        1
    }

    fn zero() -> (r: u8) {
        0
    }

    fn push_le_bytes(self, out: &mut Vec<u8>) {
        let b = u8_to_le_bytes(self);
        out.push(b[0]);
        assert(final(out)@ =~= old(out)@ + self.le_bytes());
    }

    fn read_le_bytes(buf: &[u8], at: usize) -> (r: u8) {
        let b: [u8; 1] = [buf[at]];
        u8_from_le_bytes(b)
    }

    proof fn lemma_width() {
    }

    proof fn lemma_le_bytes(self) {
    }

    proof fn lemma_from_le(b: Seq<u8>) {
        assert(Self::from_le_seq(b).le_bytes() =~= b);
    }

    proof fn lemma_zero_bytes() {
        assert(Self::zero_spec().le_bytes() =~= Seq::new(Self::width(), |i: int| 0u8));
    }
}

impl Sample for i16 {
    open spec fn width() -> nat {
        2
    }

    open spec fn zero_spec() -> i16 {
        0
    }

    open spec fn le_bytes(self) -> Seq<u8> {
        i16_le(self)
    }

    open spec fn from_le_seq(b: Seq<u8>) -> i16 {
        i16_from_le_seq(b)
    }

    fn byte_width() -> (r: usize) {
        2
    }

    fn zero() -> (r: i16) {
        0
    }

    fn push_le_bytes(self, out: &mut Vec<u8>) {
        let b = i16_to_le_bytes(self);
        out.push(b[0]);
        out.push(b[1]);
        assert(final(out)@ =~= old(out)@ + self.le_bytes());
    }

    fn read_le_bytes(buf: &[u8], at: usize) -> (r: i16) {
        let b: [u8; 2] = [buf[at], buf[at + 1]];
        assert(b@ =~= buf@.subrange(at as int, at + 2));
        i16_from_le_bytes(b)
    }

    proof fn lemma_width() {
    }

    proof fn lemma_le_bytes(self) {
    }

    proof fn lemma_from_le(b: Seq<u8>) {
        assert(Self::from_le_seq(b).le_bytes() =~= b);
    }

    proof fn lemma_zero_bytes() {
        assert(Self::zero_spec().le_bytes() =~= Seq::new(Self::width(), |i: int| 0u8));
    }
}

impl Sample for u32 {
    open spec fn width() -> nat {
        4
    }

    open spec fn zero_spec() -> u32 {
        0
    }

    open spec fn le_bytes(self) -> Seq<u8> {
        u32_le(self)
    }

    open spec fn from_le_seq(b: Seq<u8>) -> u32 {
        u32_from_le_seq(b)
    }

    fn byte_width() -> (r: usize) {
        4
    }

    fn zero() -> (r: u32) {
        0
    }

    fn push_le_bytes(self, out: &mut Vec<u8>) {
        let b = u32_to_le_bytes(self);
        out.push(b[0]);
        out.push(b[1]);
        out.push(b[2]);
        out.push(b[3]);
        assert(final(out)@ =~= old(out)@ + self.le_bytes());
    }

    fn read_le_bytes(buf: &[u8], at: usize) -> (r: u32) {
        let b: [u8; 4] = [buf[at], buf[at + 1], buf[at + 2], buf[at + 3]];
        assert(b@ =~= buf@.subrange(at as int, at + 4));
        u32_from_le_bytes(b)
    }

    proof fn lemma_width() {
    }

    proof fn lemma_le_bytes(self) {
    }

    proof fn lemma_from_le(b: Seq<u8>) {
        let r2: int = b[2] + 256 * b[3];
        let r1: int = b[1] + 256 * r2;
        let v: int = b[0] + 256 * r1;
        lemma_fundamental_div_mod_converse(v, 256, r1, b[0] as int);
        lemma_fundamental_div_mod_converse(r1, 256, r2, b[1] as int);
        lemma_fundamental_div_mod_converse(r2, 256, b[3] as int, b[2] as int);
        lemma_fundamental_div_mod_converse(v, 65536, r2, b[0] + 256 * b[1]);
        lemma_fundamental_div_mod_converse(v, 16777216, b[3] as int, b[0] + 256 * b[1] + 65536 * b[2]);
        assert(v / 65536 % 256 == b[2]);
        assert(Self::from_le_seq(b).le_bytes() =~= b);
    }

    proof fn lemma_zero_bytes() {
        assert(Self::zero_spec().le_bytes() =~= Seq::new(Self::width(), |i: int| 0u8));
    }
}

/// The zero sample of each sample type is the number zero (for 32-bit words,
/// the bit pattern of the float `+0.0`).
pub proof fn lemma_sample_zeros()
    ensures
        <u8 as Sample>::zero_spec() == 0u8,
        <i16 as Sample>::zero_spec() == 0i16,
        <u32 as Sample>::zero_spec() == 0u32,
{
}

/// An 8-bit sample is laid out as the single byte it is, and one byte reads as
/// itself.
pub proof fn lemma_u8_layout(v: u8, b: Seq<u8>)
    ensures
        <u8 as Sample>::le_bytes(v).len() == 1,
        <u8 as Sample>::le_bytes(v)[0] == v,
        b.len() == 1 ==> <u8 as Sample>::from_le_seq(b) == b[0],
{
}

/// A signed 16-bit sample is laid out as two bytes, least significant first,
/// that read as a base-256 number equal to the sample modulo 65536
/// (two's complement).
pub proof fn lemma_i16_layout(v: i16)
    ensures
        <i16 as Sample>::le_bytes(v).len() == 2,
        <i16 as Sample>::le_bytes(v)[0] == (v as int) % 256,
        (<i16 as Sample>::le_bytes(v)[0] + 256 * <i16 as Sample>::le_bytes(v)[1]) % 65536 == (
        v as int) % 65536,
{
    let u: int = if v < 0 { v + 65536 } else { v as int };
    lemma_fundamental_div_mod_converse(u, 256, u / 256, u % 256);
    assert(0 <= u < 65536);
    assert(u % 256 == (v as int) % 256) by {
        if v < 0 {
            lemma_fundamental_div_mod_converse(v as int, 256, u / 256 - 256, u % 256);
        }
    }
    assert(u % 65536 == (v as int) % 65536) by {
        lemma_fundamental_div_mod_converse(u, 65536, 0, u);
        if v < 0 {
            lemma_fundamental_div_mod_converse(v as int, 65536, -1, u);
        } else {
            lemma_fundamental_div_mod_converse(v as int, 65536, 0, u);
        }
    }
}

/// Two bytes read as the signed 16-bit sample equal to their base-256 value,
/// least significant byte first, modulo 65536 (two's complement).
pub proof fn lemma_i16_read(b: Seq<u8>)
    requires
        b.len() == 2,
    ensures
        (<i16 as Sample>::from_le_seq(b) as int) % 65536 == (b[0] + 256 * b[1]) % 65536,
{
    let u: int = b[0] + 256 * b[1];
    assert(0 <= u < 65536);
    lemma_fundamental_div_mod_converse(u, 65536, 0, u);
    let x = <i16 as Sample>::from_le_seq(b) as int;
    if u >= 32768 {
        assert(x == u - 65536);
        lemma_fundamental_div_mod_converse(x, 65536, -1, u);
    } else {
        assert(x == u);
    }
}

/// A 32-bit word is laid out as four bytes, least significant first: their
/// base-256 value is the word.
pub proof fn lemma_u32_layout(v: u32)
    ensures
        <u32 as Sample>::le_bytes(v).len() == 4,
        <u32 as Sample>::le_bytes(v)[0] + 256 * <u32 as Sample>::le_bytes(v)[1] + 65536
            * <u32 as Sample>::le_bytes(v)[2] + 16777216 * <u32 as Sample>::le_bytes(v)[3] == v,
{
    let b = <u32 as Sample>::le_bytes(v);
    v.lemma_le_bytes();
    assert(<u32 as Sample>::from_le_seq(b) == v);
    assert(0 <= b[0] + 256 * b[1] + 65536 * b[2] + 16777216 * b[3] <= u32::MAX);
}

/// Four bytes read as the 32-bit word that is their base-256 value, least
/// significant byte first.
pub proof fn lemma_u32_read(b: Seq<u8>)
    requires
        b.len() == 4,
    ensures
        <u32 as Sample>::from_le_seq(b) == b[0] + 256 * b[1] + 65536 * b[2] + 16777216 * b[3],
{
    assert(0 <= b[0] + 256 * b[1] + 65536 * b[2] + 16777216 * b[3] <= u32::MAX);
}

} // verus!
