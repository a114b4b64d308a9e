//! Buffered sample streams, chunk by chunk: the per-chunk work behind turning
//! raw input bytes into samples, samples into bytes, and complex samples into
//! their parts.

use vstd::prelude::*;
use vstd::arithmetic::div_mod::{lemma_fundamental_div_mod, lemma_mod_bound};
use vstd::arithmetic::mul::lemma_mul_inequality;

use core::marker::PhantomData;
use tokio_util::bytes::BytesMut;

use crate::buffer::{bytes_advance, bytes_as_slice, bytes_len, bytes_mut_contents};
use crate::sample::{
    lemma_i16_layout, lemma_i16_read, lemma_sample_zeros, lemma_u32_read, Sample,
};
use crate::sampletypes::Complex;

verus! {

/// The bit depth of a sample stream.
#[derive(Clone, Copy, Debug, PartialEq, Eq, Structural)]
pub enum BitDepth {
    Char,
    S16,
    Float,
}

/// Whether a sample stream carries real or complex samples.
#[derive(Clone, Copy, Debug, PartialEq, Eq, Structural)]
pub enum NumType {
    Real,
    Complex,
}

/// The little-endian bytes of all samples of `s`, one sample after another.
pub open spec fn real_le_bytes<T: Sample>(s: Seq<T>) -> Seq<u8>
    decreases s.len(),
{
    if s.len() == 0 {
        Seq::empty()
    } else {
        real_le_bytes(s.drop_last()) + s.last().le_bytes()
    }
}

/// The little-endian bytes of all complex samples of `s`: for each sample its
/// real part, then its imaginary part.
pub open spec fn complex_le_bytes<T: Sample>(s: Seq<Complex<T>>) -> Seq<u8>
    decreases s.len(),
{
    if s.len() == 0 {
        Seq::empty()
    } else {
        complex_le_bytes(s.drop_last()) + s.last().re.le_bytes() + s.last().im.le_bytes()
    }
}

/// The samples that the bytes `b` hold: as many whole samples as fit, each read
/// from its little-endian bytes; bytes after the last whole sample are not read.
pub open spec fn le_samples<T: Sample>(b: Seq<u8>) -> Seq<T> {
    Seq::new(
        b.len() / T::width(),
        |i: int| T::from_le_seq(b.subrange(i * T::width(), i * T::width() + T::width())),
    )
}

/// The number of bytes that `le_samples(b)` reads: whole samples only.
pub open spec fn whole_sample_bytes<T: Sample>(b: Seq<u8>) -> int {
    ((b.len() / T::width()) * T::width()) as int
}

/// Lays out a chunk of real samples as little-endian bytes.
pub fn serialize_real<T: Sample>(chunk: &[T]) -> (r: Vec<u8>)
    ensures
        r@ == real_le_bytes(chunk@),
{
    let mut out: Vec<u8> = Vec::new();
    let mut i: usize = 0;
    while i < chunk.len()
        invariant
            i <= chunk@.len(),
            out@ == real_le_bytes(chunk@.take(i as int)),
        decreases chunk@.len() - i,
    {
        let v: T = chunk[i];
        v.push_le_bytes(&mut out);
        assert(chunk@.take(i + 1).drop_last() == chunk@.take(i as int));
        i = i + 1;
    }
    assert(chunk@.take(chunk@.len() as int) == chunk@);
    out
}

/// Lays out a chunk of complex samples as little-endian bytes, the real part of
/// each sample before its imaginary part.
pub fn serialize_complex<T: Sample>(chunk: &[Complex<T>]) -> (r: Vec<u8>)
    ensures
        r@ == complex_le_bytes(chunk@),
{
    let mut out: Vec<u8> = Vec::new();
    let mut i: usize = 0;
    while i < chunk.len()
        invariant
            i <= chunk@.len(),
            out@ == complex_le_bytes(chunk@.take(i as int)),
        decreases chunk@.len() - i,
    {
        let v: Complex<T> = chunk[i];
        v.re.push_le_bytes(&mut out);
        v.im.push_le_bytes(&mut out);
        assert(chunk@.take(i + 1).drop_last() == chunk@.take(i as int));
        i = i + 1;
    }
    assert(chunk@.take(chunk@.len() as int) == chunk@);
    out
}

/// The real parts of a chunk of complex samples.
pub fn realpart<T: Copy>(chunk: &[Complex<T>]) -> (r: Vec<T>)
    ensures
        r@ == chunk@.map_values(|c: Complex<T>| c.re),
{
    let mut out: Vec<T> = Vec::new();
    let mut i: usize = 0;
    while i < chunk.len()
        invariant
            i <= chunk@.len(),
            out@ == chunk@.take(i as int).map_values(|c: Complex<T>| c.re),
        decreases chunk@.len() - i,
    {
        out.push(chunk[i].re);
        assert(chunk@.take(i + 1) == chunk@.take(i as int).push(chunk@[i as int]));
        i = i + 1;
    }
    assert(chunk@.take(chunk@.len() as int) == chunk@);
    out
}

/// The imaginary parts of a chunk of complex samples.
pub fn impart<T: Copy>(chunk: &[Complex<T>]) -> (r: Vec<T>)
    ensures
        r@ == chunk@.map_values(|c: Complex<T>| c.im),
{
    let mut out: Vec<T> = Vec::new();
    let mut i: usize = 0;
    while i < chunk.len()
        invariant
            i <= chunk@.len(),
            out@ == chunk@.take(i as int).map_values(|c: Complex<T>| c.im),
        decreases chunk@.len() - i,
    {
        out.push(chunk[i].im);
        assert(chunk@.take(i + 1) == chunk@.take(i as int).push(chunk@[i as int]));
        i = i + 1;
    }
    assert(chunk@.take(chunk@.len() as int) == chunk@);
    out
}

/// Each real sample of a chunk as a complex sample with a zero imaginary part.
pub fn as_complex<T: Sample>(chunk: &[T]) -> (r: Vec<Complex<T>>)
    ensures
        r@ == chunk@.map_values(|v: T| Complex { re: v, im: T::zero_spec() }),
{
    let mut out: Vec<Complex<T>> = Vec::new();
    let mut i: usize = 0;
    while i < chunk.len()
        invariant
            i <= chunk@.len(),
            out@ == chunk@.take(i as int).map_values(|v: T| Complex { re: v, im: T::zero_spec() }),
        decreases chunk@.len() - i,
    {
        out.push(Complex::new(chunk[i], T::zero()));
        assert(chunk@.take(i + 1) == chunk@.take(i as int).push(chunk@[i as int]));
        i = i + 1;
    }
    assert(chunk@.take(chunk@.len() as int) == chunk@);
    out
}

/// Taking the real parts of samples made complex gives back the real samples;
/// their imaginary parts are all zero.
pub proof fn lemma_parts_of_as_complex<T: Sample>(s: Seq<T>)
    ensures
        s.map_values(|v: T| Complex { re: v, im: T::zero_spec() }).map_values(
            |c: Complex<T>| c.re,
        ) == s,
        s.map_values(|v: T| Complex { re: v, im: T::zero_spec() }).map_values(
            |c: Complex<T>| c.im,
        ) == Seq::new(s.len(), |i: int| T::zero_spec()),
{
    assert(s.map_values(|v: T| Complex { re: v, im: T::zero_spec() }).map_values(
        |c: Complex<T>| c.re,
    ) =~= s);
    assert(s.map_values(|v: T| Complex { re: v, im: T::zero_spec() }).map_values(
        |c: Complex<T>| c.im,
    ) =~= Seq::new(s.len(), |i: int| T::zero_spec()));
}

/// The parts of complex samples in the order they are sent: the real part of
/// each sample, then its imaginary part.
pub open spec fn interleaved_parts<T>(s: Seq<Complex<T>>) -> Seq<T> {
    Seq::new(2 * s.len(), |i: int| if i % 2 == 0 { s[i / 2].re } else { s[i / 2].im })
}

/// Complex samples are laid out as their parts, interleaved real part first,
/// each part laid out as a real sample would be.
pub proof fn lemma_complex_bytes_interleaved<T: Sample>(s: Seq<Complex<T>>)
    ensures
        complex_le_bytes(s) == real_le_bytes(interleaved_parts(s)),
    decreases s.len(),
{
    if s.len() > 0 {
        let p = s.drop_last();
        lemma_complex_bytes_interleaved(p);
        let x = interleaved_parts(p);
        let y = x.push(s.last().re);
        let z = y.push(s.last().im);
        assert(interleaved_parts(s) =~= z);
        assert(z.drop_last() =~= y);
        assert(y.drop_last() =~= x);
        assert(real_le_bytes(z) == real_le_bytes(y) + s.last().im.le_bytes());
        assert(real_le_bytes(y) == real_le_bytes(x) + s.last().re.le_bytes());
        assert(complex_le_bytes(s) == complex_le_bytes(p) + s.last().re.le_bytes()
            + s.last().im.le_bytes());
        assert(complex_le_bytes(s) =~= real_le_bytes(z));
    } else {
        assert(interleaved_parts(s) =~= Seq::<T>::empty());
    }
}

/// In the bytes of a chunk of complex samples, sample `i` takes the `i`-th run
/// of `2 * width` bytes: the bytes of its real part, then those of its
/// imaginary part.
pub proof fn lemma_complex_bytes_at<T: Sample>(s: Seq<Complex<T>>, i: int)
    requires
        0 <= i < s.len(),
    ensures
        complex_le_bytes(s).len() == 2 * s.len() * T::width(),
        complex_le_bytes(s).subrange(2 * i * T::width(), 2 * i * T::width() + T::width())
            == s[i].re.le_bytes(),
        complex_le_bytes(s).subrange(
            (2 * i + 1) * T::width(),
            (2 * i + 1) * T::width() + T::width(),
        ) == s[i].im.le_bytes(),
{
    let q = interleaved_parts(s);
    lemma_complex_bytes_interleaved(s);
    lemma_real_le_bytes_len(q);
    lemma_real_le_bytes_at(q, 2 * i);
    lemma_real_le_bytes_at(q, 2 * i + 1);
    assert((2 * i) % 2 == 0 && (2 * i) / 2 == i);
    assert((2 * i + 1) % 2 == 1 && (2 * i + 1) / 2 == i);
    let w = T::width() as int;
    let n = s.len() as int;
    assert((2 * n) * w == 2 * n * w) by (nonlinear_arith);
    assert((2 * i) * w == 2 * i * w) by (nonlinear_arith);
}

/// In the bytes of a chunk of signed 16-bit samples, sample `i` takes bytes
/// `2 * i` and `2 * i + 1`, whose base-256 value, least significant first, is
/// the sample modulo 65536.
pub proof fn lemma_serialized_s16_values(s: Seq<i16>, i: int)
    requires
        0 <= i < s.len(),
    ensures
        real_le_bytes(s).len() == 2 * s.len(),
        (real_le_bytes(s)[2 * i] + 256 * real_le_bytes(s)[2 * i + 1]) % 65536 == (s[i] as int)
            % 65536,
{
    lemma_real_le_bytes_len(s);
    lemma_real_le_bytes_at(s, i);
    lemma_i16_layout(s[i]);
    let b = real_le_bytes(s);
    assert(b.subrange(i * 2, i * 2 + 2)[0] == b[2 * i]);
    assert(b.subrange(i * 2, i * 2 + 2)[1] == b[2 * i + 1]);
}

/// Decoded signed 16-bit sample `i` is the base-256 value of input bytes
/// `2 * i` and `2 * i + 1`, least significant first, modulo 65536.
pub proof fn lemma_decoded_s16_values(b: Seq<u8>, i: int)
    requires
        0 <= i < b.len() / 2,
    ensures
        (le_samples::<i16>(b)[i] as int) % 65536 == (b[2 * i] + 256 * b[2 * i + 1]) % 65536,
{
    let c = b.subrange(i * 2, i * 2 + 2);
    lemma_i16_read(c);
}

/// Decoded 32-bit word `i` is the base-256 value of input bytes `4 * i` to
/// `4 * i + 3`, least significant first.
pub proof fn lemma_decoded_u32_values(b: Seq<u8>, i: int)
    requires
        0 <= i < b.len() / 4,
    ensures
        le_samples::<u32>(b)[i] == b[4 * i] + 256 * b[4 * i + 1] + 65536 * b[4 * i + 2]
            + 16777216 * b[4 * i + 3],
{
    let c = b.subrange(i * 4, i * 4 + 4);
    lemma_u32_read(c);
}

/// Making signed 16-bit samples complex keeps each sample as the real part
/// and adds an imaginary part of zero.
pub proof fn lemma_as_complex_s16(s: Seq<i16>, i: int)
    requires
        0 <= i < s.len(),
    ensures
        s.map_values(|v: i16| Complex { re: v, im: <i16 as Sample>::zero_spec() })[i].re == s[i],
        s.map_values(|v: i16| Complex { re: v, im: <i16 as Sample>::zero_spec() })[i].im == 0,
{
    lemma_sample_zeros();
}

/// Cuts the bytes of a raw input into samples of type `T`.
pub struct SampleDecoder<T> {
    _phantom: PhantomData<T>,
}

proof fn lemma_whole_samples_fit(len: int, w: int)
    requires
        len >= 0,
        w >= 1,
    ensures
        0 <= (len / w) * w <= len,
        len - (len / w) * w < w,
{
    lemma_fundamental_div_mod(len, w);
    lemma_mod_bound(len, w);
    assert(0 <= (len / w) * w <= len && len - (len / w) * w < w) by (nonlinear_arith)
        requires
            len >= 0,
            w >= 1,
            len == w * (len / w) + len % w,
            0 <= len % w < w,
    ;
}

proof fn lemma_next_sample_fits(i: int, count: int, w: int)
    requires
        0 <= i < count,
        w >= 1,
    ensures
        i * w + w <= count * w,
        (i + 1) * w == i * w + w,
{
    lemma_mul_inequality(i + 1, count, w);
    assert((i + 1) * w == i * w + w) by (nonlinear_arith);
}

proof fn lemma_real_le_bytes_len<T: Sample>(s: Seq<T>)
    ensures
        real_le_bytes(s).len() == s.len() * T::width(),
    decreases s.len(),
{
    if s.len() > 0 {
        let p = s.drop_last();
        lemma_real_le_bytes_len(p);
        s.last().lemma_le_bytes();
        let k = p.len() as int;
        let w = T::width() as int;
        assert((k + 1) * w == k * w + w) by (nonlinear_arith);
    }
}

proof fn lemma_real_le_bytes_at<T: Sample>(s: Seq<T>, i: int)
    requires
        0 <= i < s.len(),
    ensures
        real_le_bytes(s).subrange(i * T::width(), i * T::width() + T::width())
            == s[i].le_bytes(),
    decreases s.len(),
{
    let p = s.drop_last();
    let w = T::width() as int;
    T::lemma_width();
    lemma_real_le_bytes_len(p);
    s.last().lemma_le_bytes();
    if i < s.len() - 1 {
        lemma_real_le_bytes_at(p, i);
        lemma_next_sample_fits(i, p.len() as int, w);
        assert(real_le_bytes(s).subrange(i * w, i * w + w) =~= real_le_bytes(p).subrange(
            i * w,
            i * w + w,
        ));
    } else {
        assert(real_le_bytes(s).subrange(i * w, i * w + w) =~= s.last().le_bytes());
    }
}

/// Reading back what `serialize_real` writes gives the samples that were
/// written, and every byte written is read: no partial sample is left over.
pub proof fn lemma_decode_serialized<T: Sample>(s: Seq<T>)
    ensures
        le_samples::<T>(real_le_bytes(s)) == s,
        whole_sample_bytes::<T>(real_le_bytes(s)) == real_le_bytes(s).len(),
{
    let w = T::width() as int;
    let k = s.len() as int;
    T::lemma_width();
    lemma_real_le_bytes_len(s);
    assert((k * w) / w == k) by (nonlinear_arith)
        requires
            w >= 1,
    ;
    let b = real_le_bytes(s);
    assert forall|i: int| 0 <= i < k implies #[trigger] le_samples::<T>(b)[i] == s[i] by {
        lemma_real_le_bytes_at(s, i);
        s[i].lemma_le_bytes();
    }
    assert(le_samples::<T>(b) =~= s);
}

proof fn lemma_serialize_decoded_prefix<T: Sample>(b: Seq<u8>, n: int)
    requires
        0 <= n <= b.len() / T::width(),
    ensures
        real_le_bytes(le_samples::<T>(b).take(n)) == b.take(n * T::width()),
    decreases n,
{
    let w = T::width() as int;
    let d = le_samples::<T>(b);
    T::lemma_width();
    if n == 0 {
        assert(b.take(0) =~= Seq::<u8>::empty());
    } else {
        lemma_serialize_decoded_prefix::<T>(b, n - 1);
        lemma_whole_samples_fit(b.len() as int, w);
        lemma_next_sample_fits(n - 1, (b.len() / T::width()) as int, w);
        assert(d.take(n).drop_last() =~= d.take(n - 1));
        let chunk = b.subrange((n - 1) * w, (n - 1) * w + w);
        T::lemma_from_le(chunk);
        assert(d[n - 1] == T::from_le_seq(chunk));
        assert(d.take(n).last() == d[n - 1]);
        assert(real_le_bytes(d.take(n)) == real_le_bytes(d.take(n - 1)) + d[n - 1].le_bytes());
        assert(b.take(n * w) =~= b.take((n - 1) * w) + chunk);
    }
}

/// Writing out what `decode` reads gives back exactly the bytes it consumed:
/// the whole samples at the front of the input.
pub proof fn lemma_serialize_decoded<T: Sample>(b: Seq<u8>)
    ensures
        real_le_bytes(le_samples::<T>(b)) == b.take(whole_sample_bytes::<T>(b)),
{
    T::lemma_width();
    let k = b.len() / T::width();
    lemma_serialize_decoded_prefix::<T>(b, k as int);
    assert(le_samples::<T>(b).take(k as int) =~= le_samples::<T>(b));
}

impl<T: Sample> SampleDecoder<T> {
    pub fn new() -> (r: Self) {
        SampleDecoder { _phantom: PhantomData }
    }

    /// Takes every whole sample from the front of `src`, in order. Returns
    /// `None`, and leaves `src` as it was, while `src` holds less than one
    /// sample; bytes of an incomplete last sample stay in `src`.
    pub fn decode(&mut self, src: &mut BytesMut) -> (r: Option<Vec<T>>)
        ensures
            bytes_mut_contents(*old(src)).len() < T::width() ==> {
                &&& r is None
                &&& bytes_mut_contents(*final(src)) == bytes_mut_contents(*old(src))
            },
            bytes_mut_contents(*old(src)).len() >= T::width() ==> {
                &&& r matches Some(v)
                &&& v@ == le_samples::<T>(bytes_mut_contents(*old(src)))
                &&& bytes_mut_contents(*final(src)) == bytes_mut_contents(*old(src)).skip(
                    whole_sample_bytes::<T>(bytes_mut_contents(*old(src))),
                )
            },
    {
        let n: usize = T::byte_width();
        let len: usize = bytes_len(src);
        if len < n {
            return None;
        }
        let count: usize = len / n;
        proof {
            lemma_whole_samples_fit(len as int, n as int);
        }
        let length: usize = count * n;
        let ghost before = bytes_mut_contents(*src);
        let data: &[u8] = bytes_as_slice(src);
        let mut out: Vec<T> = Vec::new();
        let mut i: usize = 0;
        let mut pos: usize = 0;
        while i < count
            invariant
                data@ == before,
                before.len() == len,
                n == T::width(),
                n >= 1,
                count == len / n,
                count * n <= len,
                i <= count,
                pos == i * n,
                out@ == le_samples::<T>(before).take(i as int),
            decreases count - i,
        {
            proof {
                lemma_next_sample_fits(i as int, count as int, n as int);
            }
            let v: T = T::read_le_bytes(data, pos);
            out.push(v);
            assert(out@ =~= le_samples::<T>(before).take(i + 1));
            pos = pos + n;
            i = i + 1;
        }
        assert(le_samples::<T>(before).take(count as int) =~= le_samples::<T>(before));
        bytes_advance(src, length);
        Some(out)
    }
}

} // verus!
