//! Complex samples and the conversion of samples between bit depths.

use vstd::prelude::*;
use vstd::arithmetic::div_mod::{
    lemma_fundamental_div_mod, lemma_fundamental_div_mod_converse, lemma_mod_bound,
};

use crate::{char_to_s16, char_to_s16_spec, lemma_char_s16_roundtrip, s16_to_char, s16_to_char_spec};

verus! {

/// A complex sample: its real part `re` and its imaginary part `im`.
#[derive(Clone, Copy, Debug, PartialEq, Eq)]
pub struct Complex<T> {
    pub re: T,
    pub im: T,
}

impl<T> Complex<T> {
    /// Builds the complex sample `re + i·im`.
    pub fn new(re: T, im: T) -> (r: Self)
        ensures
            r.re == re,
            r.im == im,
    {
        Complex { re, im }
    }
}

/// Conversion of a sample of type `T` into a sample of type `Self`.
pub trait ConvertSampleFrom<T>: Sized {
    /// The sample that `value` becomes.
    spec fn converted_from(value: T) -> Self;

    fn convert_sample_from(value: T) -> (r: Self)
        ensures
            r == Self::converted_from(value),
    ;
}

/// Conversion of a sample of type `Self` into a sample of type `T`.
pub trait ConvertSampleInto<T>: Sized {
    /// The sample that `self` becomes.
    spec fn converted_into(self) -> T;

    fn convert_sample_into(self) -> (r: T)
        ensures
            r == self.converted_into(),
    ;
}

impl<T, U: ConvertSampleFrom<T>> ConvertSampleInto<U> for T {
    open spec fn converted_into(self) -> U {
        U::converted_from(self)
    }

    fn convert_sample_into(self) -> (r: U) {
        U::convert_sample_from(self)
    }
}

impl<T, U: ConvertSampleFrom<T>> ConvertSampleFrom<Complex<T>> for Complex<U> {
    /// Both parts are converted on their own.
    open spec fn converted_from(value: Complex<T>) -> Complex<U> {
        Complex { re: U::converted_from(value.re), im: U::converted_from(value.im) }
    }

    fn convert_sample_from(value: Complex<T>) -> (r: Complex<U>) {
        Complex::new(U::convert_sample_from(value.re), U::convert_sample_from(value.im))
    }
}

impl ConvertSampleFrom<i16> for u8 {
    open spec fn converted_from(value: i16) -> u8 {
        s16_to_char_spec(value) as u8
    }

    fn convert_sample_from(value: i16) -> (r: u8) {
        s16_to_char(value)
    }
}

impl ConvertSampleFrom<u8> for i16 {
    open spec fn converted_from(value: u8) -> i16 {
        char_to_s16_spec(value) as i16
    }

    fn convert_sample_from(value: u8) -> (r: i16) {
        char_to_s16(value)
    }
}

/// Converts every sample of `a`, in order.
pub fn convert_sample_buf<T, U>(a: &[T]) -> (r: Vec<U>) where T: ConvertSampleInto<U> + Copy
    ensures
        r@ == a@.map_values(|v: T| v.converted_into()),
{
    let mut out: Vec<U> = Vec::new();
    let mut i: usize = 0;
    while i < a.len()
        invariant
            i <= a@.len(),
            out@ == a@.take(i as int).map_values(|v: T| v.converted_into()),
        decreases a@.len() - i,
    {
        let v: T = a[i];
        out.push(v.convert_sample_into());
        assert(a@.take(i + 1) == a@.take(i as int).push(a@[i as int]));
        i = i + 1;
    }
    assert(a@.take(a@.len() as int) == a@);
    out
}

/// Converting 8-bit samples to 16 bits and back gives the samples that were
/// converted, element by element and in order.
pub proof fn lemma_convert_char_s16_roundtrip(a: Seq<u8>)
    ensures
        a.map_values(|v: u8| v.converted_into()).map_values(
            |w: i16| ConvertSampleInto::<u8>::converted_into(w),
        ) == a,
{
    let b: Seq<i16> = a.map_values(|v: u8| v.converted_into());
    let c: Seq<u8> = b.map_values(|w: i16| ConvertSampleInto::<u8>::converted_into(w));
    assert forall|i: int| 0 <= i < a.len() implies #[trigger] c[i] == a[i] by {
        lemma_char_s16_roundtrip(a[i]);
    }
    assert(c =~= a);
}

/// Converting complex samples converts each part on its own: the parts of the
/// converted samples are the converted parts.
pub proof fn lemma_convert_complex_parts<T, U: ConvertSampleFrom<T>>(s: Seq<Complex<T>>)
    ensures
        s.map_values(|c: Complex<T>| Complex::<U>::converted_from(c)).map_values(
            |c: Complex<U>| c.re,
        ) == s.map_values(|c: Complex<T>| c.re).map_values(|v: T| U::converted_from(v)),
        s.map_values(|c: Complex<T>| Complex::<U>::converted_from(c)).map_values(
            |c: Complex<U>| c.im,
        ) == s.map_values(|c: Complex<T>| c.im).map_values(|v: T| U::converted_from(v)),
{
    assert(s.map_values(|c: Complex<T>| Complex::<U>::converted_from(c)).map_values(
        |c: Complex<U>| c.re,
    ) =~= s.map_values(|c: Complex<T>| c.re).map_values(|v: T| U::converted_from(v)));
    assert(s.map_values(|c: Complex<T>| Complex::<U>::converted_from(c)).map_values(
        |c: Complex<U>| c.im,
    ) =~= s.map_values(|c: Complex<T>| c.im).map_values(|v: T| U::converted_from(v)));
}

/// Converting a 16-bit sample to 8 bits picks the byte whose own 16-bit value
/// is the nearest at or below the sample: with `c` the byte, the sample lies in
/// `257 * c - 32768 .. 257 * (c + 1) - 32768`.
pub proof fn lemma_s16_to_char_conversion(w: i16)
    ensures
        257 * (<u8 as ConvertSampleFrom<i16>>::converted_from(w) as int) - 32768 <= w,
        w < 257 * (<u8 as ConvertSampleFrom<i16>>::converted_from(w) as int + 1) - 32768,
        <u8 as ConvertSampleFrom<i16>>::converted_from(w) as int == (w as int + 32768) * 255
            / 65535,
{
    let x: int = w as int + 32768;
    let q: int = x / 257;
    let r: int = x % 257;
    lemma_fundamental_div_mod(x, 257);
    lemma_mod_bound(x, 257);
    assert(x * 255 == 65535 * q + 255 * r) by (nonlinear_arith)
        requires
            x == 257 * q + r,
    ;
    lemma_fundamental_div_mod_converse(x * 255, 65535, q, 255 * r);
    assert(0 <= q <= 255);
}

/// Converting an 8-bit sample to 16 bits spreads the bytes evenly over the
/// whole 16-bit range: byte `v` becomes `257 * v - 32768`.
pub proof fn lemma_char_to_s16_conversion(v: u8)
    ensures
        <i16 as ConvertSampleFrom<u8>>::converted_from(v) as int == 257 * v - 32768,
{
    lemma_char_s16_roundtrip(v);
}

/// Converting 16-bit samples to 8 bits preserves their order.
pub proof fn lemma_s16_to_char_conversion_monotonic(a: i16, b: i16)
    requires
        a <= b,
    ensures
        <u8 as ConvertSampleFrom<i16>>::converted_from(a) <= <u8 as ConvertSampleFrom<
            i16,
        >>::converted_from(b),
{
    lemma_s16_to_char_conversion(a);
    lemma_s16_to_char_conversion(b);
}

/// Converting a buffer of 16-bit samples to 8 bits converts each sample by
/// `(w + 32768) * 255 / 65535`, in order.
pub proof fn lemma_convert_buf_s16_to_char(a: Seq<i16>, i: int)
    requires
        0 <= i < a.len(),
    ensures
        a.map_values(|w: i16| ConvertSampleInto::<u8>::converted_into(w)).len() == a.len(),
        a.map_values(|w: i16| ConvertSampleInto::<u8>::converted_into(w))[i] as int == (a[i]
            as int + 32768) * 255 / 65535,
{
    lemma_s16_to_char_conversion(a[i]);
}

} // verus!
