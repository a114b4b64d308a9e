use rustsdr::bss::{as_complex, impart, realpart};
use rustsdr::sampletypes::{convert_sample_buf, Complex, ConvertSampleFrom, ConvertSampleInto};
use rustsdr::{char_to_s16, s16_to_char};

#[test]
fn lib_convert_char_s16() {
    assert_eq!(char_to_s16(0), i16::MIN);
    assert_eq!(char_to_s16(128), 128);
    assert_eq!(char_to_s16(255), i16::MAX);
}

#[test]
fn convert_s16_char() {
    assert_eq!(s16_to_char(i16::MIN), 0);
    assert_eq!(s16_to_char(128), 128);
    assert_eq!(s16_to_char(i16::MAX), 255);
}

#[test]
fn sampletypes_convert_char_s16() {
    let a = vec![0u8, 128u8, 255u8];
    let b = vec![i16::MIN, 128i16, i16::MAX];
    assert_eq!(a, convert_sample_buf::<i16, u8>(&b));
    assert_eq!(b, convert_sample_buf::<u8, i16>(&a));
}

#[test]
fn char_to_s16_exact_values() {
    assert_eq!(char_to_s16(1), -32511);
    assert_eq!(char_to_s16(127), -129);
    assert_eq!(char_to_s16(254), 32510);
}

#[test]
fn s16_to_char_exact_values() {
    assert_eq!(s16_to_char(0), 127);
    assert_eq!(s16_to_char(-1), 127);
    assert_eq!(s16_to_char(-32511), 1);
    assert_eq!(s16_to_char(-32512), 0);
    assert_eq!(s16_to_char(32766), 254);
}

#[test]
fn char_s16_roundtrip_every_byte() {
    for v in 0..=255u8 {
        assert_eq!(s16_to_char(char_to_s16(v)), v);
    }
}

#[test]
fn conversions_keep_order() {
    let mut prev = char_to_s16(0);
    for v in 1..=255u8 {
        let w = char_to_s16(v);
        assert!(prev < w);
        prev = w;
    }
    let mut prev = s16_to_char(i16::MIN);
    for v in (i16::MIN as i32 + 1)..=(i16::MAX as i32) {
        let c = s16_to_char(v as i16);
        assert!(prev <= c);
        prev = c;
    }
}

#[test]
fn convert_sample_traits_agree() {
    assert_eq!(<i16 as ConvertSampleFrom<u8>>::convert_sample_from(200), char_to_s16(200));
    let c: u8 = ConvertSampleInto::<u8>::convert_sample_into(-300i16);
    assert_eq!(c, s16_to_char(-300));
}

#[test]
fn convert_complex_samples_part_by_part() {
    let a = vec![Complex::new(0u8, 255u8), Complex::new(128u8, 1u8)];
    let b: Vec<Complex<i16>> = convert_sample_buf::<Complex<u8>, Complex<i16>>(&a);
    assert_eq!(b, vec![Complex::new(i16::MIN, i16::MAX), Complex::new(128, -32511)]);
    assert_eq!(realpart(&b), convert_sample_buf::<u8, i16>(&realpart(&a)));
    assert_eq!(impart(&b), convert_sample_buf::<u8, i16>(&impart(&a)));
    let back: Vec<Complex<u8>> = convert_sample_buf::<Complex<i16>, Complex<u8>>(&b);
    assert_eq!(back, a);
}

#[test]
fn convert_empty_buffer() {
    let empty: Vec<u8> = Vec::new();
    assert_eq!(convert_sample_buf::<u8, i16>(&empty), Vec::<i16>::new());
}

#[test]
fn parts_of_complex_samples() {
    let s = vec![Complex::new(1i16, -2i16), Complex::new(3, 4)];
    assert_eq!(realpart(&s), vec![1, 3]);
    assert_eq!(impart(&s), vec![-2, 4]);
    let r = vec![5u8, 6u8];
    let c = as_complex(&r);
    assert_eq!(c, vec![Complex::new(5, 0), Complex::new(6, 0)]);
    assert_eq!(realpart(&c), r);
    assert_eq!(impart(&c), vec![0, 0]);
}
