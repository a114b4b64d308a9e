use rustsdr::bss::{serialize_complex, serialize_real, SampleDecoder};
use rustsdr::sampletypes::Complex;
use tokio_util::bytes::BytesMut;

#[test]
fn serialize_s16_little_endian() {
    assert_eq!(serialize_real(&[0x1234i16, -1, i16::MIN]), vec![0x34, 0x12, 0xff, 0xff, 0x00, 0x80]);
}

#[test]
fn serialize_char_samples() {
    assert_eq!(serialize_real(&[7u8, 200u8]), vec![7, 200]);
    assert_eq!(serialize_real::<u8>(&[]), Vec::<u8>::new());
}

#[test]
fn serialize_float_bits() {
    let bits = [1.0f32.to_bits(), (-0.5f32).to_bits()];
    let bytes = serialize_real(&bits);
    let mut expected = Vec::new();
    expected.extend_from_slice(&1.0f32.to_le_bytes());
    expected.extend_from_slice(&(-0.5f32).to_le_bytes());
    assert_eq!(bytes, expected);
    assert_eq!(serialize_real(&[0x01020304u32]), vec![4, 3, 2, 1]);
}

#[test]
fn serialize_complex_real_part_first() {
    let s = vec![Complex::new(0x0102i16, 0x0304i16), Complex::new(-2, 5)];
    assert_eq!(serialize_complex(&s), vec![0x02, 0x01, 0x04, 0x03, 0xfe, 0xff, 0x05, 0x00]);
}

#[test]
fn decode_short_input_waits() {
    let mut buf = BytesMut::from(&[0x01u8][..]);
    let mut d = SampleDecoder::<i16>::new();
    assert_eq!(d.decode(&mut buf), None);
    assert_eq!(&buf[..], &[0x01]);
    let mut empty = BytesMut::new();
    let mut d8 = SampleDecoder::<u8>::new();
    assert_eq!(d8.decode(&mut empty), None);
}

#[test]
fn decode_takes_whole_samples_only() {
    let mut buf = BytesMut::from(&[0x34u8, 0x12, 0xff, 0xff, 0x07][..]);
    let mut d = SampleDecoder::<i16>::new();
    assert_eq!(d.decode(&mut buf), Some(vec![0x1234, -1]));
    assert_eq!(&buf[..], &[0x07]);
    assert_eq!(d.decode(&mut buf), None);
    assert_eq!(&buf[..], &[0x07]);
}

#[test]
fn decode_char_and_float_bits() {
    let mut buf = BytesMut::from(&[1u8, 2, 3][..]);
    assert_eq!(SampleDecoder::<u8>::new().decode(&mut buf), Some(vec![1, 2, 3]));
    assert!(buf.is_empty());
    let mut fbuf = BytesMut::from(&0.25f32.to_le_bytes()[..]);
    fbuf.extend_from_slice(&[9, 9]);
    let out = SampleDecoder::<u32>::new().decode(&mut fbuf).unwrap();
    assert_eq!(out, vec![0.25f32.to_bits()]);
    assert_eq!(&fbuf[..], &[9, 9]);
}

#[test]
fn decode_reads_back_what_serialize_wrote() {
    let samples = vec![i16::MIN, -1, 0, 1, 12345, i16::MAX];
    let mut buf = BytesMut::from(&serialize_real(&samples)[..]);
    assert_eq!(SampleDecoder::<i16>::new().decode(&mut buf), Some(samples));
    assert!(buf.is_empty());
}

#[test]
fn serialize_writes_back_what_decode_consumed() {
    let raw = [0x10u8, 0x20, 0x30, 0x40, 0x50, 0x60, 0x70, 0x80, 0x90];
    let mut buf = BytesMut::from(&raw[..]);
    let words = SampleDecoder::<u32>::new().decode(&mut buf).unwrap();
    assert_eq!(serialize_real(&words), raw[..8].to_vec());
    assert_eq!(&buf[..], &raw[8..]);
}
