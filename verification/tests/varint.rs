//! Varint boundary behavior: minimal encodings, any-length decoding, and
//! the 2^62 bound.

use moq_transport::coding::DecodeError;
use moq_transport::varint::{VarInt, BoundsExceeded, MAX_VALUE};

fn encode(v: u64) -> Vec<u8> {
    let mut buf = Vec::new();
    VarInt(v).encode(&mut buf).unwrap();
    buf
}

fn decode(bytes: &[u8]) -> (u64, usize) {
    let buf: Vec<u8> = bytes.to_vec();
    let (v, end) = VarInt::decode(&buf, 0).unwrap();
    (v.0, end)
}

#[test]
fn one_byte_boundary() {
    assert_eq!(encode(0), vec![0x00]);
    assert_eq!(encode(63), vec![0x3f]);
    // 2^6 no longer fits in one byte: minimal length is two.
    assert_eq!(encode(64), vec![0x40, 0x40]);
    assert_eq!(decode(&[0x3f]), (63, 1));
    assert_eq!(decode(&[0x40, 0x40]), (64, 2));
}

#[test]
fn two_byte_boundary() {
    assert_eq!(encode(16383), vec![0x7f, 0xff]);
    // 2^14 moves to four bytes.
    assert_eq!(encode(16384), vec![0x80, 0x00, 0x40, 0x00]);
    assert_eq!(decode(&[0x7f, 0xff]), (16383, 2));
}

#[test]
fn four_byte_boundary() {
    assert_eq!(encode((1 << 30) - 1), vec![0xbf, 0xff, 0xff, 0xff]);
    // 2^30 moves to eight bytes.
    assert_eq!(
        encode(1 << 30),
        vec![0xc0, 0x00, 0x00, 0x00, 0x40, 0x00, 0x00, 0x00]
    );
}

#[test]
fn eight_byte_top() {
    let max = MAX_VALUE;
    assert_eq!(
        encode(max),
        vec![0xff, 0xff, 0xff, 0xff, 0xff, 0xff, 0xff, 0xff]
    );
    assert_eq!(decode(&encode(max)), (max, 8));
}

#[test]
fn encode_rejects_out_of_range() {
    let mut buf = Vec::new();
    assert_eq!(VarInt(1 << 62).encode(&mut buf), Err(BoundsExceeded));
    assert!(buf.is_empty());
    assert_eq!(VarInt::from_u64(1 << 62), Err(BoundsExceeded));
    assert_eq!(VarInt::from_u64((1 << 62) - 1), Ok(VarInt((1 << 62) - 1)));
    assert_eq!(VarInt::from_u32(u32::MAX).0, u32::MAX as u64);
}

#[test]
fn round_trip_samples() {
    for v in [0u64, 1, 37, 63, 64, 300, 16383, 16384, 1 << 20, (1 << 30) - 1, 1 << 30,
        1 << 45, (1 << 62) - 1] {
        let bytes = encode(v);
        assert_eq!(decode(&bytes), (v, bytes.len()));
    }
}

#[test]
fn decode_accepts_non_minimal() {
    // The value 5 in two, four and eight bytes: valid on decode, never
    // produced by encode.
    assert_eq!(decode(&[0x40, 0x05]), (5, 2));
    assert_eq!(decode(&[0x80, 0x00, 0x00, 0x05]), (5, 4));
    assert_eq!(
        decode(&[0xc0, 0x00, 0x00, 0x00, 0x00, 0x00, 0x00, 0x05]),
        (5, 8)
    );
    assert_eq!(encode(5), vec![0x05]);
}

#[test]
fn decode_reports_missing_bytes() {
    let buf: Vec<u8> = vec![];
    assert_eq!(VarInt::decode(&buf, 0), Err(DecodeError::More(1)));
    let buf: Vec<u8> = vec![0x80, 0x00];
    assert_eq!(VarInt::decode(&buf, 0), Err(DecodeError::More(2)));
    let buf: Vec<u8> = vec![0xc0];
    assert_eq!(VarInt::decode(&buf, 0), Err(DecodeError::More(7)));
}

#[test]
fn decode_with_trailing_bytes() {
    let buf: Vec<u8> = vec![0x25, 0xaa, 0xbb];
    let (v, end) = VarInt::decode(&buf, 0).unwrap();
    assert_eq!((v.0, end), (0x25, 1));
}

#[test]
fn size_matches_encoding() {
    for v in [0u64, 63, 64, 16383, 16384, (1 << 30) - 1, 1 << 30, (1 << 62) - 1] {
        assert_eq!(VarInt(v).size(), encode(v).len());
    }
}
