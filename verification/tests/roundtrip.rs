//! Round-trip and byte-exactness checks for the octet streams.

use flood_rs::in_borrowed::OctetRefReader;
use flood_rs::in_stream::InOctetStream;
use flood_rs::out_stream::OutOctetStream;
use flood_rs::{ReadOctetStream, WriteOctetStream};

#[test]
fn write_u32() {
    const EXPECTED_U32: u32 = 0x12345678;
    let mut out_stream = OutOctetStream::new();
    let result = out_stream.write_u32(EXPECTED_U32);
    assert!(result.is_ok());

    let mut in_stream = InOctetStream::new(out_stream.octets_ref());
    assert!(!in_stream.has_reached_end());
    let result = in_stream.read_u32();
    assert!(in_stream.has_reached_end());
    assert!(result.is_ok());
    assert_eq!(result.unwrap(), EXPECTED_U32);
}

#[test]
fn test_write_and_read_u32() {
    const EXPECTED_U32: u32 = 0x12345678;
    let mut out_stream = OutOctetStream::new();
    out_stream.write_u32(EXPECTED_U32).unwrap();

    let mut in_stream = InOctetStream::new(out_stream.octets_ref());
    let value = in_stream.read_u32().unwrap();
    assert_eq!(value, EXPECTED_U32);
}

#[test]
fn big_endian_exact_bytes_u32() {
    let mut out = OutOctetStream::new();
    out.write_u32(0x12345678).unwrap();
    assert_eq!(out.octets(), vec![0x12, 0x34, 0x56, 0x78]);
    assert_eq!(out.octets_ref(), &[0x12, 0x34, 0x56, 0x78]);

    let mut reader = InOctetStream::new(out.octets_ref());
    assert_eq!(reader.read_u32().unwrap(), 0x12345678);
    assert!(reader.has_reached_end());
}

#[test]
fn big_endian_exact_bytes_u16_and_u64() {
    let mut out = OutOctetStream::new();
    out.write_u16(0xABCD).unwrap();
    assert_eq!(out.octets(), vec![0xAB, 0xCD]);

    let mut out = OutOctetStream::new();
    out.write_u64(0x0102030405060708).unwrap();
    assert_eq!(out.octets(), vec![1, 2, 3, 4, 5, 6, 7, 8]);
}

#[test]
fn roundtrip_unsigned_widths() {
    for &v in &[0u64, 1, 0xFF, 0x100, 0x12345678, u64::MAX] {
        let mut out = OutOctetStream::new();
        out.write_u64(v).unwrap();
        let mut reader = InOctetStream::new(out.octets_ref());
        assert_eq!(reader.read_u64().unwrap(), v);
        assert!(reader.has_reached_end());
    }
    for &v in &[0u32, 1, 0xFF, 0xFFFF_FFFF, 0xDEAD_BEEF] {
        let mut out = OutOctetStream::new();
        out.write_u32(v).unwrap();
        let mut reader = InOctetStream::new(out.octets_ref());
        assert_eq!(reader.read_u32().unwrap(), v);
    }
    for &v in &[0u16, 1, 0xFF, 0x100, 0xFFFF] {
        let mut out = OutOctetStream::new();
        out.write_u16(v).unwrap();
        let mut reader = InOctetStream::new(out.octets_ref());
        assert_eq!(reader.read_u16().unwrap(), v);
    }
    for &v in &[0u8, 1, 0x7F, 0x80, 0xFF] {
        let mut out = OutOctetStream::new();
        out.write_u8(v).unwrap();
        let mut reader = InOctetStream::new(out.octets_ref());
        assert_eq!(reader.read_u8().unwrap(), v);
    }
}

#[test]
fn roundtrip_signed_widths() {
    for &v in &[i64::MIN, -1, 0, 1, i64::MAX] {
        let mut out = OutOctetStream::new();
        out.write_i64(v).unwrap();
        let mut reader = InOctetStream::new(out.octets_ref());
        assert_eq!(reader.read_i64().unwrap(), v);
    }
    for &v in &[i32::MIN, -1, 0, 1, i32::MAX] {
        let mut out = OutOctetStream::new();
        out.write_i32(v).unwrap();
        let mut reader = InOctetStream::new(out.octets_ref());
        assert_eq!(reader.read_i32().unwrap(), v);
    }
    for &v in &[i16::MIN, -1, 0, 1, i16::MAX] {
        let mut out = OutOctetStream::new();
        out.write_i16(v).unwrap();
        let mut reader = InOctetStream::new(out.octets_ref());
        assert_eq!(reader.read_i16().unwrap(), v);
    }
    for &v in &[i8::MIN, -1, 0, 1, i8::MAX] {
        let mut out = OutOctetStream::new();
        out.write_i8(v).unwrap();
        let mut reader = InOctetStream::new(out.octets_ref());
        assert_eq!(reader.read_i8().unwrap(), v);
    }
}

#[test]
fn signed_bit_pattern_is_twos_complement() {
    let mut out = OutOctetStream::new();
    out.write_i16(-1).unwrap();
    assert_eq!(out.octets(), vec![0xFF, 0xFF]);

    let mut out = OutOctetStream::new();
    out.write_i32(i32::MIN).unwrap();
    assert_eq!(out.octets(), vec![0x80, 0x00, 0x00, 0x00]);

    let mut reader = InOctetStream::new(&[0xFF]);
    assert_eq!(reader.read_i8().unwrap(), -1);
}

#[test]
fn roundtrip_mixed_sequence_in_order() {
    let mut out = OutOctetStream::new();
    out.write_u8(0x01).unwrap();
    out.write_u16(0x0203).unwrap();
    out.write_u32(0x04050607).unwrap();
    out.write_i64(-2).unwrap();
    out.write_i8(-3).unwrap();
    assert_eq!(out.octets().len(), 1 + 2 + 4 + 8 + 1);

    let mut reader = InOctetStream::new(out.octets_ref());
    assert_eq!(reader.read_u8().unwrap(), 0x01);
    assert_eq!(reader.read_u16().unwrap(), 0x0203);
    assert_eq!(reader.read_u32().unwrap(), 0x04050607);
    assert_eq!(reader.read_i64().unwrap(), -2);
    assert!(!reader.has_reached_end());
    assert_eq!(reader.read_i8().unwrap(), -3);
    assert!(reader.has_reached_end());
}

#[test]
fn raw_octet_slices_travel_verbatim() {
    let payload = [9u8, 8, 7, 6, 5];
    let mut out = OutOctetStream::new();
    out.write(&payload).unwrap();
    assert_eq!(out.octets(), payload.to_vec());

    let mut reader = InOctetStream::new(out.octets_ref());
    let mut got = vec![0u8; 5];
    reader.read(&mut got).unwrap();
    assert_eq!(got, payload.to_vec());
    assert!(reader.has_reached_end());
}

#[test]
fn borrowed_reader_matches_owned_reader() {
    let bytes = [0x12u8, 0x34, 0x56, 0x78, 0x9A, 0xBC];
    let mut owned = InOctetStream::new(&bytes);
    let mut borrowed = OctetRefReader::new(&bytes);
    assert_eq!(owned.read_u32().unwrap(), borrowed.read_u32().unwrap());
    assert_eq!(owned.read_u16().unwrap(), borrowed.read_u16().unwrap());
    assert!(owned.has_reached_end());
    assert!(borrowed.has_reached_end());
}
