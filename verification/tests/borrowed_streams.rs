//! Checks for the borrowed-buffer variants: the fixed-capacity writer and
//! the slice-backed reader.

use flood_rs::prelude::{OctetRefReader, OctetRefWriter};
use flood_rs::{ReadOctetStream, StreamError, WriteOctetStream};

fn write_u32(out_stream: &mut impl WriteOctetStream, v: u32) -> Result<(), StreamError> {
    out_stream.write_u32(v)
}

fn read_u32(in_stream: &mut impl ReadOctetStream) -> Result<u32, StreamError> {
    in_stream.read_u32()
}

#[test]
fn test_ref_write_and_read_u32() {
    const EXPECTED_U32: u32 = 0x12345678;
    let buf: Vec<u8> = vec![42; 4];
    let mut out_stream = OctetRefWriter::new(buf);
    write_u32(&mut out_stream, EXPECTED_U32).unwrap();

    let mut in_stream = OctetRefReader::new(out_stream.data());
    let value = read_u32(&mut in_stream).unwrap();
    assert_eq!(value, EXPECTED_U32);

    let should_be_error = in_stream.read_u8();
    assert!(matches!(should_be_error.err(), Some(StreamError::UnexpectedEnd)));
}

#[test]
fn bounded_writer_reports_offsets() {
    let mut w = OctetRefWriter::new(vec![0; 10]);
    assert_eq!(w.bytes_written(), 0);
    assert_eq!(w.remaining_capacity(), 10);
    w.write_u32(0xCAFEBABE).unwrap();
    assert_eq!(w.bytes_written(), 4);
    assert_eq!(w.remaining_capacity(), 6);
    w.write_u16(0x1234).unwrap();
    assert_eq!(w.bytes_written(), 6);
    assert_eq!(w.remaining_capacity(), 4);
}

#[test]
fn bounded_writer_overflow_commits_nothing() {
    let mut w = OctetRefWriter::new(vec![42; 6]);
    w.write_u32(0x01020304).unwrap();

    let r = w.write_u32(0x05060708);
    assert!(matches!(r, Err(StreamError::CapacityExhausted)));
    assert_eq!(w.bytes_written(), 4);
    assert_eq!(w.remaining_capacity(), 2);
    assert_eq!(w.data(), &[1, 2, 3, 4, 42, 42]);

    w.write_u16(0x0910).unwrap();
    assert_eq!(w.data(), &[1, 2, 3, 4, 0x09, 0x10]);

    let r = w.write_u8(0x11);
    assert!(matches!(r, Err(StreamError::CapacityExhausted)));
    assert_eq!(w.bytes_written(), 6);
}

#[test]
fn bounded_writer_raw_write_checks_room() {
    let mut w = OctetRefWriter::new(vec![0; 3]);
    let r = w.write(&[1, 2, 3, 4]);
    assert!(matches!(r, Err(StreamError::CapacityExhausted)));
    assert_eq!(w.bytes_written(), 0);

    w.write(&[1, 2, 3]).unwrap();
    assert_eq!(w.bytes_written(), 3);
    assert_eq!(w.data(), &[1, 2, 3]);
}

#[test]
fn bounded_writer_signed_widths() {
    let mut w = OctetRefWriter::new(vec![0; 15]);
    w.write_i64(-1).unwrap();
    w.write_i32(-2).unwrap();
    w.write_i16(-3).unwrap();
    w.write_i8(-4).unwrap();
    assert_eq!(w.bytes_written(), 15);

    let mut r = OctetRefReader::new(w.data());
    assert_eq!(r.read_i64().unwrap(), -1);
    assert_eq!(r.read_i32().unwrap(), -2);
    assert_eq!(r.read_i16().unwrap(), -3);
    assert_eq!(r.read_i8().unwrap(), -4);
    assert!(r.has_reached_end());
}

#[test]
fn borrowed_reader_raw_read_and_truncation() {
    let bytes = [1u8, 2, 3];
    let mut r = OctetRefReader::new(&bytes);

    let mut too_much = vec![9u8; 4];
    let err = r.read(&mut too_much);
    assert!(matches!(err, Err(StreamError::UnexpectedEnd)));
    assert_eq!(too_much, vec![9u8; 4]);

    let mut two = vec![0u8; 2];
    r.read(&mut two).unwrap();
    assert_eq!(two, vec![1, 2]);
    assert!(!r.has_reached_end());
    assert_eq!(r.read_u8().unwrap(), 3);
    assert!(r.has_reached_end());
}

#[test]
fn borrowed_reader_new_from_cursor_starts_midway() {
    let bytes = [0xAAu8, 0xBB, 0xCC, 0xDD];
    let mut r = OctetRefReader::new_from_cursor(&bytes, 2);
    assert_eq!(r.read_u16().unwrap(), 0xCCDD);
    assert!(r.has_reached_end());
}
