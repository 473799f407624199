//! Checks for end-of-stream detection, truncation failures, seeking, and the
//! debug-marker framing protocol.

use flood_rs::in_borrowed::OctetRefReader;
use flood_rs::in_stream::InOctetStream;
use flood_rs::out_borrowed::OctetRefWriter;
use flood_rs::out_stream::OutOctetStream;
use flood_rs::{ReadOctetStream, SeekOctetStream, StreamError, WriteOctetStream};

#[test]
fn has_reached_end_is_a_pure_query() {
    let mut reader = InOctetStream::new(&[0x12, 0x34]);
    assert!(!reader.has_reached_end());
    assert!(!reader.has_reached_end());
    assert_eq!(reader.read_u16().unwrap(), 0x1234);
    assert!(reader.has_reached_end());
    assert!(reader.has_reached_end());

    let empty = InOctetStream::new(&[]);
    assert!(empty.has_reached_end());
}

#[test]
fn truncated_read_consumes_nothing() {
    let mut reader = InOctetStream::new(&[0x12, 0x34]);
    let err = reader.read_u32();
    assert!(matches!(err, Err(StreamError::UnexpectedEnd)));
    assert_eq!(reader.stream_position().unwrap(), 0);
    assert!(!reader.has_reached_end());

    assert_eq!(reader.read_u16().unwrap(), 0x1234);
    assert!(reader.has_reached_end());
    let err = reader.read_u8();
    assert!(matches!(err, Err(StreamError::UnexpectedEnd)));
}

#[test]
fn every_width_fails_on_empty_input() {
    let mut reader = InOctetStream::new(&[]);
    assert!(matches!(reader.read_u64(), Err(StreamError::UnexpectedEnd)));
    assert!(matches!(reader.read_i64(), Err(StreamError::UnexpectedEnd)));
    assert!(matches!(reader.read_u32(), Err(StreamError::UnexpectedEnd)));
    assert!(matches!(reader.read_i32(), Err(StreamError::UnexpectedEnd)));
    assert!(matches!(reader.read_u16(), Err(StreamError::UnexpectedEnd)));
    assert!(matches!(reader.read_i16(), Err(StreamError::UnexpectedEnd)));
    assert!(matches!(reader.read_u8(), Err(StreamError::UnexpectedEnd)));
    assert!(matches!(reader.read_i8(), Err(StreamError::UnexpectedEnd)));
}

#[test]
fn seek_moves_the_cursor_and_rejects_past_end() {
    let mut reader = InOctetStream::new(&[0xAA, 0xBB, 0xCC, 0xDD]);
    reader.seek(2).unwrap();
    assert_eq!(reader.stream_position().unwrap(), 2);
    assert_eq!(reader.read_u16().unwrap(), 0xCCDD);

    let err = reader.seek(5);
    assert!(matches!(err, Err(StreamError::UnexpectedEnd)));
    assert_eq!(reader.stream_position().unwrap(), 4);

    reader.seek(0).unwrap();
    assert_eq!(reader.read_u8().unwrap(), 0xAA);

    let bytes = [1u8, 2];
    let mut borrowed = OctetRefReader::new(&bytes);
    borrowed.seek(1).unwrap();
    assert_eq!(borrowed.read_u8().unwrap(), 2);
}

#[test]
fn marker_framing_round_trip() {
    let mut out = OutOctetStream::new();
    out.emit_markers = true;
    out.write_marker(0xFE).unwrap();
    out.write_u32(0x12345678).unwrap();
    assert_eq!(out.octets().len(), 1 + 4);
    assert_eq!(out.octets(), vec![0xFE, 0x12, 0x34, 0x56, 0x78]);

    let mut reader = InOctetStream::new(out.octets_ref());
    reader.verify_markers = true;
    reader.verify_marker(0xFE).unwrap();
    assert_eq!(reader.read_u32().unwrap(), 0x12345678);
    assert!(reader.has_reached_end());
}

#[test]
fn marker_steps_are_no_ops_when_disabled() {
    let mut out = OutOctetStream::new();
    out.write_marker(0xFE).unwrap();
    out.write_u32(0x12345678).unwrap();
    assert_eq!(out.octets().len(), 4);

    let mut reader = InOctetStream::new(out.octets_ref());
    reader.verify_marker(0xFE).unwrap();
    assert_eq!(reader.read_u32().unwrap(), 0x12345678);
}

#[test]
fn marker_mismatch_carries_both_octets_and_keeps_the_cursor() {
    let mut reader = InOctetStream::new(&[0xAB, 0x01]);
    reader.verify_markers = true;
    let err = reader.verify_marker(0xCD);
    assert!(
        matches!(err, Err(StreamError::MarkerMismatch { expected: 0xCD, found: 0xAB }))
    );
    assert_eq!(reader.stream_position().unwrap(), 0);

    reader.verify_marker(0xAB).unwrap();
    assert_eq!(reader.stream_position().unwrap(), 1);
    assert_eq!(reader.read_u8().unwrap(), 0x01);
}

#[test]
fn marker_verification_fails_at_end_of_stream() {
    let mut reader = InOctetStream::new(&[]);
    reader.verify_markers = true;
    assert!(matches!(reader.verify_marker(0x00), Err(StreamError::UnexpectedEnd)));
}

#[test]
fn borrowed_streams_support_markers_too() {
    let mut w = OctetRefWriter::new(vec![0; 3]);
    w.emit_markers = true;
    w.write_marker(0x7E).unwrap();
    w.write_u16(0x0102).unwrap();
    assert_eq!(w.bytes_written(), 3);
    assert_eq!(w.data(), &[0x7E, 0x01, 0x02]);

    let err = w.write_marker(0x7E);
    assert!(matches!(err, Err(StreamError::CapacityExhausted)));

    let mut r = OctetRefReader::new(w.data());
    r.verify_markers = true;
    r.verify_marker(0x7E).unwrap();
    assert_eq!(r.read_u16().unwrap(), 0x0102);
    assert!(r.has_reached_end());
}

#[test]
fn default_out_stream_is_empty() {
    let out: OutOctetStream = Default::default();
    assert_eq!(out.octets(), Vec::<u8>::new());
    assert!(!out.emit_markers);
}

#[test]
fn new_from_cursor_resumes_an_owned_reader() {
    let mut first = InOctetStream::new(&[0x11, 0x22, 0x33]);
    assert_eq!(first.read_u8().unwrap(), 0x11);

    let mut resumed = InOctetStream::new_from_cursor(first.data.clone(), 1);
    assert_eq!(resumed.read_u16().unwrap(), 0x2233);
    assert!(resumed.has_reached_end());
}
