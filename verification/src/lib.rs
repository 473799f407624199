//! A minimal big-endian octet-stream codec: sequential writers and readers
//! for fixed-width integers over contiguous octet buffers.
//!
//! The writable streams append the big-endian encoding of each value to a
//! buffer (growable for [`out_stream::OutOctetStream`], fixed-capacity for
//! [`out_borrowed::OctetRefWriter`]); the readable streams decode values in
//! the same order through a cursor, detecting truncated input without
//! consuming anything on failure.  An optional one-octet debug-marker framing
//! protocol lets a writer and a reader check that they stay in step.
//!
//! All multi-octet values travel most significant octet first, and signed
//! values travel as the two's-complement bit pattern of their width; the
//! contracts state this through [`endian::be_bytes`] and [`endian::be_value`].

use vstd::prelude::*;

pub mod endian;
pub mod in_borrowed;
pub mod in_stream;
pub mod out_borrowed;
pub mod out_stream;
pub mod prelude;

use crate::endian::{be_bytes, be_value};

verus! {

/// How a stream operation fails.
///
/// No operation retries or recovers internally: every failure is returned to
/// the caller at once, with no partial change to cursor or offset state.
#[derive(Clone, Copy, Debug, PartialEq, Eq, Structural)]
pub enum StreamError {
    /// A read needed more octets than remained: truncated input.
    UnexpectedEnd,
    /// A bounded write needed more room than the destination had left.
    CapacityExhausted,
    /// An enabled-marker read saw a sentinel octet other than the expected
    /// one; both octets are carried for diagnostics.
    MarkerMismatch { expected: u8, found: u8 },
}

/// A sink of typed scalar values, encoded big-endian.
///
/// `written()` is the octet sequence committed so far, `raw()` the whole
/// destination (for a bounded stream that includes the untouched remainder of
/// the caller's buffer), `pos()` the number of octets committed, and
/// `fits(n)` says whether `n` more octets have room.  Every write either
/// commits exactly the encoding of its value at the old position — leaving
/// the octets before and after the written window, the destination's length
/// where it already had the room, and the marker flag all unchanged — or,
/// only when the room is missing, fails with
/// [`StreamError::CapacityExhausted`] and leaves the stream untouched.
pub trait WriteOctetStream: Sized {
    /// The structural invariant every stream value maintains.
    spec fn wf(&self) -> bool;

    /// The octets committed to the stream so far.
    spec fn written(&self) -> Seq<u8>;

    /// The whole destination buffer: the committed prefix followed, for a
    /// bounded stream, by the octets not written yet.
    spec fn raw(&self) -> Seq<u8>;

    /// The write position: how many octets have been committed.
    spec fn pos(&self) -> nat;

    /// Whether the stream's marker step emits its sentinel octet.
    spec fn emits_markers(&self) -> bool;

    /// Whether the stream has room for `extra` more octets.
    spec fn fits(&self, extra: nat) -> bool;

    /// The committed octets are exactly the prefix of the destination up to
    /// the write position.
    proof fn written_is_raw_prefix(&self)
        requires
            self.wf(),
        ensures
            self.pos() <= self.raw().len(),
            self.written() == self.raw().take(self.pos() as int),
    ;

    /// Appends an arbitrary octet slice verbatim.
    fn write(&mut self, v: &[u8]) -> (r: Result<(), StreamError>)
        requires
            old(self).wf(),
        ensures
            final(self).wf(),
            old(self).fits(v@.len()) ==> r is Ok && ({
                let at = old(self).pos() as int;
                &&& final(self).written() == old(self).written() + v@
                &&& final(self).pos() == old(self).pos() + v@.len() as int
                &&& final(self).emits_markers() == old(self).emits_markers()
                &&& (at + v@.len() as int <= old(self).raw().len() ==> final(self).raw().len() == old(
                    self,
                ).raw().len())
                &&& (at + v@.len() as int > old(self).raw().len() ==> final(self).raw().len() == at + v@.len() as int)
                &&& final(self).raw().take(at) == old(self).raw().take(at)
                &&& final(self).raw().subrange(at, at + v@.len() as int) == v@
                &&& (forall|j: int|
                    at + v@.len() as int <= j < old(self).raw().len() ==> final(self).raw()[j] == old(
                        self,
                    ).raw()[j])
            }),
            !old(self).fits(v@.len()) ==> r is Err && r->Err_0 == StreamError::CapacityExhausted
                && *final(self) == *old(self),
    ;

    /// Appends a `u64` as eight octets, most significant first.
    fn write_u64(&mut self, v: u64) -> (r: Result<(), StreamError>)
        requires
            old(self).wf(),
        ensures
            final(self).wf(),
            old(self).fits(8) ==> r is Ok && ({
                let at = old(self).pos() as int;
                &&& final(self).written() == old(self).written() + be_bytes(v as nat, 8)
                &&& final(self).pos() == old(self).pos() + 8
                &&& final(self).emits_markers() == old(self).emits_markers()
                &&& (at + 8 <= old(self).raw().len() ==> final(self).raw().len() == old(
                    self,
                ).raw().len())
                &&& (at + 8 > old(self).raw().len() ==> final(self).raw().len() == at + 8)
                &&& final(self).raw().take(at) == old(self).raw().take(at)
                &&& final(self).raw().subrange(at, at + 8) == be_bytes(v as nat, 8)
                &&& (forall|j: int|
                    at + 8 <= j < old(self).raw().len() ==> final(self).raw()[j] == old(
                        self,
                    ).raw()[j])
            }),
            !old(self).fits(8) ==> r is Err && r->Err_0 == StreamError::CapacityExhausted
                && *final(self) == *old(self),
    ;

    /// Appends an `i64` as the big-endian two's-complement pattern of its
    /// eight octets.
    fn write_i64(&mut self, v: i64) -> (r: Result<(), StreamError>)
        requires
            old(self).wf(),
        ensures
            final(self).wf(),
            old(self).fits(8) ==> r is Ok && ({
                let at = old(self).pos() as int;
                &&& final(self).written() == old(self).written() + be_bytes((v as u64) as nat, 8)
                &&& final(self).pos() == old(self).pos() + 8
                &&& final(self).emits_markers() == old(self).emits_markers()
                &&& (at + 8 <= old(self).raw().len() ==> final(self).raw().len() == old(
                    self,
                ).raw().len())
                &&& (at + 8 > old(self).raw().len() ==> final(self).raw().len() == at + 8)
                &&& final(self).raw().take(at) == old(self).raw().take(at)
                &&& final(self).raw().subrange(at, at + 8) == be_bytes((v as u64) as nat, 8)
                &&& (forall|j: int|
                    at + 8 <= j < old(self).raw().len() ==> final(self).raw()[j] == old(
                        self,
                    ).raw()[j])
            }),
            !old(self).fits(8) ==> r is Err && r->Err_0 == StreamError::CapacityExhausted
                && *final(self) == *old(self),
    ;

    /// Appends a `u32` as four octets, most significant first.
    fn write_u32(&mut self, v: u32) -> (r: Result<(), StreamError>)
        requires
            old(self).wf(),
        ensures
            final(self).wf(),
            old(self).fits(4) ==> r is Ok && ({
                let at = old(self).pos() as int;
                &&& final(self).written() == old(self).written() + be_bytes(v as nat, 4)
                &&& final(self).pos() == old(self).pos() + 4
                &&& final(self).emits_markers() == old(self).emits_markers()
                &&& (at + 4 <= old(self).raw().len() ==> final(self).raw().len() == old(
                    self,
                ).raw().len())
                &&& (at + 4 > old(self).raw().len() ==> final(self).raw().len() == at + 4)
                &&& final(self).raw().take(at) == old(self).raw().take(at)
                &&& final(self).raw().subrange(at, at + 4) == be_bytes(v as nat, 4)
                &&& (forall|j: int|
                    at + 4 <= j < old(self).raw().len() ==> final(self).raw()[j] == old(
                        self,
                    ).raw()[j])
            }),
            !old(self).fits(4) ==> r is Err && r->Err_0 == StreamError::CapacityExhausted
                && *final(self) == *old(self),
    ;

    /// Appends an `i32` as the big-endian two's-complement pattern of its
    /// four octets.
    fn write_i32(&mut self, v: i32) -> (r: Result<(), StreamError>)
        requires
            old(self).wf(),
        ensures
            final(self).wf(),
            old(self).fits(4) ==> r is Ok && ({
                let at = old(self).pos() as int;
                &&& final(self).written() == old(self).written() + be_bytes((v as u32) as nat, 4)
                &&& final(self).pos() == old(self).pos() + 4
                &&& final(self).emits_markers() == old(self).emits_markers()
                &&& (at + 4 <= old(self).raw().len() ==> final(self).raw().len() == old(
                    self,
                ).raw().len())
                &&& (at + 4 > old(self).raw().len() ==> final(self).raw().len() == at + 4)
                &&& final(self).raw().take(at) == old(self).raw().take(at)
                &&& final(self).raw().subrange(at, at + 4) == be_bytes((v as u32) as nat, 4)
                &&& (forall|j: int|
                    at + 4 <= j < old(self).raw().len() ==> final(self).raw()[j] == old(
                        self,
                    ).raw()[j])
            }),
            !old(self).fits(4) ==> r is Err && r->Err_0 == StreamError::CapacityExhausted
                && *final(self) == *old(self),
    ;

    /// Appends a `u16` as two octets, most significant first.
    fn write_u16(&mut self, v: u16) -> (r: Result<(), StreamError>)
        requires
            old(self).wf(),
        ensures
            final(self).wf(),
            old(self).fits(2) ==> r is Ok && ({
                let at = old(self).pos() as int;
                &&& final(self).written() == old(self).written() + be_bytes(v as nat, 2)
                &&& final(self).pos() == old(self).pos() + 2
                &&& final(self).emits_markers() == old(self).emits_markers()
                &&& (at + 2 <= old(self).raw().len() ==> final(self).raw().len() == old(
                    self,
                ).raw().len())
                &&& (at + 2 > old(self).raw().len() ==> final(self).raw().len() == at + 2)
                &&& final(self).raw().take(at) == old(self).raw().take(at)
                &&& final(self).raw().subrange(at, at + 2) == be_bytes(v as nat, 2)
                &&& (forall|j: int|
                    at + 2 <= j < old(self).raw().len() ==> final(self).raw()[j] == old(
                        self,
                    ).raw()[j])
            }),
            !old(self).fits(2) ==> r is Err && r->Err_0 == StreamError::CapacityExhausted
                && *final(self) == *old(self),
    ;

    /// Appends an `i16` as the big-endian two's-complement pattern of its
    /// two octets.
    fn write_i16(&mut self, v: i16) -> (r: Result<(), StreamError>)
        requires
            old(self).wf(),
        ensures
            final(self).wf(),
            old(self).fits(2) ==> r is Ok && ({
                let at = old(self).pos() as int;
                &&& final(self).written() == old(self).written() + be_bytes((v as u16) as nat, 2)
                &&& final(self).pos() == old(self).pos() + 2
                &&& final(self).emits_markers() == old(self).emits_markers()
                &&& (at + 2 <= old(self).raw().len() ==> final(self).raw().len() == old(
                    self,
                ).raw().len())
                &&& (at + 2 > old(self).raw().len() ==> final(self).raw().len() == at + 2)
                &&& final(self).raw().take(at) == old(self).raw().take(at)
                &&& final(self).raw().subrange(at, at + 2) == be_bytes((v as u16) as nat, 2)
                &&& (forall|j: int|
                    at + 2 <= j < old(self).raw().len() ==> final(self).raw()[j] == old(
                        self,
                    ).raw()[j])
            }),
            !old(self).fits(2) ==> r is Err && r->Err_0 == StreamError::CapacityExhausted
                && *final(self) == *old(self),
    ;

    /// Appends a single octet.
    fn write_u8(&mut self, v: u8) -> (r: Result<(), StreamError>)
        requires
            old(self).wf(),
        ensures
            final(self).wf(),
            old(self).fits(1) ==> r is Ok && ({
                let at = old(self).pos() as int;
                &&& final(self).written() == old(self).written() + be_bytes(v as nat, 1)
                &&& final(self).pos() == old(self).pos() + 1
                &&& final(self).emits_markers() == old(self).emits_markers()
                &&& (at + 1 <= old(self).raw().len() ==> final(self).raw().len() == old(
                    self,
                ).raw().len())
                &&& (at + 1 > old(self).raw().len() ==> final(self).raw().len() == at + 1)
                &&& final(self).raw().take(at) == old(self).raw().take(at)
                &&& final(self).raw().subrange(at, at + 1) == be_bytes(v as nat, 1)
                &&& (forall|j: int|
                    at + 1 <= j < old(self).raw().len() ==> final(self).raw()[j] == old(
                        self,
                    ).raw()[j])
            }),
            !old(self).fits(1) ==> r is Err && r->Err_0 == StreamError::CapacityExhausted
                && *final(self) == *old(self),
    ;

    /// Appends an `i8` as the two's-complement pattern of one octet.
    fn write_i8(&mut self, v: i8) -> (r: Result<(), StreamError>)
        requires
            old(self).wf(),
        ensures
            final(self).wf(),
            old(self).fits(1) ==> r is Ok && ({
                let at = old(self).pos() as int;
                &&& final(self).written() == old(self).written() + be_bytes((v as u8) as nat, 1)
                &&& final(self).pos() == old(self).pos() + 1
                &&& final(self).emits_markers() == old(self).emits_markers()
                &&& (at + 1 <= old(self).raw().len() ==> final(self).raw().len() == old(
                    self,
                ).raw().len())
                &&& (at + 1 > old(self).raw().len() ==> final(self).raw().len() == at + 1)
                &&& final(self).raw().take(at) == old(self).raw().take(at)
                &&& final(self).raw().subrange(at, at + 1) == be_bytes((v as u8) as nat, 1)
                &&& (forall|j: int|
                    at + 1 <= j < old(self).raw().len() ==> final(self).raw()[j] == old(
                        self,
                    ).raw()[j])
            }),
            !old(self).fits(1) ==> r is Err && r->Err_0 == StreamError::CapacityExhausted
                && *final(self) == *old(self),
    ;
}

/// A source of typed scalar values, decoded big-endian in the order and
/// widths they were written.
///
/// `buf()` is the whole underlying octet sequence and `cursor()` the number
/// of octets consumed so far.  Every read either decodes exactly its width
/// from the cursor onward and advances by that width, or — only when fewer
/// octets remain — fails with [`StreamError::UnexpectedEnd`] and consumes
/// nothing.
pub trait ReadOctetStream {
    /// The structural invariant every stream value maintains.
    spec fn wf(&self) -> bool;

    /// The whole underlying octet sequence.
    spec fn buf(&self) -> Seq<u8>;

    /// How many octets have been consumed so far.
    spec fn cursor(&self) -> nat;

    /// Whether the stream's marker step checks its sentinel octet.
    spec fn verifies_markers(&self) -> bool;

    /// The cursor never passes the end of the buffer.
    proof fn cursor_in_bounds(&self)
        requires
            self.wf(),
        ensures
            self.cursor() <= self.buf().len(),
    ;

    /// Fills all of `v` with the next `v.len()` octets, verbatim.
    fn read(&mut self, v: &mut Vec<u8>) -> (r: Result<(), StreamError>)
        requires
            old(self).wf(),
        ensures
            final(self).wf(),
            final(self).buf() == old(self).buf(),
            final(self).verifies_markers() == old(self).verifies_markers(),
            old(self).cursor() + old(v)@.len() <= old(self).buf().len() ==> r is Ok
                && final(self).cursor() == old(self).cursor() + old(v)@.len()
                && final(v)@ == old(self).buf().subrange(
                    old(self).cursor() as int,
                    old(self).cursor() as int + old(v)@.len() as int,
                ),
            old(self).cursor() + old(v)@.len() > old(self).buf().len() ==> r is Err && r->Err_0
                == StreamError::UnexpectedEnd && final(self).cursor() == old(self).cursor()
                && final(v)@ == old(v)@,
    ;

    /// Decodes the next eight octets as a big-endian `u64`.
    fn read_u64(&mut self) -> (r: Result<u64, StreamError>)
        requires
            old(self).wf(),
        ensures
            final(self).wf(),
            final(self).buf() == old(self).buf(),
            final(self).verifies_markers() == old(self).verifies_markers(),
            old(self).cursor() + 8 <= old(self).buf().len() ==> r is Ok && final(self).cursor()
                == old(self).cursor() + 8 && r->Ok_0 as nat == be_value(
                old(self).buf().subrange(old(self).cursor() as int, old(self).cursor() as int + 8),
            ),
            old(self).cursor() + 8 > old(self).buf().len() ==> r is Err && r->Err_0
                == StreamError::UnexpectedEnd && final(self).cursor() == old(self).cursor(),
    ;

    /// Decodes the next eight octets as a big-endian `u64`, reinterpreted as
    /// a two's-complement `i64`.
    fn read_i64(&mut self) -> (r: Result<i64, StreamError>)
        requires
            old(self).wf(),
        ensures
            final(self).wf(),
            final(self).buf() == old(self).buf(),
            final(self).verifies_markers() == old(self).verifies_markers(),
            old(self).cursor() + 8 <= old(self).buf().len() ==> r is Ok && final(self).cursor()
                == old(self).cursor() + 8 && r->Ok_0 == (be_value(
                old(self).buf().subrange(old(self).cursor() as int, old(self).cursor() as int + 8),
            ) as u64) as i64,
            old(self).cursor() + 8 > old(self).buf().len() ==> r is Err && r->Err_0
                == StreamError::UnexpectedEnd && final(self).cursor() == old(self).cursor(),
    ;

    /// Decodes the next four octets as a big-endian `u32`.
    fn read_u32(&mut self) -> (r: Result<u32, StreamError>)
        requires
            old(self).wf(),
        ensures
            final(self).wf(),
            final(self).buf() == old(self).buf(),
            final(self).verifies_markers() == old(self).verifies_markers(),
            old(self).cursor() + 4 <= old(self).buf().len() ==> r is Ok && final(self).cursor()
                == old(self).cursor() + 4 && r->Ok_0 as nat == be_value(
                old(self).buf().subrange(old(self).cursor() as int, old(self).cursor() as int + 4),
            ),
            old(self).cursor() + 4 > old(self).buf().len() ==> r is Err && r->Err_0
                == StreamError::UnexpectedEnd && final(self).cursor() == old(self).cursor(),
    ;

    /// Decodes the next four octets as a big-endian `u32`, reinterpreted as a
    /// two's-complement `i32`.
    fn read_i32(&mut self) -> (r: Result<i32, StreamError>)
        requires
            old(self).wf(),
        ensures
            final(self).wf(),
            final(self).buf() == old(self).buf(),
            final(self).verifies_markers() == old(self).verifies_markers(),
            old(self).cursor() + 4 <= old(self).buf().len() ==> r is Ok && final(self).cursor()
                == old(self).cursor() + 4 && r->Ok_0 == (be_value(
                old(self).buf().subrange(old(self).cursor() as int, old(self).cursor() as int + 4),
            ) as u32) as i32,
            old(self).cursor() + 4 > old(self).buf().len() ==> r is Err && r->Err_0
                == StreamError::UnexpectedEnd && final(self).cursor() == old(self).cursor(),
    ;

    /// Decodes the next two octets as a big-endian `u16`.
    fn read_u16(&mut self) -> (r: Result<u16, StreamError>)
        requires
            old(self).wf(),
        ensures
            final(self).wf(),
            final(self).buf() == old(self).buf(),
            final(self).verifies_markers() == old(self).verifies_markers(),
            old(self).cursor() + 2 <= old(self).buf().len() ==> r is Ok && final(self).cursor()
                == old(self).cursor() + 2 && r->Ok_0 as nat == be_value(
                old(self).buf().subrange(old(self).cursor() as int, old(self).cursor() as int + 2),
            ),
            old(self).cursor() + 2 > old(self).buf().len() ==> r is Err && r->Err_0
                == StreamError::UnexpectedEnd && final(self).cursor() == old(self).cursor(),
    ;

    /// Decodes the next two octets as a big-endian `u16`, reinterpreted as a
    /// two's-complement `i16`.
    fn read_i16(&mut self) -> (r: Result<i16, StreamError>)
        requires
            old(self).wf(),
        ensures
            final(self).wf(),
            final(self).buf() == old(self).buf(),
            final(self).verifies_markers() == old(self).verifies_markers(),
            old(self).cursor() + 2 <= old(self).buf().len() ==> r is Ok && final(self).cursor()
                == old(self).cursor() + 2 && r->Ok_0 == (be_value(
                old(self).buf().subrange(old(self).cursor() as int, old(self).cursor() as int + 2),
            ) as u16) as i16,
            old(self).cursor() + 2 > old(self).buf().len() ==> r is Err && r->Err_0
                == StreamError::UnexpectedEnd && final(self).cursor() == old(self).cursor(),
    ;

    /// Reads the next octet.
    fn read_u8(&mut self) -> (r: Result<u8, StreamError>)
        requires
            old(self).wf(),
        ensures
            final(self).wf(),
            final(self).buf() == old(self).buf(),
            final(self).verifies_markers() == old(self).verifies_markers(),
            old(self).cursor() + 1 <= old(self).buf().len() ==> r is Ok && final(self).cursor()
                == old(self).cursor() + 1 && r->Ok_0 == old(self).buf()[old(self).cursor() as int],
            old(self).cursor() + 1 > old(self).buf().len() ==> r is Err && r->Err_0
                == StreamError::UnexpectedEnd && final(self).cursor() == old(self).cursor(),
    ;

    /// Reads the next octet, reinterpreted as a two's-complement `i8`.
    fn read_i8(&mut self) -> (r: Result<i8, StreamError>)
        requires
            old(self).wf(),
        ensures
            final(self).wf(),
            final(self).buf() == old(self).buf(),
            final(self).verifies_markers() == old(self).verifies_markers(),
            old(self).cursor() + 1 <= old(self).buf().len() ==> r is Ok && final(self).cursor()
                == old(self).cursor() + 1 && r->Ok_0 == old(self).buf()[old(self).cursor() as int]
                as i8,
            old(self).cursor() + 1 > old(self).buf().len() ==> r is Err && r->Err_0
                == StreamError::UnexpectedEnd && final(self).cursor() == old(self).cursor(),
    ;

    /// Whether every octet has been consumed.  A pure query: it neither
    /// consumes octets nor changes any later read.
    fn has_reached_end(&self) -> (r: bool)
        ensures
            r == (self.cursor() == self.buf().len()),
    ;
}

/// Random access to the cursor of a readable octet stream.
pub trait SeekOctetStream: ReadOctetStream + Sized {
    /// Moves the cursor to octet position `pos`, counted from the start.
    /// Fails without moving when `pos` lies past the end of the buffer.
    fn seek(&mut self, pos: u64) -> (r: Result<(), StreamError>)
        requires
            old(self).wf(),
        ensures
            final(self).wf(),
            final(self).buf() == old(self).buf(),
            final(self).verifies_markers() == old(self).verifies_markers(),
            pos <= old(self).buf().len() ==> r is Ok && final(self).cursor() == pos,
            pos > old(self).buf().len() ==> r is Err && r->Err_0 == StreamError::UnexpectedEnd
                && *final(self) == *old(self),
    ;

    /// The current octet position of the cursor.
    fn stream_position(&self) -> (r: Result<u64, StreamError>)
        ensures
            r is Ok && r->Ok_0 as nat == self.cursor(),
    ;
}

/// The capability of being reconstructed from a readable octet stream.
///
/// This crate implements it for no concrete type: it is the seam through
/// which structured types compose the width-level primitives.
pub trait Deserialize: Sized {
    /// Builds a value by consuming octets from `stream`; the underlying
    /// buffer itself is never altered.
    fn deserialize<S: ReadOctetStream>(stream: &mut S) -> (r: Result<Self, StreamError>)
        requires
            old(stream).wf(),
        ensures
            final(stream).wf(),
            final(stream).buf() == old(stream).buf(),
    ;
}

/// The capability of writing oneself into a writable octet stream.
///
/// This crate implements it for no concrete type: it is the seam through
/// which structured types compose the width-level primitives.
pub trait Serialize: Sized {
    /// Encodes `self` by appending octets to `stream`.
    fn serialize<S: WriteOctetStream>(&self, stream: &mut S) -> (r: Result<(), StreamError>)
        requires
            old(stream).wf(),
        ensures
            final(stream).wf(),
    ;
}

/// The capability of being reconstructed directly from an octet buffer,
/// reporting how many octets were consumed.
pub trait BufferDeserializer: Sized {
    /// Builds a value from a prefix of `buf` and reports the length of that
    /// prefix.
    fn deserialize(buf: &[u8]) -> (r: Result<(Self, usize), StreamError>)
        ensures
            r is Ok ==> r->Ok_0.1 <= buf@.len(),
    ;
}

/// The capability of writing oneself into a caller-owned octet buffer,
/// reporting how many octets were written.
pub trait BufferSerializer: Sized {
    /// Encodes `self` into a prefix of `buf`, in place, and reports the
    /// length of that prefix; the buffer is never resized.
    fn serialize(&self, buf: &mut Vec<u8>) -> (r: Result<usize, StreamError>)
        ensures
            final(buf)@.len() == old(buf)@.len(),
            r is Ok ==> r->Ok_0 <= old(buf)@.len(),
    ;
}

} // verus!
