//! The owned readable stream: decodes big-endian values from a copied-in
//! buffer through a cursor.

use crate::endian::{decode_be, lemma_pow256_values};
use crate::{ReadOctetStream, SeekOctetStream, StreamError};
use vstd::pervasive::VecAdditionalExecFns;
use vstd::prelude::*;

verus! {

/// A readable octet stream over an owned buffer.
///
/// The cursor starts at the front and advances by exactly the width of each
/// successful read; a read past the end fails with
/// [`StreamError::UnexpectedEnd`] and consumes nothing.
pub struct InOctetStream {
    /// The whole underlying octet sequence.
    pub data: Vec<u8>,
    /// The number of octets consumed so far; never exceeds `data.len()`.
    pub pos: usize,
    /// Whether [`InOctetStream::verify_marker`] checks its sentinel octet.
    pub verify_markers: bool,
}

impl InOctetStream {
    /// Creates a stream over a copy of `data`, with the cursor at the front
    /// and marker verification disabled.
    pub fn new(data: &[u8]) -> (r: Self)
        ensures
            r.data@ == data@,
            r.pos == 0,
            r.verify_markers == false,
    {
        let mut copy: Vec<u8> = Vec::new();
        let mut i: usize = 0;
        while i < data.len()
            invariant
                i <= data@.len(),
                copy@ == data@.take(i as int),
            decreases data@.len() - i,
        {
            copy.push(data[i]);
            i = i + 1;
            proof {
                assert(copy@ =~= data@.take(i as int));
            }
        }
        proof {
            assert(data@.take(data@.len() as int) =~= data@);
        }
        Self { data: copy, pos: 0, verify_markers: false }
    }

    /// Creates a stream over `data` with the cursor already at `position`,
    /// as left there by an earlier consumer.
    pub fn new_from_cursor(data: Vec<u8>, position: usize) -> (r: Self)
        requires
            position <= data@.len(),
        ensures
            r.data@ == data@,
            r.pos == position,
            r.verify_markers == false,
    {
        Self { data, pos: position, verify_markers: false }
    }

    /// Consumes and checks one sentinel octet when marker verification is
    /// enabled; a no-op otherwise.  On a mismatch the cursor does not move
    /// and the error carries both the expected and the found octet.
    pub fn verify_marker(&mut self, expected: u8) -> (r: Result<(), StreamError>)
        requires
            old(self).pos <= old(self).data@.len(),
        ensures
            final(self).data@ == old(self).data@,
            final(self).verify_markers == old(self).verify_markers,
            final(self).pos <= final(self).data@.len(),
            !old(self).verify_markers ==> r is Ok && *final(self) == *old(self),
            old(self).verify_markers ==> {
                if old(self).pos == old(self).data@.len() {
                    r is Err && r->Err_0 == StreamError::UnexpectedEnd && *final(self) == *old(
                        self,
                    )
                } else if old(self).data@[old(self).pos as int] == expected {
                    r is Ok && final(self).pos == old(self).pos + 1
                } else {
                    r is Err && r->Err_0 == (StreamError::MarkerMismatch {
                        expected: expected,
                        found: old(self).data@[old(self).pos as int],
                    }) && *final(self) == *old(self)
                }
            },
    {
        if !self.verify_markers {
            return Ok(());
        }
        if self.pos >= self.data.len() {
            return Err(StreamError::UnexpectedEnd);
        }
        let found: u8 = self.data[self.pos];
        if found == expected {
            self.pos = self.pos + 1;
            Ok(())
        } else {
            Err(StreamError::MarkerMismatch { expected, found })
        }
    }
}

impl ReadOctetStream for InOctetStream {
    open spec fn wf(&self) -> bool {
        self.pos <= self.data@.len()
    }

    open spec fn buf(&self) -> Seq<u8> {
        self.data@
    }

    open spec fn cursor(&self) -> nat {
        self.pos as nat
    }

    open spec fn verifies_markers(&self) -> bool {
        self.verify_markers
    }

    proof fn cursor_in_bounds(&self) {
    }

    fn read(&mut self, v: &mut Vec<u8>) -> Result<(), StreamError> {
        let n: usize = v.len();
        if self.data.len() - self.pos < n {
            return Err(StreamError::UnexpectedEnd);
        }
        let dlen: usize = self.data.len();
        let mut i: usize = 0;
        while i < n
            invariant
                i <= n,
                v@.len() == n,
                self.pos + n <= dlen == self.data@.len(),
                self.pos == old(self).pos,
                self.data@ == old(self).data@,
                self.verify_markers == old(self).verify_markers,
                forall|j: int| 0 <= j < i ==> v@[j] == self.data@[self.pos + j],
            decreases n - i,
        {
            let b: u8 = self.data[self.pos + i];
            v.set(i, b);
            i = i + 1;
        }
        self.pos = self.pos + n;
        proof {
            assert(v@ =~= old(self).data@.subrange(
                old(self).pos as int,
                old(self).pos as int + n as int,
            ));
        }
        Ok(())
    }

    fn read_u64(&mut self) -> Result<u64, StreamError> {
        if self.data.len() - self.pos < 8 {
            return Err(StreamError::UnexpectedEnd);
        }
        let x: u64 = decode_be(self.data.as_slice(), self.pos, 8);
        self.pos = self.pos + 8;
        Ok(x)
    }

    fn read_i64(&mut self) -> Result<i64, StreamError> {
        if self.data.len() - self.pos < 8 {
            return Err(StreamError::UnexpectedEnd);
        }
        let x: u64 = decode_be(self.data.as_slice(), self.pos, 8);
        self.pos = self.pos + 8;
        Ok(x as i64)
    }

    fn read_u32(&mut self) -> Result<u32, StreamError> {
        if self.data.len() - self.pos < 4 {
            return Err(StreamError::UnexpectedEnd);
        }
        let x: u64 = decode_be(self.data.as_slice(), self.pos, 4);
        self.pos = self.pos + 4;
        proof {
            lemma_pow256_values();
        }
        Ok(x as u32)
    }

    fn read_i32(&mut self) -> Result<i32, StreamError> {
        if self.data.len() - self.pos < 4 {
            return Err(StreamError::UnexpectedEnd);
        }
        let x: u64 = decode_be(self.data.as_slice(), self.pos, 4);
        self.pos = self.pos + 4;
        proof {
            lemma_pow256_values();
        }
        Ok((x as u32) as i32)
    }

    fn read_u16(&mut self) -> Result<u16, StreamError> {
        if self.data.len() - self.pos < 2 {
            return Err(StreamError::UnexpectedEnd);
        }
        let x: u64 = decode_be(self.data.as_slice(), self.pos, 2);
        self.pos = self.pos + 2;
        proof {
            lemma_pow256_values();
        }
        Ok(x as u16)
    }

    fn read_i16(&mut self) -> Result<i16, StreamError> {
        if self.data.len() - self.pos < 2 {
            return Err(StreamError::UnexpectedEnd);
        }
        let x: u64 = decode_be(self.data.as_slice(), self.pos, 2);
        self.pos = self.pos + 2;
        proof {
            lemma_pow256_values();
        }
        Ok((x as u16) as i16)
    }

    fn read_u8(&mut self) -> Result<u8, StreamError> {
        if self.data.len() - self.pos < 1 {
            return Err(StreamError::UnexpectedEnd);
        }
        let b: u8 = self.data[self.pos];
        self.pos = self.pos + 1;
        Ok(b)
    }

    fn read_i8(&mut self) -> Result<i8, StreamError> {
        if self.data.len() - self.pos < 1 {
            return Err(StreamError::UnexpectedEnd);
        }
        let b: u8 = self.data[self.pos];
        self.pos = self.pos + 1;
        Ok(b as i8)
    }

    fn has_reached_end(&self) -> bool {
        self.pos == self.data.len()
    }
}

impl SeekOctetStream for InOctetStream {
    fn seek(&mut self, pos: u64) -> Result<(), StreamError> {
        if pos > self.data.len() as u64 {
            return Err(StreamError::UnexpectedEnd);
        }
        self.pos = pos as usize;
        Ok(())
    }

    fn stream_position(&self) -> Result<u64, StreamError> {
        Ok(self.pos as u64)
    }
}

} // verus!
