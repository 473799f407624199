//! The bounded writable stream: writes big-endian encodings into a
//! caller-supplied fixed-capacity buffer, failing — and committing nothing —
//! on any write that would overflow it.

use crate::endian::{be_bytes, encode_be};
use crate::{StreamError, WriteOctetStream};
use vstd::pervasive::VecAdditionalExecFns;
use vstd::prelude::*;

verus! {

/// Overwrites `dst[at .. at + src.len()]` with `src`, leaving every other
/// octet of `dst` as it was.
fn copy_at(dst: &mut Vec<u8>, at: usize, src: &[u8])
    requires
        at + src@.len() <= old(dst)@.len(),
    ensures
        final(dst)@.len() == old(dst)@.len(),
        final(dst)@ == old(dst)@.take(at as int) + src@ + old(dst)@.skip(
            at as int + src@.len() as int,
        ),
{
    let n: usize = src.len();
    let dlen: usize = dst.len();
    let mut i: usize = 0;
    while i < n
        invariant
            i <= n == src@.len(),
            at + n <= dlen == dst@.len(),
            dst@.len() == old(dst)@.len(),
            forall|j: int| 0 <= j < at ==> dst@[j] == old(dst)@[j],
            forall|j: int| 0 <= j < i ==> dst@[at + j] == src@[j],
            forall|j: int| at + i <= j < dst@.len() ==> dst@[j] == old(dst)@[j],
        decreases n - i,
    {
        let b: u8 = src[i];
        dst.set(at + i, b);
        i = i + 1;
    }
    proof {
        assert(dst@ =~= old(dst)@.take(at as int) + src@ + old(dst)@.skip(
            at as int + src@.len() as int,
        ));
    }
}

/// A writable octet stream over a fixed-capacity buffer handed in by the
/// caller.
///
/// Same encoding contract as [`crate::out_stream::OutOctetStream`], but the
/// buffer never grows: a write that needs more room than remains fails with
/// [`StreamError::CapacityExhausted`] and commits no octet at all.  Supports
/// zero-allocation serialization into pre-sized buffers.
pub struct OctetRefWriter {
    /// The caller's buffer; its length is the fixed capacity and never
    /// changes.
    pub data: Vec<u8>,
    /// How many octets have been written; never exceeds `data.len()`.
    pub offset: usize,
    /// Whether [`OctetRefWriter::write_marker`] emits its sentinel octet.
    pub emit_markers: bool,
}

impl OctetRefWriter {
    /// Takes over `data` as the destination buffer, with the write offset at
    /// the front and marker emission disabled.
    pub fn new(data: Vec<u8>) -> (r: Self)
        ensures
            r.data@ == data@,
            r.offset == 0,
            r.emit_markers == false,
    {
        Self { data, offset: 0, emit_markers: false }
    }

    /// The number of octets written so far.
    pub fn bytes_written(&self) -> (r: usize)
        ensures
            r == self.offset,
    {
        self.offset
    }

    /// The number of octets still free in the buffer.
    pub fn remaining_capacity(&self) -> (r: usize)
        requires
            self.offset <= self.data@.len(),
        ensures
            r == self.data@.len() - self.offset,
    {
        self.data.len() - self.offset
    }

    /// Checks that `additional` more octets fit; the error every write
    /// returns when they do not.
    fn ensure_capacity(&self, additional: usize) -> (r: Result<(), StreamError>)
        requires
            self.offset <= self.data@.len(),
        ensures
            r is Ok <==> self.offset + additional <= self.data@.len(),
            r is Ok ==> self.data@.len() <= usize::MAX,
            r is Err ==> r->Err_0 == StreamError::CapacityExhausted,
    {
        if self.data.len() - self.offset < additional {
            Err(StreamError::CapacityExhausted)
        } else {
            Ok(())
        }
    }

    /// A borrowed view of the whole buffer, written prefix and untouched
    /// tail alike.
    pub fn data(&self) -> (r: &[u8])
        ensures
            r@ == self.data@,
    {
        self.data.as_slice()
    }

    /// Writes the sentinel octet when marker emission is enabled; a no-op
    /// otherwise.  Like every write, it fails without committing anything
    /// when no room remains.
    pub fn write_marker(&mut self, sentinel: u8) -> (r: Result<(), StreamError>)
        requires
            old(self).offset <= old(self).data@.len(),
        ensures
            final(self).emit_markers == old(self).emit_markers,
            final(self).data@.len() == old(self).data@.len(),
            final(self).offset <= final(self).data@.len(),
            !old(self).emit_markers ==> r is Ok && *final(self) == *old(self),
            old(self).emit_markers && old(self).offset < old(self).data@.len() ==> r is Ok
                && final(self).offset == old(self).offset + 1 && final(self).data@ == old(
                self,
            ).data@.update(old(self).offset as int, sentinel),
            old(self).emit_markers && old(self).offset == old(self).data@.len() ==> r is Err
                && r->Err_0 == StreamError::CapacityExhausted && *final(self) == *old(self),
    {
        if !self.emit_markers {
            return Ok(());
        }
        if self.offset >= self.data.len() {
            return Err(StreamError::CapacityExhausted);
        }
        let at: usize = self.offset;
        self.data.set(at, sentinel);
        self.offset = at + 1;
        Ok(())
    }
}

/// A bounded stream commits by splicing: overwriting the window at the old
/// offset, octet for octet, keeps the buffer's length, the prefix before the
/// window, and every octet past it; the committed prefix grows by exactly
/// `bytes`.
proof fn lemma_bounded_commit(pre: OctetRefWriter, post: OctetRefWriter, bytes: Seq<u8>)
    requires
        pre.offset + bytes.len() <= pre.data@.len(),
        post.data@ == pre.data@.take(pre.offset as int) + bytes + pre.data@.skip(
            pre.offset as int + bytes.len() as int,
        ),
        post.offset == pre.offset + bytes.len(),
    ensures
        post.data@.len() == pre.data@.len(),
        post.data@.take(post.offset as int) == pre.data@.take(pre.offset as int) + bytes,
        post.data@.take(pre.offset as int) == pre.data@.take(pre.offset as int),
        post.data@.subrange(pre.offset as int, pre.offset as int + bytes.len() as int) == bytes,
        forall|j: int|
            pre.offset + bytes.len() <= j < pre.data@.len() ==> post.data@[j] == pre.data@[j],
{
    let at = pre.offset as int;
    let w = bytes.len() as int;
    assert(post.data@.len() == pre.data@.len());
    assert(post.data@.take(post.offset as int) =~= pre.data@.take(at) + bytes);
    assert(post.data@.take(at) =~= pre.data@.take(at));
    assert(post.data@.subrange(at, at + w) =~= bytes);
    assert(forall|j: int| at + w <= j < pre.data@.len() ==> post.data@[j] == pre.data@[j]);
}

impl WriteOctetStream for OctetRefWriter {
    open spec fn wf(&self) -> bool {
        self.offset <= self.data@.len()
    }

    /// The committed octets: the prefix of the buffer up to the offset.
    open spec fn written(&self) -> Seq<u8> {
        self.data@.take(self.offset as int)
    }

    open spec fn raw(&self) -> Seq<u8> {
        self.data@
    }

    open spec fn pos(&self) -> nat {
        self.offset as nat
    }

    open spec fn emits_markers(&self) -> bool {
        self.emit_markers
    }

    open spec fn fits(&self, extra: nat) -> bool {
        self.offset + extra <= self.data@.len()
    }

    proof fn written_is_raw_prefix(&self) {
    }

    fn write(&mut self, v: &[u8]) -> Result<(), StreamError> {
        match self.ensure_capacity(v.len()) {
            Err(e) => Err(e),
            Ok(_) => {
                let at: usize = self.offset;
                copy_at(&mut self.data, at, v);
                self.offset = at + v.len();
                proof {
                    lemma_bounded_commit(*old(self), *self, v@);
                }
                Ok(())
            },
        }
    }

    fn write_u64(&mut self, v: u64) -> Result<(), StreamError> {
        match self.ensure_capacity(8) {
            Err(e) => Err(e),
            Ok(_) => {
                let bytes: Vec<u8> = encode_be(v, 8);
                let at: usize = self.offset;
                copy_at(&mut self.data, at, bytes.as_slice());
                self.offset = at + 8;
                proof {
                    lemma_bounded_commit(*old(self), *self, be_bytes(v as nat, 8));
                }
                Ok(())
            },
        }
    }

    fn write_i64(&mut self, v: i64) -> Result<(), StreamError> {
        match self.ensure_capacity(8) {
            Err(e) => Err(e),
            Ok(_) => {
                let bytes: Vec<u8> = encode_be(v as u64, 8);
                let at: usize = self.offset;
                copy_at(&mut self.data, at, bytes.as_slice());
                self.offset = at + 8;
                proof {
                    lemma_bounded_commit(*old(self), *self, be_bytes(
                        (v as u64) as nat,
                        8,
                    ));
                }
                Ok(())
            },
        }
    }

    fn write_u32(&mut self, v: u32) -> Result<(), StreamError> {
        match self.ensure_capacity(4) {
            Err(e) => Err(e),
            Ok(_) => {
                let bytes: Vec<u8> = encode_be(v as u64, 4);
                let at: usize = self.offset;
                copy_at(&mut self.data, at, bytes.as_slice());
                self.offset = at + 4;
                proof {
                    lemma_bounded_commit(*old(self), *self, be_bytes(v as nat, 4));
                }
                Ok(())
            },
        }
    }

    fn write_i32(&mut self, v: i32) -> Result<(), StreamError> {
        match self.ensure_capacity(4) {
            Err(e) => Err(e),
            Ok(_) => {
                let bytes: Vec<u8> = encode_be((v as u32) as u64, 4);
                let at: usize = self.offset;
                copy_at(&mut self.data, at, bytes.as_slice());
                self.offset = at + 4;
                proof {
                    lemma_bounded_commit(*old(self), *self, be_bytes(
                        (v as u32) as nat,
                        4,
                    ));
                }
                Ok(())
            },
        }
    }

    fn write_u16(&mut self, v: u16) -> Result<(), StreamError> {
        match self.ensure_capacity(2) {
            Err(e) => Err(e),
            Ok(_) => {
                let bytes: Vec<u8> = encode_be(v as u64, 2);
                let at: usize = self.offset;
                copy_at(&mut self.data, at, bytes.as_slice());
                self.offset = at + 2;
                proof {
                    lemma_bounded_commit(*old(self), *self, be_bytes(v as nat, 2));
                }
                Ok(())
            },
        }
    }

    fn write_i16(&mut self, v: i16) -> Result<(), StreamError> {
        match self.ensure_capacity(2) {
            Err(e) => Err(e),
            Ok(_) => {
                let bytes: Vec<u8> = encode_be((v as u16) as u64, 2);
                let at: usize = self.offset;
                copy_at(&mut self.data, at, bytes.as_slice());
                self.offset = at + 2;
                proof {
                    lemma_bounded_commit(*old(self), *self, be_bytes(
                        (v as u16) as nat,
                        2,
                    ));
                }
                Ok(())
            },
        }
    }

    fn write_u8(&mut self, v: u8) -> Result<(), StreamError> {
        match self.ensure_capacity(1) {
            Err(e) => Err(e),
            Ok(_) => {
                let bytes: Vec<u8> = encode_be(v as u64, 1);
                let at: usize = self.offset;
                copy_at(&mut self.data, at, bytes.as_slice());
                self.offset = at + 1;
                proof {
                    lemma_bounded_commit(*old(self), *self, be_bytes(v as nat, 1));
                }
                Ok(())
            },
        }
    }

    fn write_i8(&mut self, v: i8) -> Result<(), StreamError> {
        match self.ensure_capacity(1) {
            Err(e) => Err(e),
            Ok(_) => {
                let bytes: Vec<u8> = encode_be((v as u8) as u64, 1);
                let at: usize = self.offset;
                copy_at(&mut self.data, at, bytes.as_slice());
                self.offset = at + 1;
                proof {
                    lemma_bounded_commit(*old(self), *self, be_bytes(
                        (v as u8) as nat,
                        1,
                    ));
                }
                Ok(())
            },
        }
    }
}

} // verus!
