//! The growable writable stream: appends big-endian encodings to an owned
//! buffer that can always make room.

use crate::endian::{be_bytes, encode_be};
use crate::{StreamError, WriteOctetStream};
use vstd::prelude::*;

verus! {

/// A writable octet stream over an owned, growable buffer.
///
/// Writes always succeed: the buffer grows as needed, and each successful
/// write appends exactly the big-endian encoding of its value.
pub struct OutOctetStream {
    /// The octets accumulated so far.
    pub data: Vec<u8>,
    /// Whether [`OutOctetStream::write_marker`] emits its sentinel octet.
    pub emit_markers: bool,
}

impl OutOctetStream {
    /// Creates an empty stream with marker emission disabled.
    pub fn new() -> (r: Self)
        ensures
            r.data@ == Seq::<u8>::empty(),
            r.emit_markers == false,
    {
        Self { data: Vec::new(), emit_markers: false }
    }

    /// Returns an owned copy of the accumulated octets.
    pub fn octets(&self) -> (r: Vec<u8>)
        ensures
            r@ == self.data@,
    {
        let mut out: Vec<u8> = Vec::new();
        let mut i: usize = 0;
        while i < self.data.len()
            invariant
                i <= self.data@.len(),
                out@ == self.data@.take(i as int),
            decreases self.data@.len() - i,
        {
            out.push(self.data[i]);
            i = i + 1;
            proof {
                assert(out@ =~= self.data@.take(i as int));
            }
        }
        proof {
            assert(self.data@.take(self.data@.len() as int) =~= self.data@);
        }
        out
    }

    /// Returns a borrowed view of the accumulated octets; the zero-copy way
    /// to hand them to a reader.
    pub fn octets_ref(&self) -> (r: &[u8])
        ensures
            r@ == self.data@,
    {
        self.data.as_slice()
    }

    /// Appends the sentinel octet when marker emission is enabled; a no-op
    /// otherwise.
    pub fn write_marker(&mut self, sentinel: u8) -> (r: Result<(), StreamError>)
        ensures
            r is Ok,
            final(self).emit_markers == old(self).emit_markers,
            old(self).emit_markers ==> final(self).data@ == old(self).data@.push(sentinel),
            !old(self).emit_markers ==> *final(self) == *old(self),
    {
        if self.emit_markers {
            self.data.push(sentinel);
        }
        Ok(())
    }
}

impl Default for OutOctetStream {
    /// Same as [`OutOctetStream::new`].
    fn default() -> (r: Self)
        ensures
            r.data@ == Seq::<u8>::empty(),
            r.emit_markers == false,
    {
        Self::new()
    }
}

/// A growable stream commits by plain concatenation: appending `bytes`
/// keeps the old octets as the prefix and puts `bytes` in the window that
/// starts at the old length.
proof fn lemma_grow_commit(pre: OutOctetStream, post: OutOctetStream, bytes: Seq<u8>)
    requires
        post.data@ == pre.data@ + bytes,
    ensures
        post.data@.take(pre.data@.len() as int) == pre.data@.take(pre.data@.len() as int),
        post.data@.subrange(
            pre.data@.len() as int,
            pre.data@.len() as int + bytes.len() as int,
        ) == bytes,
{
    let at = pre.data@.len() as int;
    let w = bytes.len() as int;
    assert(post.data@.take(at) =~= pre.data@.take(at));
    assert(post.data@.subrange(at, at + w) =~= bytes);
}

impl WriteOctetStream for OutOctetStream {
    /// A growable stream is well formed in every state.
    open spec fn wf(&self) -> bool {
        true
    }

    open spec fn written(&self) -> Seq<u8> {
        self.data@
    }

    open spec fn raw(&self) -> Seq<u8> {
        self.data@
    }

    /// Everything in a growable stream is committed: the position is the
    /// whole length.
    open spec fn pos(&self) -> nat {
        self.data@.len()
    }

    open spec fn emits_markers(&self) -> bool {
        self.emit_markers
    }

    /// A growable stream always has room.
    open spec fn fits(&self, extra: nat) -> bool {
        true
    }

    proof fn written_is_raw_prefix(&self) {
        assert(self.data@.take(self.data@.len() as int) =~= self.data@);
    }

    fn write(&mut self, v: &[u8]) -> Result<(), StreamError> {
        let mut i: usize = 0;
        proof {
            assert(self.data@ =~= old(self).data@ + v@.take(0));
        }
        while i < v.len()
            invariant
                i <= v@.len(),
                self.data@ == old(self).data@ + v@.take(i as int),
                self.emit_markers == old(self).emit_markers,
            decreases v@.len() - i,
        {
            let b: u8 = v[i];
            self.data.push(b);
            i = i + 1;
            proof {
                assert(self.data@ =~= old(self).data@ + v@.take(i as int));
            }
        }
        proof {
            assert(v@.take(v@.len() as int) =~= v@);
            lemma_grow_commit(*old(self), *self, v@);
        }
        Ok(())
    }

    fn write_u64(&mut self, v: u64) -> Result<(), StreamError> {
        let mut bytes: Vec<u8> = encode_be(v, 8);
        self.data.append(&mut bytes);
        proof {
            lemma_grow_commit(*old(self), *self, be_bytes(v as nat, 8));
        }
        Ok(())
    }

    fn write_i64(&mut self, v: i64) -> Result<(), StreamError> {
        let mut bytes: Vec<u8> = encode_be(v as u64, 8);
        self.data.append(&mut bytes);
        proof {
            lemma_grow_commit(*old(self), *self, be_bytes((v as u64) as nat, 8));
        }
        Ok(())
    }

    fn write_u32(&mut self, v: u32) -> Result<(), StreamError> {
        let mut bytes: Vec<u8> = encode_be(v as u64, 4);
        self.data.append(&mut bytes);
        proof {
            lemma_grow_commit(*old(self), *self, be_bytes(v as nat, 4));
        }
        Ok(())
    }

    fn write_i32(&mut self, v: i32) -> Result<(), StreamError> {
        let mut bytes: Vec<u8> = encode_be((v as u32) as u64, 4);
        self.data.append(&mut bytes);
        proof {
            lemma_grow_commit(*old(self), *self, be_bytes((v as u32) as nat, 4));
        }
        Ok(())
    }

    fn write_u16(&mut self, v: u16) -> Result<(), StreamError> {
        let mut bytes: Vec<u8> = encode_be(v as u64, 2);
        self.data.append(&mut bytes);
        proof {
            lemma_grow_commit(*old(self), *self, be_bytes(v as nat, 2));
        }
        Ok(())
    }

    fn write_i16(&mut self, v: i16) -> Result<(), StreamError> {
        let mut bytes: Vec<u8> = encode_be((v as u16) as u64, 2);
        self.data.append(&mut bytes);
        proof {
            lemma_grow_commit(*old(self), *self, be_bytes((v as u16) as nat, 2));
        }
        Ok(())
    }

    fn write_u8(&mut self, v: u8) -> Result<(), StreamError> {
        let mut bytes: Vec<u8> = encode_be(v as u64, 1);
        self.data.append(&mut bytes);
        proof {
            lemma_grow_commit(*old(self), *self, be_bytes(v as nat, 1));
        }
        Ok(())
    }

    fn write_i8(&mut self, v: i8) -> Result<(), StreamError> {
        let mut bytes: Vec<u8> = encode_be((v as u8) as u64, 1);
        self.data.append(&mut bytes);
        proof {
            lemma_grow_commit(*old(self), *self, be_bytes((v as u8) as nat, 1));
        }
        Ok(())
    }
}

} // verus!
