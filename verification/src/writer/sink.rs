//! An in-memory byte sink with random access, the writer's target.
//!
//! The binary emitter must write placeholder fields and later seek back
//! and patch them; `MemSink` gives it exactly a growable byte buffer and a
//! write position.  `splice` is the specification of one write: it
//! overwrites from the position on and extends the buffer as needed.

use vstd::prelude::*;
use vstd::bytes::{u16_to_le_bytes, u32_to_le_bytes, u64_to_le_bytes};

verus! {

/// `s` with `r` written over it at `at`: positions before `at` and at or
/// after `at + r.len()` keep their bytes, and the result is as long as the
/// write requires.
pub open spec fn splice(s: Seq<u8>, at: int, r: Seq<u8>) -> Seq<u8> {
    Seq::new(
        (if s.len() >= at + r.len() {
            s.len() as int
        } else {
            at + r.len()
        }) as nat,
        |i: int|
            if at <= i < at + r.len() {
                r[i - at]
            } else {
                s[i]
            },
    )
}

/// Writing at the end appends.
pub proof fn lemma_splice_append(s: Seq<u8>, r: Seq<u8>)
    ensures
        splice(s, s.len() as int, r) =~= s + r,
{
}

/// Writing strictly inside `s == a + b + c`, over all of `b`, replaces `b`.
pub proof fn lemma_splice_middle(a: Seq<u8>, b: Seq<u8>, c: Seq<u8>, r: Seq<u8>)
    requires
        r.len() == b.len(),
    ensures
        splice(a + b + c, a.len() as int, r) =~= a + r + c,
{
}

/// A growable byte buffer with a write position, as the binary format's
/// seekable sink.
pub struct MemSink {
    /// The bytes written so far.
    pub data: Vec<u8>,
    /// The write position; never beyond the end of `data`.
    pub pos: usize,
}

impl MemSink {
    /// The position stays within the buffer.
    pub open spec fn wf(&self) -> bool {
        self.pos <= self.data@.len()
    }

    /// An empty sink.
    pub fn new() -> (r: Self)
        ensures
            r.wf(),
            r.data@ == Seq::<u8>::empty(),
            r.pos == 0,
    {
        MemSink { data: Vec::new(), pos: 0 }
    }

    /// The current write position.
    pub fn tell(&self) -> (r: usize)
        ensures
            r == self.pos,
    {
        self.pos
    }

    /// Moves the write position.
    pub fn seek_to(&mut self, p: usize)
        requires
            p <= old(self).data@.len(),
        ensures
            final(self).data == old(self).data,
            final(self).pos == p,
            final(self).wf(),
    {
        self.pos = p;
    }

    /// Moves the write position to the end of the buffer.
    pub fn seek_end(&mut self)
        ensures
            final(self).data == old(self).data,
            final(self).pos == final(self).data@.len(),
            final(self).wf(),
    {
        self.pos = self.data.len();
    }

    /// Consumes the sink and hands out its bytes.
    pub fn into_vec(self) -> (r: Vec<u8>)
        ensures
            r == self.data,
    {
        self.data
    }

    /// The bytes written so far.
    pub fn as_slice(&self) -> (r: &[u8])
        ensures
            r@ == self.data@,
    {
        self.data.as_slice()
    }

    /// Writes the bytes at the current position, overwriting what is there
    /// and extending the buffer as needed.
    pub fn write_bytes(&mut self, b: &[u8])
        requires
            old(self).wf(),
            old(self).pos + b@.len() <= usize::MAX,
        ensures
            final(self).data@ == splice(old(self).data@, old(self).pos as int, b@),
            final(self).pos == old(self).pos + b@.len(),
            final(self).wf(),
    {
        let n = b.len();
        let mut i: usize = 0;
        while i < n
            invariant
                i <= n == b@.len(),
                self.pos == old(self).pos + i,
                self.pos <= self.data@.len(),
                old(self).pos + n <= usize::MAX,
                self.data@ =~= splice(old(self).data@, old(self).pos as int, b@.take(i as int)),
            decreases n - i,
        {
            if self.pos < self.data.len() {
                self.data.set(self.pos, b[i]);
            } else {
                self.data.push(b[i]);
            }
            self.pos = self.pos + 1;
            i = i + 1;
            proof {
                assert(b@.take(i as int).drop_last() =~= b@.take(i - 1));
                assert(self.data@ =~= splice(
                    old(self).data@,
                    old(self).pos as int,
                    b@.take(i as int),
                ));
            }
        }
        proof {
            assert(b@.take(n as int) =~= b@);
        }
    }

    /// Writes one byte.
    pub fn write_u8(&mut self, v: u8)
        requires
            old(self).wf(),
            old(self).pos + 1 <= usize::MAX,
        ensures
            final(self).data@ == splice(old(self).data@, old(self).pos as int, seq![v]),
            final(self).pos == old(self).pos + 1,
            final(self).wf(),
    {
        let mut b: Vec<u8> = Vec::new();
        b.push(v);
        proof {
            assert(b@ =~= seq![v]);
        }
        self.write_bytes(b.as_slice());
    }

    /// Writes `n` zero bytes.
    pub fn write_zeros(&mut self, n: usize)
        requires
            old(self).wf(),
            old(self).pos + n <= usize::MAX,
        ensures
            final(self).data@ == splice(
                old(self).data@,
                old(self).pos as int,
                Seq::new(n as nat, |i: int| 0u8),
            ),
            final(self).pos == old(self).pos + n,
            final(self).wf(),
    {
        let ghost zeros = Seq::new(n as nat, |i: int| 0u8);
        let mut k: usize = 0;
        while k < n
            invariant
                k <= n,
                old(self).pos + n <= usize::MAX,
                self.wf(),
                self.pos == old(self).pos + k,
                self.data@ =~= splice(old(self).data@, old(self).pos as int, zeros.take(k as int)),
                zeros == Seq::new(n as nat, |i: int| 0u8),
            decreases n - k,
        {
            self.write_u8(0);
            k = k + 1;
            proof {
                assert(zeros.take(k as int).drop_last() =~= zeros.take(k - 1));
                assert(self.data@ =~= splice(
                    old(self).data@,
                    old(self).pos as int,
                    zeros.take(k as int),
                ));
            }
        }
        proof {
            assert(zeros.take(n as int) =~= zeros);
        }
    }

    /// Writes a `u16` little-endian.
    pub fn write_u16_le(&mut self, v: u16)
        requires
            old(self).wf(),
            old(self).pos + 2 <= usize::MAX,
        ensures
            final(self).data@ == splice(
                old(self).data@,
                old(self).pos as int,
                vstd::bytes::spec_u16_to_le_bytes(v),
            ),
            final(self).pos == old(self).pos + 2,
            final(self).wf(),
    {
        let b = u16_to_le_bytes(v);
        proof {
            vstd::bytes::lemma_auto_spec_u16_to_from_le_bytes();
        }
        self.write_bytes(b.as_slice());
    }

    /// Writes a `u32` little-endian.
    pub fn write_u32_le(&mut self, v: u32)
        requires
            old(self).wf(),
            old(self).pos + 4 <= usize::MAX,
        ensures
            final(self).data@ == splice(
                old(self).data@,
                old(self).pos as int,
                vstd::bytes::spec_u32_to_le_bytes(v),
            ),
            final(self).pos == old(self).pos + 4,
            final(self).wf(),
    {
        let b = u32_to_le_bytes(v);
        proof {
            vstd::bytes::lemma_auto_spec_u32_to_from_le_bytes();
        }
        self.write_bytes(b.as_slice());
    }

    /// Writes a `u64` little-endian.
    pub fn write_u64_le(&mut self, v: u64)
        requires
            old(self).wf(),
            old(self).pos + 8 <= usize::MAX,
        ensures
            final(self).data@ == splice(
                old(self).data@,
                old(self).pos as int,
                vstd::bytes::spec_u64_to_le_bytes(v),
            ),
            final(self).pos == old(self).pos + 8,
            final(self).wf(),
    {
        let b = u64_to_le_bytes(v);
        proof {
            vstd::bytes::lemma_auto_spec_u64_to_from_le_bytes();
        }
        self.write_bytes(b.as_slice());
    }
}

} // verus!
