use vstd::prelude::*;
use crate::sink::{ByteSink, SinkError};

verus! {

/// A sink over a slice that the caller owns: bytes are written from the front
/// of the slice, and a write that would pass its end fails.
pub struct SliceSink<'a> {
    buf: &'a mut [u8],
    pos: usize,
}

impl<'a> SliceSink<'a> {
    /// An empty sink over all of `buf`.
    pub fn new(buf: &'a mut [u8]) -> (r: SliceSink<'a>)
        ensures
            r.wf(),
            r.contents() == Seq::<u8>::empty(),
            r.limit() == Some(old(buf)@.len()),
    {
        let r = SliceSink { buf, pos: 0 };
        assert(r.buf@.subrange(0, 0) =~= Seq::<u8>::empty());
        r
    }

    /// The bytes written so far, as a view into the caller's slice.
    pub fn written(&self) -> (r: &[u8])
        requires
            self.wf(),
        ensures
            r@ == self.contents(),
    {
        &self.buf[0..self.pos]
    }
}

impl<'a> ByteSink for SliceSink<'a> {
    closed spec fn contents(&self) -> Seq<u8> {
        self.buf@.subrange(0, self.pos as int)
    }

    closed spec fn limit(&self) -> Option<nat> {
        Some(self.buf@.len())
    }

    closed spec fn wf(&self) -> bool {
        self.pos <= self.buf@.len()
    }

    proof fn lemma_within_limit(&self) {
    }

    fn position(&self) -> (r: usize) {
        self.pos
    }

    fn write_bytes(&mut self, data: &[u8]) -> (r: Result<usize, SinkError>) {
        let n = data.len();
        if n > self.buf.len() - self.pos {
            return Err(SinkError::CapacityExhausted);
        }
        let start = self.pos;
        let mut i: usize = 0;
        while i < n
            invariant
                i <= n,
                n == data@.len(),
                start == old(self).pos,
                self.pos == start,
                start + n <= self.buf.len(),
                self.buf@.len() == old(self).buf@.len(),
                forall|k: int| 0 <= k < start ==> self.buf@[k] == old(self).buf@[k],
                forall|k: int| 0 <= k < i ==> self.buf@[start + k] == data@[k],
            decreases n - i,
        {
            self.buf[start + i] = data[i];
            i = i + 1;
        }
        self.pos = start + n;
        assert(self.buf@.subrange(0, self.pos as int) =~= old(self).buf@.subrange(0, start as int)
            + data@);
        Ok(n)
    }
}

} // verus!
