use vstd::prelude::*;
use crate::sink::{ByteSink, SinkError};

verus! {

/// A sink over storage of a size fixed at construction, filled with zeros
/// and overwritten from the front; a write that would pass its end fails.
pub struct FixedBuffer {
    buf: Vec<u8>,
    pos: usize,
}

/// `n` zero bytes.
pub open spec fn zeros(n: nat) -> Seq<u8> {
    Seq::new(n, |i: int| 0u8)
}

impl FixedBuffer {
    /// An empty sink that can hold exactly `capacity` bytes.
    pub fn new(capacity: usize) -> (r: Self)
        ensures
            r.wf(),
            r.contents() == Seq::<u8>::empty(),
            r.limit() == Some(capacity as nat),
    {
        let r = FixedBuffer { buf: vec![0u8; capacity], pos: 0 };
        assert(r.buf@.subrange(0, 0) =~= Seq::<u8>::empty());
        r
    }

    /// The whole storage: the bytes written, then zeros up to the capacity.
    pub fn into_inner(self) -> (r: Vec<u8>)
        requires
            self.wf(),
        ensures
            self.limit() matches Some(cap) && r@ == self.contents() + zeros(
                (cap - self.contents().len()) as nat,
            ),
    {
        let ghost written = self.contents();
        assert(self.buf@ =~= written + zeros((self.buf@.len() - self.pos) as nat));
        self.buf
    }
}

impl ByteSink for FixedBuffer {
    closed spec fn contents(&self) -> Seq<u8> {
        self.buf@.subrange(0, self.pos as int)
    }

    closed spec fn limit(&self) -> Option<nat> {
        Some(self.buf@.len())
    }

    closed spec fn wf(&self) -> bool {
        &&& self.pos <= self.buf@.len()
        &&& forall|i: int| self.pos <= i < self.buf@.len() ==> self.buf@[i] == 0
    }

    proof fn lemma_within_limit(&self) {
    }

    fn position(&self) -> (r: usize) {
        self.pos
    }

    fn write_bytes(&mut self, data: &[u8]) -> (r: Result<usize, SinkError>) {
        let n = data.len();
        if n > self.buf.len() - self.pos {
            return Err(SinkError::CapacityExhausted);
        }
        let start = self.pos;
        let mut i: usize = 0;
        while i < n
            invariant
                i <= n,
                n == data@.len(),
                start == old(self).pos,
                self.pos == start,
                start + n <= self.buf.len(),
                self.buf@.len() == old(self).buf@.len(),
                forall|k: int| 0 <= k < start ==> self.buf@[k] == old(self).buf@[k],
                forall|k: int| 0 <= k < i ==> self.buf@[start + k] == data@[k],
                forall|k: int| start + i <= k < self.buf@.len() ==> self.buf@[k] == 0,
            decreases n - i,
        {
            self.buf[start + i] = data[i];
            i = i + 1;
        }
        self.pos = start + n;
        assert(self.buf@.subrange(0, self.pos as int) =~= old(self).buf@.subrange(0, start as int)
            + data@);
        Ok(n)
    }
}

} // verus!
