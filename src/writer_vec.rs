use vstd::prelude::*;
use crate::sink::{ByteSink, SinkError};

verus! {

/// A growable sink over a `Vec<u8>`.
pub struct WriterVec(Vec<u8>);

impl WriterVec {
    /// An empty sink.
    pub fn new() -> (r: Self)
        ensures
            r.wf(),
            r.contents() == Seq::<u8>::empty(),
            r.limit() is None,
    {
        WriterVec(Vec::new())
    }

    /// An empty sink with room reserved for `n` bytes.
    pub fn with_capacity(n: usize) -> (r: Self)
        ensures
            r.wf(),
            r.contents() == Seq::<u8>::empty(),
            r.limit() is None,
    {
        WriterVec(Vec::with_capacity(n))
    }

    /// The bytes written so far.
    pub fn into_inner(self) -> (r: Vec<u8>)
        ensures
            r@ == self.contents(),
    {
        self.0
    }
}

impl ByteSink for WriterVec {
    closed spec fn contents(&self) -> Seq<u8> {
        self.0@
    }

    open spec fn limit(&self) -> Option<nat> {
        None
    }

    open spec fn wf(&self) -> bool {
        true
    }

    proof fn lemma_within_limit(&self) {
    }

    fn position(&self) -> (r: usize) {
        self.0.len()
    }

    fn write_bytes(&mut self, data: &[u8]) -> (r: Result<usize, SinkError>) {
        self.0.extend_from_slice(data);
        assert(self.0@ =~= old(self).0@ + data@);
        Ok(data.len())
    }
}

} // verus!
