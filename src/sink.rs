use vstd::prelude::*;

verus! {

/// The one way a write can fail: the destination cannot hold the bytes.
#[derive(Debug, Clone, Copy, PartialEq, Eq, Structural)]
pub enum SinkError {
    CapacityExhausted,
}

/// Whether a sink with the given bound, holding `len` bytes, can take `n` more.
/// A sink without a bound (`None`) always can.
pub open spec fn has_room(limit: Option<nat>, len: nat, n: nat) -> bool {
    match limit {
        None => true,
        Some(cap) => len + n <= cap,
    }
}

/// A destination for bytes with an append-only, monotonically advancing
/// position.
pub trait ByteSink: Sized {
    /// The bytes accepted so far, in order.
    spec fn contents(&self) -> Seq<u8>;

    /// The most bytes the sink can ever hold, or `None` where it grows as needed.
    spec fn limit(&self) -> Option<nat>;

    /// The sink's internal invariant.
    spec fn wf(&self) -> bool;

    /// A well-formed sink never holds more than its bound.
    proof fn lemma_within_limit(&self)
        requires
            self.wf(),
        ensures
            self.limit() matches Some(cap) ==> self.contents().len() <= cap,
    ;

    /// Number of bytes written so far.
    fn position(&self) -> (r: usize)
        requires
            self.wf(),
        ensures
            r == self.contents().len(),
    ;

    /// Appends all of `data`, or nothing when the sink has no room for it.
    fn write_bytes(&mut self, data: &[u8]) -> (r: Result<usize, SinkError>)
        requires
            old(self).wf(),
            old(self).contents().len() + data@.len() <= isize::MAX,
        ensures
            final(self).wf(),
            final(self).limit() == old(self).limit(),
            r is Ok <==> has_room(old(self).limit(), old(self).contents().len(), data@.len()),
            r matches Ok(n) ==> n == data@.len() && final(self).contents() == old(self).contents()
                + data@,
            r is Err ==> final(self).contents() == old(self).contents(),
    ;
}

} // verus!
