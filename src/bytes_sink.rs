use vstd::prelude::*;
use bytes::BytesMut;
use crate::sink::{ByteSink, SinkError};

verus! {

#[verifier::external_type_specification]
#[verifier::external_body]
pub struct ExBytesMut(BytesMut);

/// The bytes that a `BytesMut` holds, in order.
pub uninterp spec fn bytes_mut_contents(b: BytesMut) -> Seq<u8>;

/// Relies on `bytes::BytesMut::new`: the buffer it returns holds no bytes.
pub assume_specification[ BytesMut::new ]() -> (r: BytesMut)
    ensures
        bytes_mut_contents(r) == Seq::<u8>::empty(),
;

/// Relies on `bytes::BytesMut::with_capacity`: the buffer it returns holds no
/// bytes, whatever room it reserved. It allocates through `Vec::with_capacity`,
/// which panics past `isize::MAX` bytes.
pub assume_specification[ BytesMut::with_capacity ](capacity: usize) -> (r: BytesMut)
    requires
        capacity <= isize::MAX,
    ensures
        bytes_mut_contents(r) == Seq::<u8>::empty(),
;

/// Relies on `bytes::BytesMut::extend_from_slice`: the given bytes follow the
/// ones already held. It reserves room first, which panics when the new length
/// overflows `usize` or the backing `Vec` would pass `isize::MAX` bytes; the
/// buffers here are never advanced or split, so no offset adds to that length.
pub assume_specification[ BytesMut::extend_from_slice ](b: &mut BytesMut, extend: &[u8])
    requires
        bytes_mut_contents(*old(b)).len() + extend@.len() <= isize::MAX,
    ensures
        bytes_mut_contents(*final(b)) == bytes_mut_contents(*old(b)) + extend@,
;

/// Relies on `bytes::BytesMut::len`: the number of bytes held.
pub assume_specification[ BytesMut::len ](b: &BytesMut) -> (r: usize)
    ensures
        r == bytes_mut_contents(*b).len(),
;

/// Relies on `impl From<BytesMut> for Vec<u8>` of the bytes crate: the vector
/// holds the buffer's bytes.
#[verifier::external_body]
fn bytes_mut_into_vec(b: BytesMut) -> (r: Vec<u8>)
    ensures
        r@ == bytes_mut_contents(b),
{
    Vec::from(b)
}

/// A growable sink over a `bytes::BytesMut`, appending without an adapter in
/// between.
pub struct BytesSink {
    buf: BytesMut,
}

impl BytesSink {
    /// An empty sink.
    pub fn new() -> (r: Self)
        ensures
            r.wf(),
            r.contents() == Seq::<u8>::empty(),
            r.limit() is None,
    {
        BytesSink { buf: BytesMut::new() }
    }

    /// An empty sink with room reserved for `n` bytes.
    pub fn with_capacity(n: usize) -> (r: Self)
        requires
            n <= isize::MAX,
        ensures
            r.wf(),
            r.contents() == Seq::<u8>::empty(),
            r.limit() is None,
    {
        BytesSink { buf: BytesMut::with_capacity(n) }
    }

    /// The bytes written so far.
    pub fn into_inner(self) -> (r: Vec<u8>)
        ensures
            r@ == self.contents(),
    {
        bytes_mut_into_vec(self.buf)
    }
}

impl ByteSink for BytesSink {
    closed spec fn contents(&self) -> Seq<u8> {
        bytes_mut_contents(self.buf)
    }

    open spec fn limit(&self) -> Option<nat> {
        None
    }

    open spec fn wf(&self) -> bool {
        true
    }

    proof fn lemma_within_limit(&self) {
    }

    fn position(&self) -> (r: usize) {
        self.buf.len()
    }

    fn write_bytes(&mut self, data: &[u8]) -> (r: Result<usize, SinkError>) {
        self.buf.extend_from_slice(data);
        Ok(data.len())
    }
}

} // verus!
