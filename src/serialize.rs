use vstd::prelude::*;
use crate::record::{MyStruct, ENCODED_SIZE, encoding, lemma_encoded_size};
use crate::sink::{ByteSink, SinkError, has_room};
use crate::writer_vec::WriterVec;
use crate::bytes_sink::BytesSink;

verus! {

/// The encodings of `items`, one after another.
pub open spec fn encode_all(items: Seq<MyStruct>) -> Seq<u8>
    decreases items.len(),
{
    if items.len() == 0 {
        Seq::empty()
    } else {
        encode_all(items.drop_last()) + encoding(items.last())
    }
}

/// How many of `n` records, written one at a time, a sink with the given bound
/// and `len` bytes already in it takes before the first one that does not fit.
pub open spec fn fitting_records(limit: Option<nat>, len: nat, n: nat) -> nat {
    match limit {
        None => n,
        Some(cap) => if len + ENCODED_SIZE * n <= cap {
            n
        } else {
            ((cap - len) / (ENCODED_SIZE as int)) as nat
        },
    }
}

/// What a sink holds after `items` have been written into it one at a time,
/// stopping at the first record that does not fit.
pub open spec fn many_outcome(limit: Option<nat>, before: Seq<u8>, items: Seq<MyStruct>) -> Seq<u8> {
    before + encode_all(items.take(fitting_records(limit, before.len(), items.len()) as int))
}

pub proof fn lemma_encode_all_len(items: Seq<MyStruct>)
    ensures
        encode_all(items).len() == ENCODED_SIZE * items.len(),
    decreases items.len(),
{
    if items.len() > 0 {
        lemma_encode_all_len(items.drop_last());
        lemma_encoded_size(items.last());
    }
}

pub proof fn lemma_encode_all_step(items: Seq<MyStruct>, i: int)
    requires
        0 <= i < items.len(),
    ensures
        encode_all(items.take(i + 1)) == encode_all(items.take(i)) + encoding(items[i]),
{
    assert(items.take(i + 1).drop_last() =~= items.take(i));
}

/// Writing one record into two sinks, of whatever kind, adds the same bytes
/// to each: the record's encoding.
pub proof fn lemma_same_bytes_any_sink<A: ByteSink, B: ByteSink>(
    r: MyStruct,
    a_before: A,
    a_after: A,
    b_before: B,
    b_after: B,
)
    requires
        a_after.contents() == a_before.contents() + encoding(r),
        b_after.contents() == b_before.contents() + encoding(r),
    ensures
        a_after.contents().subrange(a_before.contents().len() as int, a_after.contents().len() as int)
            == b_after.contents().subrange(
            b_before.contents().len() as int,
            b_after.contents().len() as int,
        ),
{
    assert(a_after.contents().subrange(a_before.contents().len() as int, a_after.contents().len() as int)
        =~= encoding(r));
    assert(b_after.contents().subrange(b_before.contents().len() as int, b_after.contents().len() as int)
        =~= encoding(r));
}

/// Once `k` records have been written one at a time into an empty sink with
/// room for them, it holds `16 * k` bytes, and its first `16 * (k - 1)` bytes
/// are what it held after the first `k - 1` records.
pub proof fn lemma_append_only(limit: Option<nat>, items: Seq<MyStruct>, k: nat)
    requires
        1 <= k <= items.len(),
        has_room(limit, 0, (ENCODED_SIZE * k) as nat),
    ensures
        many_outcome(limit, Seq::empty(), items.take(k as int)).len() == ENCODED_SIZE * k,
        many_outcome(limit, Seq::empty(), items.take(k as int)).subrange(
            0,
            ENCODED_SIZE * (k - 1),
        ) == many_outcome(limit, Seq::empty(), items.take(k - 1)),
{
    let prev = items.take(k - 1);
    let cur = items.take(k as int);
    assert(cur.take(k as int) =~= cur);
    assert(prev.take(k - 1) =~= prev);
    lemma_encode_all_step(items, k - 1);
    lemma_encode_all_len(prev);
    lemma_encode_all_len(cur);
    assert(Seq::<u8>::empty() + encode_all(cur) =~= encode_all(cur));
    assert(Seq::<u8>::empty() + encode_all(prev) =~= encode_all(prev));
    assert(encode_all(cur).subrange(0, ENCODED_SIZE * (k - 1)) =~= encode_all(prev));
}

/// Writing the same records into an empty growable sink and into an empty
/// fixed sink of exactly their encoded size succeeds in both, and leaves both
/// holding the same bytes.
pub proof fn lemma_backend_equivalence(items: Seq<MyStruct>)
    ensures
        fitting_records(None, 0, items.len()) == items.len(),
        fitting_records(Some((ENCODED_SIZE * items.len()) as nat), 0, items.len()) == items.len(),
        many_outcome(None, Seq::empty(), items) == many_outcome(
            Some((ENCODED_SIZE * items.len()) as nat),
            Seq::empty(),
            items,
        ),
        many_outcome(None, Seq::empty(), items) == encode_all(items),
{
    assert(items.take(items.len() as int) =~= items);
    assert(Seq::<u8>::empty() + encode_all(items) =~= encode_all(items));
}

/// Writes the encoding of `item` into `sink`: all sixteen bytes, or none when
/// the sink has no room for them.
pub fn serialize_it<W: ByteSink>(item: &MyStruct, sink: &mut W) -> (r: Result<(), SinkError>)
    requires
        old(sink).wf(),
        old(sink).contents().len() + ENCODED_SIZE <= isize::MAX,
    ensures
        final(sink).wf(),
        final(sink).limit() == old(sink).limit(),
        r is Ok <==> has_room(old(sink).limit(), old(sink).contents().len(), ENCODED_SIZE as nat),
        r is Ok ==> final(sink).contents() == old(sink).contents() + encoding(*item),
        r is Err ==> final(sink).contents() == old(sink).contents(),
{
    let bytes = item.encode();
    proof {
        lemma_encoded_size(*item);
    }
    match sink.write_bytes(bytes.as_slice()) {
        Ok(_) => Ok(()),
        Err(e) => Err(e),
    }
}

/// Writes the encodings of `items` into `sink` in order, one record at a time;
/// stops with the error at the first record that does not fit, leaving the
/// records before it written.
pub fn serialize_many<W: ByteSink>(items: &[MyStruct], sink: &mut W) -> (r: Result<(), SinkError>)
    requires
        old(sink).wf(),
        old(sink).contents().len() + ENCODED_SIZE * items@.len() <= isize::MAX,
    ensures
        final(sink).wf(),
        final(sink).limit() == old(sink).limit(),
        final(sink).contents() == many_outcome(old(sink).limit(), old(sink).contents(), items@),
        r is Ok <==> fitting_records(old(sink).limit(), old(sink).contents().len(), items@.len())
            == items@.len(),
{
    let ghost before = sink.contents();
    let ghost limit = sink.limit();
    let ghost n = items@.len();
    proof {
        sink.lemma_within_limit();
        assert(items@.take(0) =~= Seq::<MyStruct>::empty());
        assert(sink.contents() =~= before + encode_all(items@.take(0)));
    }
    let mut i: usize = 0;
    while i < items.len()
        invariant
            sink.wf(),
            sink.limit() == limit,
            before == old(sink).contents(),
            limit == old(sink).limit(),
            n == items@.len(),
            i <= n,
            sink.contents() == before + encode_all(items@.take(i as int)),
            has_room(limit, before.len(), (ENCODED_SIZE * i) as nat),
            before.len() + ENCODED_SIZE * n <= isize::MAX,
            limit matches Some(cap) ==> before.len() <= cap,
        decreases n - i,
    {
        proof {
            lemma_encode_all_len(items@.take(i as int));
            lemma_encode_all_step(items@, i as int);
            assert(ENCODED_SIZE * i + ENCODED_SIZE <= ENCODED_SIZE * n) by (nonlinear_arith)
                requires
                    i < n,
            ;
        }
        match serialize_it(&items[i], sink) {
            Ok(()) => {},
            Err(e) => {
                proof {
                    let cap = limit->Some_0;
                    let b = before.len();
                    assert((cap - b) / 16 == i) by (nonlinear_arith)
                        requires
                            b + 16 * i <= cap,
                            b + 16 * i + 16 > cap,
                    ;
                    assert(!(b + 16 * n <= cap)) by (nonlinear_arith)
                        requires
                            b + 16 * i + 16 > cap,
                            i < n,
                    ;
                }
                return Err(e);
            },
        }
        proof {
            assert(sink.contents() =~= before + encode_all(items@.take(i + 1)));
        }
        i = i + 1;
    }
    proof {
        assert(items@.take(n as int) =~= items@);
    }
    Ok(())
}

/// Encodes `s` into a fresh growable buffer and hands back what was written.
pub fn test_serialize_cursor(s: MyStruct) -> (r: Vec<u8>)
    ensures
        r@ == encoding(s),
{
    let mut sink = WriterVec::new();
    let written = serialize_it(&s, &mut sink);
    assert(written is Ok);
    sink.into_inner()
}

/// Encodes `s` into a fresh `BytesMut`-backed sink and hands back what was
/// written.
pub fn test_serialize_bytesmut(s: MyStruct) -> (r: Vec<u8>)
    ensures
        r@ == encoding(s),
{
    let mut sink = BytesSink::new();
    let written = serialize_it(&s, &mut sink);
    assert(written is Ok);
    sink.into_inner()
}

} // verus!
