use bytes::BytesMut;
use rust_cursor_bench::{
    serialize_it, serialize_many, ByteSink, BytesSink, FixedBuffer, MyStruct, SinkError,
    SliceSink, WriterVec,
};

fn records(n: usize) -> Vec<MyStruct> {
    (0..n).map(MyStruct::new).collect()
}

fn expected(items: &[MyStruct]) -> Vec<u8> {
    let mut out = Vec::new();
    for r in items {
        out.extend_from_slice(&r.encode());
    }
    out
}

#[test]
fn writer_vec_appends_in_order() {
    let items = records(3);
    let mut w = WriterVec::with_capacity(48);
    let mut seen: Vec<u8> = Vec::new();
    for (k, r) in items.iter().enumerate() {
        assert_eq!(serialize_it(r, &mut w), Ok(()));
        assert_eq!(w.position(), 16 * (k + 1));
        let now = {
            let mut copy = WriterVec::new();
            serialize_many(&items[..=k], &mut copy).unwrap();
            copy.into_inner()
        };
        assert_eq!(&now[..seen.len()], &seen[..]);
        seen = now;
    }
    assert_eq!(w.into_inner(), expected(&items));
}

#[test]
fn write_bytes_reports_the_count() {
    let mut w = WriterVec::new();
    assert_eq!(w.write_bytes(&[1, 2, 3]), Ok(3));
    assert_eq!(w.write_bytes(&[]), Ok(0));
    assert_eq!(w.into_inner(), vec![1, 2, 3]);
}

#[test]
fn fixed_buffer_rejects_a_record_that_does_not_fit() {
    let mut f = FixedBuffer::new(20);
    let r = MyStruct::new(0);
    assert_eq!(serialize_it(&r, &mut f), Ok(()));
    assert_eq!(serialize_it(&r, &mut f), Err(SinkError::CapacityExhausted));
    assert_eq!(f.position(), 16);
    let mut want = r.encode();
    want.extend_from_slice(&[0, 0, 0, 0]);
    assert_eq!(f.into_inner(), want);
}

#[test]
fn empty_fixed_buffer_rejects_any_record() {
    let mut f = FixedBuffer::new(0);
    assert_eq!(
        serialize_it(&MyStruct::new(5), &mut f),
        Err(SinkError::CapacityExhausted)
    );
    assert_eq!(f.position(), 0);
    assert_eq!(f.write_bytes(&[]), Ok(0));
}

#[test]
fn slice_sink_writes_into_the_callers_storage() {
    let mut storage = [0xFFu8; 40];
    let items = records(3);
    {
        let mut s = SliceSink::new(&mut storage[..]);
        assert_eq!(serialize_many(&items, &mut s), Err(SinkError::CapacityExhausted));
        assert_eq!(s.position(), 32);
        assert_eq!(s.written(), &expected(&items[..2])[..]);
    }
    assert_eq!(&storage[..32], &expected(&items[..2])[..]);
    assert_eq!(&storage[32..], &[0xFFu8; 8][..]);
}

#[test]
fn serialize_many_stops_at_first_record_that_does_not_fit() {
    let items = records(5);
    let mut f = FixedBuffer::new(50);
    assert_eq!(serialize_many(&items, &mut f), Err(SinkError::CapacityExhausted));
    assert_eq!(f.position(), 48);
}

#[test]
fn growable_and_exact_fixed_buffers_agree() {
    let items = records(2048);
    let mut g = WriterVec::new();
    let mut f = FixedBuffer::new(items.len() * 16);
    let mut b = BytesSink::with_capacity(items.len() * 16);
    assert_eq!(serialize_many(&items, &mut g), Ok(()));
    assert_eq!(serialize_many(&items, &mut f), Ok(()));
    assert_eq!(serialize_many(&items, &mut b), Ok(()));
    let g = g.into_inner();
    assert_eq!(g.len(), 2048 * 16);
    assert_eq!(f.into_inner(), g);
    assert_eq!(b.into_inner(), g);
    let sum = g.iter().fold(0u8, |acc, x| acc.wrapping_add(*x));
    assert_eq!(sum, 24);
}

#[test]
fn bytes_sink_matches_bytesmut_appends() {
    let mut s = BytesSink::new();
    assert_eq!(s.write_bytes(&[4, 5]), Ok(2));
    assert_eq!(s.write_bytes(&[6]), Ok(1));
    assert_eq!(s.position(), 3);
    let mut direct = BytesMut::new();
    direct.extend_from_slice(&[4, 5, 6]);
    assert_eq!(s.into_inner(), direct.to_vec());
}
