use bincode::Options;
use rust_cursor_bench::{test_serialize_bytesmut, test_serialize_cursor, MyStruct, ENCODED_SIZE};

fn rec(a: u64, b: u32, c: u8, d: bool, e: u16) -> MyStruct {
    MyStruct { a, b, c, d, e }
}

#[test]
fn record_from_index_zero() {
    let r = MyStruct::new(0);
    assert_eq!(r, rec(1, 2, 3, false, 0xAA55));
    assert_eq!(
        r.encode(),
        vec![0, 0, 0, 0, 0, 0, 0, 1, 0, 0, 0, 2, 3, 0, 0xAA, 0x55]
    );
}

#[test]
fn record_from_index_one() {
    let r = MyStruct::new(1);
    assert_eq!(r, rec(2, 3, 4, true, 0xAA55));
    assert_eq!(
        r.encode(),
        vec![0, 0, 0, 0, 0, 0, 0, 2, 0, 0, 0, 3, 4, 1, 0xAA, 0x55]
    );
}

#[test]
fn record_fields_wrap_at_their_width() {
    let r = MyStruct::new(253);
    assert_eq!(r, rec(254, 255, 0, true, 0xAA55));
    let r = MyStruct::new(300);
    assert_eq!(r.c, 47);
    assert!(!r.d);
}

#[test]
fn default_record_is_all_zero() {
    let r = MyStruct::default();
    assert_eq!(r, rec(0, 0, 0, false, 0));
    assert_eq!(r.encode(), vec![0u8; 16]);
}

#[test]
fn every_encoding_is_sixteen_bytes() {
    for r in [
        rec(0, 0, 0, false, 0),
        rec(u64::MAX, u32::MAX, u8::MAX, true, u16::MAX),
        MyStruct::new(12345),
    ] {
        assert_eq!(r.encode().len(), ENCODED_SIZE);
        assert_eq!(ENCODED_SIZE, 16);
    }
}

#[test]
fn big_endian_fields_decode_back() {
    let r = rec(0x0102_0304_0506_0708, 0x0A0B_0C0D, 0x7F, true, 0xBEEF);
    let v = r.encode();
    assert_eq!(u64::from_be_bytes(v[0..8].try_into().unwrap()), r.a);
    assert_eq!(u32::from_be_bytes(v[8..12].try_into().unwrap()), r.b);
    assert_eq!(v[12], r.c);
    assert_eq!(u16::from_be_bytes(v[14..16].try_into().unwrap()), r.e);
    assert_eq!(v[0], 0x01);
    assert_eq!(v[7], 0x08);
}

#[test]
fn boolean_field_is_byte_thirteen() {
    assert_eq!(rec(9, 9, 9, true, 9).encode()[13], 0x01);
    assert_eq!(rec(9, 9, 9, false, 9).encode()[13], 0x00);
}

#[test]
fn encoding_is_deterministic_across_sinks() {
    let r = MyStruct::new(41);
    let first = test_serialize_cursor(r);
    let second = test_serialize_bytesmut(r);
    assert_eq!(first, second);
    assert_eq!(first, r.encode());
    assert_eq!(test_serialize_cursor(r), first);
}

#[test]
fn bytesmut_sink_returns_the_encoding() {
    let r = MyStruct::new(7);
    let v = test_serialize_bytesmut(r);
    assert_eq!(v, vec![0, 0, 0, 0, 0, 0, 0, 8, 0, 0, 0, 9, 10, 1, 0xAA, 0x55]);
}

#[test]
fn matches_bincode_big_endian_fixint() {
    let opts = bincode::DefaultOptions::new()
        .with_big_endian()
        .with_fixint_encoding()
        .allow_trailing_bytes();
    for ii in [0usize, 1, 2, 255, 1000, 70000] {
        let r = MyStruct::new(ii);
        let expected = opts.serialize(&(r.a, r.b, r.c, r.d, r.e)).unwrap();
        assert_eq!(r.encode(), expected);
    }
}
