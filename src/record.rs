use vstd::prelude::*;
use crate::wire::{be_bytes, be_value, pow256, push_be, lemma_be_bytes_len, lemma_be_round_trip};

verus! {

/// Number of bytes in the encoding of every record.
pub const ENCODED_SIZE: usize = 16;

/// A fixed-shape record of five fields.
#[derive(Debug, Clone, Copy, PartialEq, Eq, Structural)]
pub struct MyStruct {
    pub a: u64,
    pub b: u32,
    pub c: u8,
    pub d: bool,
    pub e: u16,
}

/// The byte that stands for a boolean.
pub open spec fn bool_byte(d: bool) -> u8 {
    if d {
        1
    } else {
        0
    }
}

/// The canonical encoding of a record: its fields in declaration order, each
/// at full width and most significant byte first, with nothing in between.
pub open spec fn encoding(r: MyStruct) -> Seq<u8> {
    be_bytes(r.a as nat, 8) + be_bytes(r.b as nat, 4) + seq![r.c] + seq![bool_byte(r.d)]
        + be_bytes(r.e as nat, 2)
}

impl MyStruct {
    /// The record that stands at position `ii` of a generated run: each counter
    /// field is `ii` plus a fixed offset, wrapped to the field's width.
    pub fn new(ii: usize) -> (r: Self)
        ensures
            r.a == (ii + 1) % 0x1_0000_0000_0000_0000,
            r.b == (ii + 2) % 0x1_0000_0000,
            r.c == (ii + 3) % 0x100,
            r.d == (ii % 2 == 1),
            r.e == 0xAA55,
    {
        let wide = ii as u64;
        let a = wide.wrapping_add(1);
        let b = (wide % 0x1_0000_0000) as u32;
        let c = (wide % 0x100) as u8;
        let r = MyStruct {
            a,
            b: b.wrapping_add(2),
            c: c.wrapping_add(3),
            d: ii % 2 == 1,
            e: 0xAA55,
        };
        assert(r.b == (ii + 2) % 0x1_0000_0000) by {
            assert(b == ii as int % 0x1_0000_0000);
        }
        r
    }

    /// The record's sixteen-byte encoding.
    pub fn encode(&self) -> (r: Vec<u8>)
        ensures
            r@ == encoding(*self),
    {
        let mut out: Vec<u8> = Vec::with_capacity(ENCODED_SIZE);
        push_be(&mut out, self.a, 8);
        push_be(&mut out, self.b as u64, 4);
        out.push(self.c);
        out.push(if self.d { 1u8 } else { 0u8 });
        push_be(&mut out, self.e as u64, 2);
        assert(out@ =~= encoding(*self));
        out
    }
}

impl Default for MyStruct {
    fn default() -> (r: Self)
        ensures
            r == (MyStruct { a: 0, b: 0, c: 0, d: false, e: 0 }),
    {
        MyStruct { a: 0, b: 0, c: 0, d: false, e: 0 }
    }
}

/// Every record encodes to exactly sixteen bytes.
pub proof fn lemma_encoded_size(r: MyStruct)
    ensures
        encoding(r).len() == ENCODED_SIZE,
{
    lemma_be_bytes_len(r.a as nat, 8);
    lemma_be_bytes_len(r.b as nat, 4);
    lemma_be_bytes_len(r.e as nat, 2);
}

/// Reading the encoding back field by field, most significant byte first,
/// gives the record's fields.
pub proof fn lemma_fields_round_trip(r: MyStruct)
    ensures
        be_value(encoding(r).subrange(0, 8)) == r.a,
        be_value(encoding(r).subrange(8, 12)) == r.b,
        encoding(r)[12] == r.c,
        be_value(encoding(r).subrange(14, 16)) == r.e,
{
    let ea = be_bytes(r.a as nat, 8);
    let eb = be_bytes(r.b as nat, 4);
    let ee = be_bytes(r.e as nat, 2);
    lemma_be_bytes_len(r.a as nat, 8);
    lemma_be_bytes_len(r.b as nat, 4);
    lemma_be_bytes_len(r.e as nat, 2);
    reveal_with_fuel(pow256, 9);
    assert(pow256(2) == 0x1_0000);
    assert(pow256(4) == 0x1_0000_0000);
    assert(pow256(8) == 0x1_0000_0000_0000_0000);
    lemma_be_round_trip(r.a as nat, 8);
    lemma_be_round_trip(r.b as nat, 4);
    lemma_be_round_trip(r.e as nat, 2);
    assert(encoding(r).subrange(0, 8) =~= ea);
    assert(encoding(r).subrange(8, 12) =~= eb);
    assert(encoding(r).subrange(14, 16) =~= ee);
}

/// The boolean field is the byte at offset 13: `1` for true, `0` for false.
pub proof fn lemma_bool_byte(r: MyStruct)
    ensures
        r.d ==> encoding(r)[13] == 1,
        !r.d ==> encoding(r)[13] == 0,
{
    lemma_be_bytes_len(r.a as nat, 8);
    lemma_be_bytes_len(r.b as nat, 4);
}

} // verus!
