//! Big-endian encoding of 64-bit numbers, the form in which heights and
//! indexes are stored.

use vstd::prelude::*;

verus! {

/// The 8 bytes of `v`, most significant first.
pub open spec fn be_bytes_spec(v: u64) -> Seq<u8> {
    seq![
        (v >> 56u64) as u8,
        (v >> 48u64) as u8,
        (v >> 40u64) as u8,
        (v >> 32u64) as u8,
        (v >> 24u64) as u8,
        (v >> 16u64) as u8,
        (v >> 8u64) as u8,
        v as u8,
    ]
}

/// `v.to_be_bytes()` as a vector.
pub fn be_bytes(v: u64) -> (r: Vec<u8>)
    ensures
        r@ == be_bytes_spec(v),
{
    let mut r: Vec<u8> = Vec::new();
    r.push((v >> 56u64) as u8);
    r.push((v >> 48u64) as u8);
    r.push((v >> 40u64) as u8);
    r.push((v >> 32u64) as u8);
    r.push((v >> 24u64) as u8);
    r.push((v >> 16u64) as u8);
    r.push((v >> 8u64) as u8);
    r.push(v as u8);
    assert(r@ =~= be_bytes_spec(v));
    r
}

/// The encoding is big-endian: byte 7 is the lowest byte of `v`, byte 0
/// the highest, each byte the base-256 digit of `v` at its place.
pub proof fn lemma_be_bytes_digits(v: u64)
    ensures
        be_bytes_spec(v).len() == 8,
        be_bytes_spec(v)[7] == v % 0x100,
        be_bytes_spec(v)[6] == (v / 0x100) % 0x100,
        be_bytes_spec(v)[5] == (v / 0x10000) % 0x100,
        be_bytes_spec(v)[4] == (v / 0x1000000) % 0x100,
        be_bytes_spec(v)[3] == (v / 0x100000000) % 0x100,
        be_bytes_spec(v)[2] == (v / 0x10000000000) % 0x100,
        be_bytes_spec(v)[1] == (v / 0x1000000000000) % 0x100,
        be_bytes_spec(v)[0] == (v / 0x100000000000000) % 0x100,
{
    assert(v as u8 == v % 0x100) by (bit_vector);
    assert((v >> 8u64) as u8 == (v / 0x100) % 0x100) by (bit_vector);
    assert((v >> 16u64) as u8 == (v / 0x10000) % 0x100) by (bit_vector);
    assert((v >> 24u64) as u8 == (v / 0x1000000) % 0x100) by (bit_vector);
    assert((v >> 32u64) as u8 == (v / 0x100000000) % 0x100) by (bit_vector);
    assert((v >> 40u64) as u8 == (v / 0x10000000000) % 0x100) by (bit_vector);
    assert((v >> 48u64) as u8 == (v / 0x1000000000000) % 0x100) by (bit_vector);
    assert((v >> 56u64) as u8 == (v / 0x100000000000000) % 0x100) by (bit_vector);
}

} // verus!
