//! The fixed-layout key capability.
//!
//! A hash-form outer map is keyed by an arbitrary fixed-width type. Across
//! the kernel boundary a key travels as a fixed-size byte block, so a key
//! type must say exactly which bytes stand for each value, and the encoding
//! must lose nothing. [`Pod`] captures that: a declared width, an encoding
//! into bytes of that width, and a decoding that inverts it.

use vstd::prelude::*;

verus! {

/// A fixed-layout type usable as an outer-map key: it encodes into exactly
/// `spec_key_size()` bytes and decodes back to the same value.
pub trait Pod: Sized {
    /// The key width, in bytes, as contracts see it.
    spec fn spec_key_size() -> u32;

    /// The byte encoding of a value, as contracts see it.
    spec fn as_bytes(&self) -> Seq<u8>;

    /// The value a byte block of the right width decodes to.
    spec fn of_bytes_spec(b: Seq<u8>) -> Self;

    /// Every encoding has the declared width and decodes back to its value.
    proof fn lemma_bytes_roundtrip(&self)
        ensures
            self.as_bytes().len() == Self::spec_key_size(),
            Self::of_bytes_spec(self.as_bytes()) == *self,
    ;

    /// Every byte block of the declared width is the encoding of the value
    /// it decodes to: the type covers its whole byte layout.
    proof fn lemma_of_bytes_roundtrip(b: Seq<u8>)
        requires
            b.len() == Self::spec_key_size(),
        ensures
            Self::of_bytes_spec(b).as_bytes() == b,
    ;

    /// The key width, in bytes.
    fn key_size() -> (r: u32)
        ensures
            r == Self::spec_key_size(),
    ;

    /// Encodes the value into its fixed-size byte block.
    fn to_bytes(&self) -> (r: Vec<u8>)
        ensures
            r@ == self.as_bytes(),
    ;

    /// Decodes a byte block of the declared width.
    fn of_bytes(b: &Vec<u8>) -> (r: Self)
        requires
            b@.len() == Self::spec_key_size(),
        ensures
            r == Self::of_bytes_spec(b@),
    ;
}

/// The little-endian byte encoding of a `u32`.
pub open spec fn u32_le_bytes(x: u32) -> Seq<u8> {
    seq![
        (x & 0xff) as u8,
        ((x >> 8) & 0xff) as u8,
        ((x >> 16) & 0xff) as u8,
        ((x >> 24) & 0xff) as u8,
    ]
}

/// The `u32` a little-endian 4-byte block decodes to.
pub open spec fn u32_of_le_bytes(b: Seq<u8>) -> u32 {
    (b[0] as u32 | (b[1] as u32) << 8 | (b[2] as u32) << 16 | (b[3] as u32) << 24) as u32
}

proof fn lemma_u32_le_roundtrip(x: u32)
    ensures
        u32_of_le_bytes(u32_le_bytes(x)) == x,
{
    let b = u32_le_bytes(x);
    let b0 = b[0];
    let b1 = b[1];
    let b2 = b[2];
    let b3 = b[3];
    assert((b0 as u32 | (b1 as u32) << 8 | (b2 as u32) << 16 | (b3 as u32) << 24) as u32 == x)
        by (bit_vector)
        requires
            b0 == (x & 0xff) as u8,
            b1 == ((x >> 8) & 0xff) as u8,
            b2 == ((x >> 16) & 0xff) as u8,
            b3 == ((x >> 24) & 0xff) as u8,
    ;
}

impl Pod for u32 {
    open spec fn spec_key_size() -> u32 {
        4
    }

    open spec fn as_bytes(&self) -> Seq<u8> {
        u32_le_bytes(*self)
    }

    open spec fn of_bytes_spec(b: Seq<u8>) -> u32 {
        u32_of_le_bytes(b)
    }

    proof fn lemma_bytes_roundtrip(&self) {
        lemma_u32_le_roundtrip(*self);
    }

    proof fn lemma_of_bytes_roundtrip(b: Seq<u8>) {
        let x = u32_of_le_bytes(b);
        let b0 = b[0];
        let b1 = b[1];
        let b2 = b[2];
        let b3 = b[3];
        assert((x & 0xff) as u8 == b0 && ((x >> 8) & 0xff) as u8 == b1 && ((x >> 16) & 0xff) as u8
            == b2 && ((x >> 24) & 0xff) as u8 == b3) by (bit_vector)
            requires
                x == (b0 as u32 | (b1 as u32) << 8 | (b2 as u32) << 16 | (b3 as u32) << 24) as u32,
        ;
        assert(u32_le_bytes(x) =~= b);
    }

    fn key_size() -> u32 {
        4
    }

    fn to_bytes(&self) -> (r: Vec<u8>) {
        let x = *self;
        let mut r: Vec<u8> = Vec::new();
        r.push((x & 0xff) as u8);
        r.push(((x >> 8) & 0xff) as u8);
        r.push(((x >> 16) & 0xff) as u8);
        r.push(((x >> 24) & 0xff) as u8);
        proof {
            assert(r@ =~= u32_le_bytes(x));
        }
        r
    }

    fn of_bytes(b: &Vec<u8>) -> (r: u32) {
        b[0] as u32 | (b[1] as u32) << 8 | (b[2] as u32) << 16 | (b[3] as u32) << 24
    }
}

/// The little-endian byte encoding of a `u64`.
pub open spec fn u64_le_bytes(x: u64) -> Seq<u8> {
    seq![
        (x & 0xff) as u8,
        ((x >> 8) & 0xff) as u8,
        ((x >> 16) & 0xff) as u8,
        ((x >> 24) & 0xff) as u8,
        ((x >> 32) & 0xff) as u8,
        ((x >> 40) & 0xff) as u8,
        ((x >> 48) & 0xff) as u8,
        ((x >> 56) & 0xff) as u8,
    ]
}

/// The `u64` a little-endian 8-byte block decodes to.
pub open spec fn u64_of_le_bytes(b: Seq<u8>) -> u64 {
    (b[0] as u64 | (b[1] as u64) << 8 | (b[2] as u64) << 16 | (b[3] as u64) << 24 | (b[4] as u64)
        << 32 | (b[5] as u64) << 40 | (b[6] as u64) << 48 | (b[7] as u64) << 56) as u64
}

proof fn lemma_u64_le_roundtrip(x: u64)
    ensures
        u64_of_le_bytes(u64_le_bytes(x)) == x,
{
    let b = u64_le_bytes(x);
    let b0 = b[0];
    let b1 = b[1];
    let b2 = b[2];
    let b3 = b[3];
    let b4 = b[4];
    let b5 = b[5];
    let b6 = b[6];
    let b7 = b[7];
    assert((b0 as u64 | (b1 as u64) << 8 | (b2 as u64) << 16 | (b3 as u64) << 24 | (b4 as u64)
        << 32 | (b5 as u64) << 40 | (b6 as u64) << 48 | (b7 as u64) << 56) as u64 == x)
        by (bit_vector)
        requires
            b0 == (x & 0xff) as u8,
            b1 == ((x >> 8) & 0xff) as u8,
            b2 == ((x >> 16) & 0xff) as u8,
            b3 == ((x >> 24) & 0xff) as u8,
            b4 == ((x >> 32) & 0xff) as u8,
            b5 == ((x >> 40) & 0xff) as u8,
            b6 == ((x >> 48) & 0xff) as u8,
            b7 == ((x >> 56) & 0xff) as u8,
    ;
}

impl Pod for u64 {
    open spec fn spec_key_size() -> u32 {
        8
    }

    open spec fn as_bytes(&self) -> Seq<u8> {
        u64_le_bytes(*self)
    }

    open spec fn of_bytes_spec(b: Seq<u8>) -> u64 {
        u64_of_le_bytes(b)
    }

    proof fn lemma_bytes_roundtrip(&self) {
        lemma_u64_le_roundtrip(*self);
    }

    proof fn lemma_of_bytes_roundtrip(b: Seq<u8>) {
        let x = u64_of_le_bytes(b);
        let b0 = b[0];
        let b1 = b[1];
        let b2 = b[2];
        let b3 = b[3];
        let b4 = b[4];
        let b5 = b[5];
        let b6 = b[6];
        let b7 = b[7];
        assert((x & 0xff) as u8 == b0 && ((x >> 8) & 0xff) as u8 == b1 && ((x >> 16) & 0xff) as u8
            == b2 && ((x >> 24) & 0xff) as u8 == b3 && ((x >> 32) & 0xff) as u8 == b4 && ((x >> 40)
            & 0xff) as u8 == b5 && ((x >> 48) & 0xff) as u8 == b6 && ((x >> 56) & 0xff) as u8 == b7)
            by (bit_vector)
            requires
                x == (b0 as u64 | (b1 as u64) << 8 | (b2 as u64) << 16 | (b3 as u64) << 24 | (
                b4 as u64) << 32 | (b5 as u64) << 40 | (b6 as u64) << 48 | (b7 as u64) << 56) as u64,
        ;
        assert(u64_le_bytes(x) =~= b);
    }

    fn key_size() -> u32 {
        8
    }

    fn to_bytes(&self) -> (r: Vec<u8>) {
        let x = *self;
        let mut r: Vec<u8> = Vec::new();
        r.push((x & 0xff) as u8);
        r.push(((x >> 8) & 0xff) as u8);
        r.push(((x >> 16) & 0xff) as u8);
        r.push(((x >> 24) & 0xff) as u8);
        r.push(((x >> 32) & 0xff) as u8);
        r.push(((x >> 40) & 0xff) as u8);
        r.push(((x >> 48) & 0xff) as u8);
        r.push(((x >> 56) & 0xff) as u8);
        proof {
            assert(r@ =~= u64_le_bytes(x));
        }
        r
    }

    fn of_bytes(b: &Vec<u8>) -> (r: u64) {
        b[0] as u64 | (b[1] as u64) << 8 | (b[2] as u64) << 16 | (b[3] as u64) << 24 | (b[4] as u64)
            << 32 | (b[5] as u64) << 40 | (b[6] as u64) << 48 | (b[7] as u64) << 56
    }
}

} // verus!
