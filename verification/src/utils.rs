//! Big-endian encodings of integers, and the byte that a one-byte field
//! keeps of a wider value.

use vstd::prelude::*;

verus! {

/// The 4 bytes of `x`, most significant first.
pub open spec fn u32_be_bytes(x: u32) -> Seq<u8> {
    seq![(x >> 24) as u8, (x >> 16) as u8, (x >> 8) as u8, x as u8]
}

/// The 8 bytes of `x`, most significant first.
pub open spec fn u64_be_bytes(x: u64) -> Seq<u8> {
    seq![
        (x >> 56) as u8,
        (x >> 48) as u8,
        (x >> 40) as u8,
        (x >> 32) as u8,
        (x >> 24) as u8,
        (x >> 16) as u8,
        (x >> 8) as u8,
        x as u8,
    ]
}

/// The big-endian encoding of `value` in 4 bytes.
pub fn u32_to_bytes(value: u32) -> (out: [u8; 4])
    ensures
        out@ == u32_be_bytes(value),
{
    let out: [u8; 4] = [
        #[verifier::truncate]
        ((value >> 24) as u8),
        #[verifier::truncate]
        ((value >> 16) as u8),
        #[verifier::truncate]
        ((value >> 8) as u8),
        #[verifier::truncate]
        (value as u8),
    ];
    assert(out@ =~= u32_be_bytes(value));
    out
}

/// The big-endian encoding of `value` in 8 bytes.
pub fn u64_to_bytes(value: u64) -> (out: [u8; 8])
    ensures
        out@ == u64_be_bytes(value),
{
    let out: [u8; 8] = [
        #[verifier::truncate]
        ((value >> 56) as u8),
        #[verifier::truncate]
        ((value >> 48) as u8),
        #[verifier::truncate]
        ((value >> 40) as u8),
        #[verifier::truncate]
        ((value >> 32) as u8),
        #[verifier::truncate]
        ((value >> 24) as u8),
        #[verifier::truncate]
        ((value >> 16) as u8),
        #[verifier::truncate]
        ((value >> 8) as u8),
        #[verifier::truncate]
        (value as u8),
    ];
    assert(out@ =~= u64_be_bytes(value));
    out
}

/// The 16 bytes of `x`, most significant first.
pub open spec fn u128_be_bytes(x: u128) -> Seq<u8> {
    u64_be_bytes((x >> 64) as u64) + u64_be_bytes(x as u64)
}

/// The big-endian encoding of `value` in 16 bytes.
pub fn u128_to_bytes(value: u128) -> (out: [u8; 16])
    ensures
        out@ == u128_be_bytes(value),
{
    let high: [u8; 8] = u64_to_bytes(
        #[verifier::truncate]
        ((value >> 64) as u64),
    );
    let low: [u8; 8] = u64_to_bytes(
        #[verifier::truncate]
        (value as u64),
    );
    let out: [u8; 16] = [
        high[0],
        high[1],
        high[2],
        high[3],
        high[4],
        high[5],
        high[6],
        high[7],
        low[0],
        low[1],
        low[2],
        low[3],
        low[4],
        low[5],
        low[6],
        low[7],
    ];
    assert(out@ =~= u128_be_bytes(value));
    out
}

/// The low 8 bits of `value`: what a one-byte field keeps of it. A value of
/// 256 or more is cut down, never refused.
pub fn low_byte(value: u32) -> (b: u8)
    ensures
        b == value as u8,
{
    #[verifier::truncate]
    (value as u8)
}

/// What a one-byte field keeps of a value is its remainder modulo 256: a
/// value below 256 is kept whole, and a larger one wraps around.
pub proof fn low_byte_is_remainder(value: u32)
    ensures
        value as u8 == value % 256,
        value < 256 ==> value as u8 == value,
{
    assert(value as u8 == value % 256) by (bit_vector);
}

/// What a two-byte field keeps of a value is its remainder modulo 65536,
/// the byte of higher weight first.
pub proof fn low_bytes_are_remainder(value: u32)
    ensures
        ((value >> 8) as u8) * 256 + (value as u8) == value % 65536,
{
    assert(((value >> 8) as u8) * 256 + (value as u8) == value % 65536) by (bit_vector);
}

/// The bytes of the encoding of a 32-bit value are its digits to the base
/// 256, the most significant first.
pub proof fn u32_be_bytes_value(x: u32)
    ensures
        u32_be_bytes(x).len() == 4,
        x == u32_be_bytes(x)[0] * 0x100_0000 + u32_be_bytes(x)[1] * 0x1_0000 + u32_be_bytes(x)[2]
            * 0x100 + u32_be_bytes(x)[3],
{
    assert(x == ((x >> 24) as u8) * 0x100_0000 + ((x >> 16) as u8) * 0x1_0000 + ((x >> 8) as u8)
        * 0x100 + (x as u8)) by (bit_vector);
}

/// The bytes of the encoding of a 64-bit value are its digits to the base
/// 256, the most significant first.
pub proof fn u64_be_bytes_value(x: u64)
    ensures
        u64_be_bytes(x).len() == 8,
        x == u64_be_bytes(x)[0] * 0x100_0000_0000_0000 + u64_be_bytes(x)[1] * 0x1_0000_0000_0000
            + u64_be_bytes(x)[2] * 0x100_0000_0000 + u64_be_bytes(x)[3] * 0x1_0000_0000
            + u64_be_bytes(x)[4] * 0x100_0000 + u64_be_bytes(x)[5] * 0x1_0000 + u64_be_bytes(x)[6]
            * 0x100 + u64_be_bytes(x)[7],
{
    assert(x == ((x >> 56) as u8) * 0x100_0000_0000_0000 + ((x >> 48) as u8) * 0x1_0000_0000_0000
        + ((x >> 40) as u8) * 0x100_0000_0000 + ((x >> 32) as u8) * 0x1_0000_0000 + ((x >> 24) as u8)
        * 0x100_0000 + ((x >> 16) as u8) * 0x1_0000 + ((x >> 8) as u8) * 0x100 + (x as u8))
        by (bit_vector);
}

} // verus!
