//! Fixed-width integers in the wire format, read and written through `byteorder`.
use byteorder::{BigEndian, ByteOrder, LittleEndian, WriteBytesExt};
use vstd::prelude::*;

verus! {

/// The largest value a 48-bit field can hold, plus one.
pub const U48_LIMIT: u64 = 0x1_0000_0000_0000;

/// A 16-bit integer stored least significant byte first.
pub open spec fn le16(b0: u8, b1: u8) -> u16 {
    (b0 as u16) | ((b1 as u16) << 8u16)
}

/// A 32-bit integer stored least significant byte first.
pub open spec fn le32(b0: u8, b1: u8, b2: u8, b3: u8) -> u32 {
    (b0 as u32) | ((b1 as u32) << 8u32) | ((b2 as u32) << 16u32) | ((b3 as u32) << 24u32)
}

/// A 48-bit integer stored most significant byte first.
pub open spec fn be48(b0: u8, b1: u8, b2: u8, b3: u8, b4: u8, b5: u8) -> u64 {
    ((b0 as u64) << 40u64) | ((b1 as u64) << 32u64) | ((b2 as u64) << 24u64) | ((b3 as u64)
        << 16u64) | ((b4 as u64) << 8u64) | (b5 as u64)
}

pub open spec fn le16_bytes(n: u16) -> Seq<u8> {
    seq![n as u8, (n >> 8u16) as u8]
}

pub open spec fn le32_bytes(n: u32) -> Seq<u8> {
    seq![n as u8, (n >> 8u32) as u8, (n >> 16u32) as u8, (n >> 24u32) as u8]
}

pub open spec fn be48_bytes(n: u64) -> Seq<u8> {
    seq![
        (n >> 40u64) as u8,
        (n >> 32u64) as u8,
        (n >> 24u64) as u8,
        (n >> 16u64) as u8,
        (n >> 8u64) as u8,
        n as u8,
    ]
}

pub proof fn lemma_le16_round_trip(n: u16)
    ensures
        le16(le16_bytes(n)[0], le16_bytes(n)[1]) == n,
{
    assert(((n as u8) as u16) | ((((n >> 8u16) as u8) as u16) << 8u16) == n) by (bit_vector);
}

pub proof fn lemma_le32_round_trip(n: u32)
    ensures
        le32(le32_bytes(n)[0], le32_bytes(n)[1], le32_bytes(n)[2], le32_bytes(n)[3]) == n,
{
    assert(((n as u8) as u32) | ((((n >> 8u32) as u8) as u32) << 8u32) | ((((n >> 16u32) as u8)
        as u32) << 16u32) | ((((n >> 24u32) as u8) as u32) << 24u32) == n) by (bit_vector);
}

pub proof fn lemma_be48_round_trip(n: u64)
    requires
        n < U48_LIMIT,
    ensures
        be48(
            be48_bytes(n)[0],
            be48_bytes(n)[1],
            be48_bytes(n)[2],
            be48_bytes(n)[3],
            be48_bytes(n)[4],
            be48_bytes(n)[5],
        ) == n,
{
    assert(n < 0x1_0000_0000_0000u64 ==> (((((n >> 40u64) as u8) as u64) << 40u64) | ((((n
        >> 32u64) as u8) as u64) << 32u64) | ((((n >> 24u64) as u8) as u64) << 24u64) | ((((n
        >> 16u64) as u8) as u64) << 16u64) | ((((n >> 8u64) as u8) as u64) << 8u64) | ((n as u8)
        as u64)) == n) by (bit_vector);
}

pub proof fn lemma_be48_bound(b0: u8, b1: u8, b2: u8, b3: u8, b4: u8, b5: u8)
    ensures
        be48(b0, b1, b2, b3, b4, b5) < U48_LIMIT,
{
    assert(((b0 as u64) << 40u64) | ((b1 as u64) << 32u64) | ((b2 as u64) << 24u64) | ((b3
        as u64) << 16u64) | ((b4 as u64) << 8u64) | (b5 as u64) < 0x1_0000_0000_0000u64)
        by (bit_vector);
}

/// Relies on `LittleEndian::read_u16`: the first two bytes, least significant first.
#[verifier::external_body]
pub(crate) fn read_u16_le(buf: &[u8]) -> (r: u16)
    requires
        buf@.len() >= 2,
    ensures
        r == le16(buf@[0], buf@[1]),
{
    LittleEndian::read_u16(buf)
}

/// Relies on `LittleEndian::read_u32`: the first four bytes, least significant first.
#[verifier::external_body]
pub(crate) fn read_u32_le(buf: &[u8]) -> (r: u32)
    requires
        buf@.len() >= 4,
    ensures
        r == le32(buf@[0], buf@[1], buf@[2], buf@[3]),
{
    LittleEndian::read_u32(buf)
}

/// Relies on `BigEndian::read_u48`: the first six bytes, most significant first.
#[verifier::external_body]
pub(crate) fn read_u48_be(buf: &[u8]) -> (r: u64)
    requires
        buf@.len() >= 6,
    ensures
        r == be48(buf@[0], buf@[1], buf@[2], buf@[3], buf@[4], buf@[5]),
{
    BigEndian::read_u48(buf)
}

/// Relies on `WriteBytesExt::write_u16::<LittleEndian>`: appends two bytes,
/// least significant first; writing into a `Vec` cannot fail.
#[verifier::external_body]
pub(crate) fn push_u16_le(out: &mut Vec<u8>, n: u16)
    ensures
        final(out)@ == old(out)@ + le16_bytes(n),
{
    out.write_u16::<LittleEndian>(n).unwrap()
}

/// Relies on `WriteBytesExt::write_u32::<LittleEndian>`: appends four bytes,
/// least significant first; writing into a `Vec` cannot fail.
#[verifier::external_body]
pub(crate) fn push_u32_le(out: &mut Vec<u8>, n: u32)
    ensures
        final(out)@ == old(out)@ + le32_bytes(n),
{
    out.write_u32::<LittleEndian>(n).unwrap()
}

/// Relies on `WriteBytesExt::write_u48::<BigEndian>`: appends six bytes, most
/// significant first. `write_uint` panics on a value that needs more than six
/// bytes, so such values are excluded.
#[verifier::external_body]
pub(crate) fn push_u48_be(out: &mut Vec<u8>, n: u64)
    requires
        n < U48_LIMIT,
    ensures
        final(out)@ == old(out)@ + be48_bytes(n),
{
    out.write_u48::<BigEndian>(n).unwrap()
}

} // verus!
