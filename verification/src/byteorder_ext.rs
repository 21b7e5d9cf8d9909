//! Conversions between host integers and network byte order, done by the `byteorder` crate.

use crate::endian::{be16, be16_bytes, be32, be32_bytes, NetworkU16};
use byteorder::{ByteOrder, NetworkEndian};
use vstd::prelude::*;

verus! {

/// `byteorder::ByteOrder::read_u16` of `NetworkEndian`: the number that the first two bytes
/// of the slice spell, most significant first. It panics on a shorter slice.
#[verifier::external_body]
pub(crate) fn read_u16(buf: &[u8]) -> (n: u16)
    requires
        buf@.len() >= 2,
    ensures
        n == be16(buf@[0], buf@[1]),
{
    NetworkEndian::read_u16(buf)
}

/// `byteorder::ByteOrder::read_u32` of `NetworkEndian`: the number that the first four bytes
/// of the slice spell, most significant first. It panics on a shorter slice.
#[verifier::external_body]
pub(crate) fn read_u32(buf: &[u8]) -> (n: u32)
    requires
        buf@.len() >= 4,
    ensures
        n == be32(buf@[0], buf@[1], buf@[2], buf@[3]),
{
    NetworkEndian::read_u32(buf)
}

/// `byteorder::ByteOrder::write_u16` of `NetworkEndian`, on a fresh array of two bytes: the
/// bytes of the number, most significant first.
#[verifier::external_body]
pub(crate) fn write_u16(n: u16) -> (bytes: [u8; 2])
    ensures
        bytes@ == be16_bytes(n),
{
    let mut bytes = [0u8; 2];
    NetworkEndian::write_u16(&mut bytes, n);
    bytes
}

/// `byteorder::ByteOrder::write_u32` of `NetworkEndian`, on a fresh array of four bytes: the
/// bytes of the number, most significant first.
#[verifier::external_body]
pub(crate) fn write_u32(n: u32) -> (bytes: [u8; 4])
    ensures
        bytes@ == be32_bytes(n),
{
    let mut bytes = [0u8; 4];
    NetworkEndian::write_u32(&mut bytes, n);
    bytes
}

/// Host to network: the 16-bit value in network byte order.
pub fn htons(input: u16) -> (r: NetworkU16)
    ensures
        r@ == input,
        r.wire() == be16_bytes(input),
{
    let bytes = write_u16(input);
    assert(bytes@[0] == be16_bytes(input)[0] && bytes@[1] == be16_bytes(input)[1]);
    let r = NetworkU16::from_wire(bytes[0], bytes[1]);
    assert(r.wire() =~= be16_bytes(input));
    r
}

/// Network to host: the value that the two bytes in network order stand for.
pub fn ntohs(input: NetworkU16) -> (r: u16)
    ensures
        r == input@,
{
    let bytes = input.to_wire();
    proof {
        input.lemma_wire();
    }
    read_u16(bytes.as_slice())
}

} // verus!
