//! Big-endian scalars, the layout every multi-byte value of the stream uses.

use byteorder::BigEndian;
use byteorder::ByteOrder;
use vstd::prelude::*;

verus! {

/// The two bytes of `value`, most significant first.
pub open spec fn be16(value: u16) -> Seq<u8> {
    seq![(value / 0x100) as u8, (value % 0x100) as u8]
}

/// The four bytes of `value`, most significant first.
pub open spec fn be32(value: u32) -> Seq<u8> {
    seq![
        (value / 0x100_0000) as u8,
        (value / 0x1_0000 % 0x100) as u8,
        (value / 0x100 % 0x100) as u8,
        (value % 0x100) as u8,
    ]
}

/// The eight bytes of `value`, most significant first.
pub open spec fn be64(value: u64) -> Seq<u8> {
    seq![
        (value / 0x100_0000_0000_0000) as u8,
        (value / 0x1_0000_0000_0000 % 0x100) as u8,
        (value / 0x100_0000_0000 % 0x100) as u8,
        (value / 0x1_0000_0000 % 0x100) as u8,
        (value / 0x100_0000 % 0x100) as u8,
        (value / 0x1_0000 % 0x100) as u8,
        (value / 0x100 % 0x100) as u8,
        (value % 0x100) as u8,
    ]
}

/// `byteorder::BigEndian::write_u16` on a buffer of two bytes: the buffer then
/// holds the big-endian representation of `value`.
#[verifier::external_body]
pub(crate) fn u16_be_bytes(value: u16) -> (bytes: [u8; 2])
    ensures
        bytes@ == be16(value),
{
    let mut bytes = [0u8; 2];
    BigEndian::write_u16(&mut bytes, value);
    bytes
}

/// `byteorder::BigEndian::write_u32` on a buffer of four bytes: the buffer then
/// holds the big-endian representation of `value`.
#[verifier::external_body]
pub(crate) fn u32_be_bytes(value: u32) -> (bytes: [u8; 4])
    ensures
        bytes@ == be32(value),
{
    let mut bytes = [0u8; 4];
    BigEndian::write_u32(&mut bytes, value);
    bytes
}

/// `byteorder::BigEndian::write_u64` on a buffer of eight bytes: the buffer then
/// holds the big-endian representation of `value`.
#[verifier::external_body]
pub(crate) fn u64_be_bytes(value: u64) -> (bytes: [u8; 8])
    ensures
        bytes@ == be64(value),
{
    let mut bytes = [0u8; 8];
    BigEndian::write_u64(&mut bytes, value);
    bytes
}

/// Appends `data` to `sink`.
pub(crate) fn append_bytes(sink: &mut Vec<u8>, data: &[u8])
    ensures
        final(sink)@ == old(sink)@ + data@,
{
    sink.extend_from_slice(data);
}

} // verus!
