//! Little-endian unsigned integers, read with `byteorder`.

use byteorder::{ByteOrder, LittleEndian};
use vstd::prelude::*;

verus! {

/// The number that `bytes` spell when the first byte is the least significant.
pub open spec fn le_value(bytes: Seq<u8>) -> nat
    decreases bytes.len(),
{
    if bytes.len() == 0 {
        0
    } else {
        bytes[0] as nat + 256 * le_value(bytes.skip(1))
    }
}

/// The value written out for the widths that the format uses. Each fits the
/// unsigned type of its width.
pub proof fn lemma_le_value_by_width(bytes: Seq<u8>)
    ensures
        bytes.len() == 1 ==> le_value(bytes) == bytes[0],
        bytes.len() == 2 ==> le_value(bytes) == bytes[0] + 0x100 * bytes[1],
        bytes.len() == 4 ==> le_value(bytes) == bytes[0] + 0x100 * bytes[1] + 0x1_0000 * bytes[2]
            + 0x100_0000 * bytes[3],
{
    reveal_with_fuel(le_value, 5);
}

/// `byteorder::LittleEndian::read_u16`. Trusted: the result is the
/// little-endian value of the first two bytes of `buf`; the call panics on a
/// shorter buffer, which `requires` rules out.
#[verifier::external_body]
pub(crate) fn le_u16(buf: &[u8]) -> (value: u16)
    requires
        buf@.len() >= 2,
    ensures
        value as nat == le_value(buf@.subrange(0, 2)),
{
    LittleEndian::read_u16(buf)
}

/// `byteorder::LittleEndian::read_u32`. Trusted: the result is the
/// little-endian value of the first four bytes of `buf`; the call panics on a
/// shorter buffer, which `requires` rules out.
#[verifier::external_body]
pub(crate) fn le_u32(buf: &[u8]) -> (value: u32)
    requires
        buf@.len() >= 4,
    ensures
        value as nat == le_value(buf@.subrange(0, 4)),
{
    LittleEndian::read_u32(buf)
}

/// `byteorder::LittleEndian::read_uint`. Trusted: the result is the
/// little-endian value of the first `nbytes` bytes of `buf`; the call panics
/// unless `1 <= nbytes <= 8` and `nbytes <= buf.len()`, which `requires` asks.
#[verifier::external_body]
pub(crate) fn le_uint(buf: &[u8], nbytes: usize) -> (value: u64)
    requires
        1 <= nbytes <= 8,
        nbytes <= buf@.len(),
    ensures
        value as nat == le_value(buf@.subrange(0, nbytes as int)),
{
    LittleEndian::read_uint(buf, nbytes)
}

} // verus!
