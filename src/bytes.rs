//! Fixed-width integers read from byte sequences.
use vstd::prelude::*;

verus! {

/// The little-endian 16-bit value of `b[i..i + 2]`.
pub open spec fn le16(b: Seq<u8>, i: int) -> int {
    b[i] + 256 * b[i + 1]
}

/// The big-endian 16-bit value of `b[i..i + 2]`.
pub open spec fn be16(b: Seq<u8>, i: int) -> int {
    256 * b[i] + b[i + 1]
}

/// The little-endian 32-bit value of `b[i..i + 4]`.
pub open spec fn le32(b: Seq<u8>, i: int) -> int {
    le16(b, i) + 65536 * le16(b, i + 2)
}

/// The big-endian 32-bit value of `b[i..i + 4]`.
pub open spec fn be32(b: Seq<u8>, i: int) -> int {
    65536 * be16(b, i) + be16(b, i + 2)
}

/// The little-endian 64-bit value of `b[i..i + 8]`.
pub open spec fn le64(b: Seq<u8>, i: int) -> int {
    le32(b, i) + 4294967296 * le32(b, i + 4)
}

pub fn read_le16(b: &[u8], i: usize) -> (r: u16)
    requires
        i + 2 <= b@.len(),
    ensures
        r == le16(b@, i as int),
{
    b[i] as u16 + 256 * (b[i + 1] as u16)
}

pub fn read_be16(b: &[u8], i: usize) -> (r: u16)
    requires
        i + 2 <= b@.len(),
    ensures
        r == be16(b@, i as int),
{
    256 * (b[i] as u16) + b[i + 1] as u16
}

pub fn read_le32(b: &[u8], i: usize) -> (r: u32)
    requires
        i + 4 <= b@.len(),
    ensures
        r == le32(b@, i as int),
{
    b[i] as u32 + 256 * (b[i + 1] as u32) + 65536 * (b[i + 2] as u32 + 256 * (b[i + 3] as u32))
}

pub fn read_be32(b: &[u8], i: usize) -> (r: u32)
    requires
        i + 4 <= b@.len(),
    ensures
        r == be32(b@, i as int),
{
    65536 * (256 * (b[i] as u32) + b[i + 1] as u32) + 256 * (b[i + 2] as u32) + b[i + 3] as u32
}

pub fn read_le64(b: &[u8], i: usize) -> (r: u64)
    requires
        i + 8 <= b@.len(),
    ensures
        r == le64(b@, i as int),
{
    let lo = b[i] as u64 + 256 * (b[i + 1] as u64) + 65536 * (b[i + 2] as u64 + 256 * (
    b[i + 3] as u64));
    let hi = b[i + 4] as u64 + 256 * (b[i + 5] as u64) + 65536 * (b[i + 6] as u64 + 256 * (
    b[i + 7] as u64));
    lo + 4294967296 * hi
}

} // verus!
