use vstd::prelude::*;

verus! {

/// Value of two bytes read least significant first.
pub open spec fn le16(b0: u8, b1: u8) -> int {
    b0 + b1 * 256
}

/// Value of two bytes read most significant first.
pub open spec fn be16(b0: u8, b1: u8) -> int {
    b0 * 256 + b1
}

/// Value of four bytes read least significant first.
pub open spec fn le32(b0: u8, b1: u8, b2: u8, b3: u8) -> int {
    b0 + b1 * 256 + b2 * 65536 + b3 * 16777216
}

/// Value of four bytes read most significant first.
pub open spec fn be32(b0: u8, b1: u8, b2: u8, b3: u8) -> int {
    b0 * 16777216 + b1 * 65536 + b2 * 256 + b3
}

/// Little-endian `u16` at `off` in `s`.
pub open spec fn le16_at(s: Seq<u8>, off: int) -> int {
    le16(s[off], s[off + 1])
}

/// Big-endian `u16` at `off` in `s`.
pub open spec fn be16_at(s: Seq<u8>, off: int) -> int {
    be16(s[off], s[off + 1])
}

/// Little-endian `u32` at `off` in `s`.
pub open spec fn le32_at(s: Seq<u8>, off: int) -> int {
    le32(s[off], s[off + 1], s[off + 2], s[off + 3])
}

/// Big-endian `u32` at `off` in `s`.
pub open spec fn be32_at(s: Seq<u8>, off: int) -> int {
    be32(s[off], s[off + 1], s[off + 2], s[off + 3])
}

/// Reads a little-endian `u16` at `off`.
pub fn read_le_u16(data: &[u8], off: usize) -> (r: u16)
    requires
        off + 2 <= data@.len(),
    ensures
        r == le16_at(data@, off as int),
{
    data[off] as u16 + (data[off + 1] as u16) * 256
}

/// Reads a big-endian `u16` at `off`.
pub fn read_be_u16(data: &[u8], off: usize) -> (r: u16)
    requires
        off + 2 <= data@.len(),
    ensures
        r == be16_at(data@, off as int),
{
    (data[off] as u16) * 256 + data[off + 1] as u16
}

/// Reads a little-endian `u32` at `off`.
pub fn read_le_u32(data: &[u8], off: usize) -> (r: u32)
    requires
        off + 4 <= data@.len(),
    ensures
        r == le32_at(data@, off as int),
{
    data[off] as u32 + (data[off + 1] as u32) * 256 + (data[off + 2] as u32) * 65536 + (data[off
        + 3] as u32) * 16777216
}

/// Reads a big-endian `u32` at `off`.
pub fn read_be_u32(data: &[u8], off: usize) -> (r: u32)
    requires
        off + 4 <= data@.len(),
    ensures
        r == be32_at(data@, off as int),
{
    (data[off] as u32) * 16777216 + (data[off + 1] as u32) * 65536 + (data[off + 2] as u32) * 256
        + data[off + 3] as u32
}

} // verus!
