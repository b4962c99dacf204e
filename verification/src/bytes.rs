//! Little-endian readers over byte buffers, with their mathematical
//! counterparts on `Seq<u8>`.

use vstd::prelude::*;
use vstd::slice::{slice_subrange, slice_to_vec};

verus! {

/// The 16-bit little-endian value stored at `off`.
pub open spec fn le16(s: Seq<u8>, off: int) -> u16 {
    (s[off] as u16) | ((s[off + 1] as u16) << 8)
}

/// The 32-bit little-endian value stored at `off`.
pub open spec fn le32(s: Seq<u8>, off: int) -> u32 {
    (s[off] as u32) | ((s[off + 1] as u32) << 8) | ((s[off + 2] as u32) << 16) | ((s[off + 3]
        as u32) << 24)
}

/// Reads the little-endian `u16` at `off`.
pub fn read_u16_le(buf: &[u8], off: usize) -> (r: u16)
    requires
        off + 2 <= buf@.len(),
    ensures
        r == le16(buf@, off as int),
{
    (buf[off] as u16) | ((buf[off + 1] as u16) << 8)
}

/// Reads the little-endian `u32` at `off`.
pub fn read_u32_le(buf: &[u8], off: usize) -> (r: u32)
    requires
        off + 4 <= buf@.len(),
    ensures
        r == le32(buf@, off as int),
{
    (buf[off] as u32) | ((buf[off + 1] as u32) << 8) | ((buf[off + 2] as u32) << 16) | ((buf[off
        + 3] as u32) << 24)
}

/// Copies `buf[start..end]` into an owned vector.
pub fn take_range(buf: &[u8], start: usize, end: usize) -> (r: Vec<u8>)
    requires
        start <= end <= buf@.len(),
    ensures
        r@ == buf@.subrange(start as int, end as int),
{
    slice_to_vec(slice_subrange(buf, start, end))
}

} // verus!
