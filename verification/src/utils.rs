//! Small shared pieces: the (count, offset) array locator and the
//! fixed-layout vector readers used by the model decoder.
//!
//! Geometry components are carried as the 32-bit patterns stored in the
//! file. Negating such a component flips its sign bit; no other arithmetic
//! is ever done on them here, so the decoder stays exact.

use vstd::prelude::*;

use crate::bytes::{le32, read_u32_le};

verus! {

/// Where an array lives in a model payload: element count and byte offset,
/// relative to the payload origin.
#[derive(Debug, Clone, Copy, PartialEq, Eq, Structural)]
pub struct OffsetSize {
    /// Byte offset of the array, relative to the payload origin.
    pub offset: u64,
    /// Element count of the array.
    pub size: u64,
}

/// Three geometry components, as stored bit patterns.
#[derive(Debug, Clone, Copy, PartialEq, Eq, Structural)]
pub struct Vec3Bits {
    /// First component.
    pub x: u32,
    /// Second component.
    pub y: u32,
    /// Third component.
    pub z: u32,
}

/// Two texture coordinates, as stored bit patterns.
#[derive(Debug, Clone, Copy, PartialEq, Eq, Structural)]
pub struct Vec2Bits {
    /// First component.
    pub x: u32,
    /// Second component.
    pub y: u32,
}

/// Four bytes, as a bone-weight or bone-index quadruple.
#[derive(Debug, Clone, Copy, PartialEq, Eq, Structural)]
pub struct ByteQuad {
    /// First byte.
    pub x: u8,
    /// Second byte.
    pub y: u8,
    /// Third byte.
    pub z: u8,
    /// Fourth byte.
    pub w: u8,
}

/// Flips the sign bit of a stored component: the exact negation.
pub open spec fn neg_bits(b: u32) -> u32 {
    b ^ 0x8000_0000
}

/// The coordinate-fixed vector stored at `off`: the source is Z-up
/// left-handed, the result Y-up right-handed, so `(x, y, z)` becomes
/// `(x, z, -y)`.
pub open spec fn spec_read_vec3(s: Seq<u8>, off: int) -> Vec3Bits {
    Vec3Bits { x: le32(s, off), y: le32(s, off + 8), z: neg_bits(le32(s, off + 4)) }
}

/// The coordinate pair stored at `off`, taken verbatim.
pub open spec fn spec_read_vec2(s: Seq<u8>, off: int) -> Vec2Bits {
    Vec2Bits { x: le32(s, off), y: le32(s, off + 4) }
}

/// The byte quadruple stored at `off`.
pub open spec fn spec_read_u8vec4(s: Seq<u8>, off: int) -> ByteQuad {
    ByteQuad { x: s[off], y: s[off + 1], z: s[off + 2], w: s[off + 3] }
}

/// Reads a position or normal and applies the coordinate fix-up, once,
/// here: `(x, y, z)` becomes `(x, z, -y)`.
pub fn read_vec3(data: &[u8], off: usize) -> (r: Vec3Bits)
    requires
        off + 12 <= data@.len(),
    ensures
        r == spec_read_vec3(data@, off as int),
{
    proof {
        vstd::slice::axiom_spec_len(data);
    }
    Vec3Bits {
        x: read_u32_le(data, off),
        y: read_u32_le(data, off + 8),
        z: read_u32_le(data, off + 4) ^ 0x8000_0000,
    }
}

/// Reads a texture-coordinate pair verbatim.
pub fn read_vec2(data: &[u8], off: usize) -> (r: Vec2Bits)
    requires
        off + 8 <= data@.len(),
    ensures
        r == spec_read_vec2(data@, off as int),
{
    proof {
        vstd::slice::axiom_spec_len(data);
    }
    Vec2Bits { x: read_u32_le(data, off), y: read_u32_le(data, off + 4) }
}

/// Reads a bone-weight or bone-index quadruple.
pub fn read_u8vec4(data: &[u8], off: usize) -> (r: ByteQuad)
    requires
        off + 4 <= data@.len(),
    ensures
        r == spec_read_u8vec4(data@, off as int),
{
    proof {
        vstd::slice::axiom_spec_len(data);
    }
    ByteQuad { x: data[off], y: data[off + 1], z: data[off + 2], w: data[off + 3] }
}

} // verus!
