//! The texture container: header, format selection, and the mip-0 payload
//! passed through verbatim as block-compressed data.

use vstd::prelude::*;

use crate::bytes::{le32, read_u32_le, take_range};
use crate::errors::Error;

verus! {

/// The supported container magic, `BLP2`, as a little-endian word.
pub const MAGIC_BLP2: u32 = 0x32504C42;

/// The earlier container magic `BLP0`.
pub const MAGIC_BLP0: u32 = 0x30504C42;

/// The earlier container magic `BLP1`.
pub const MAGIC_BLP1: u32 = 0x31504C42;

/// The content tag for directly stored pixel data.
pub const BLP_CONTENT_DIRECT: u32 = 1;

/// The compression tag for block-compressed pixel data.
pub const BLP_COMPRESSION_DXT: u8 = 2;

/// The GPU texture format of the emitted image.
#[derive(Debug, Clone, Copy, PartialEq, Eq, Structural)]
pub enum TextureFormat {
    /// BC1 blocks, eight bytes per 4x4 tile.
    Bc1RgbaUnorm,
    /// BC2 blocks, sixteen bytes per 4x4 tile.
    Bc2RgbaUnorm,
    /// BC3 blocks, sixteen bytes per 4x4 tile.
    Bc3RgbaUnorm,
}

/// Bytes per 4x4 block of a format.
pub open spec fn block_bytes(f: TextureFormat) -> int {
    match f {
        TextureFormat::Bc1RgbaUnorm => 8,
        TextureFormat::Bc2RgbaUnorm => 16,
        TextureFormat::Bc3RgbaUnorm => 16,
    }
}

/// The byte length of a block-compressed image: whole 4x4 tiles cover the
/// extent.
pub open spec fn bc_payload_len(w: int, h: int, f: TextureFormat) -> int {
    ((w + 3) / 4) * ((h + 3) / 4) * block_bytes(f)
}

/// The emitted image: a typed format descriptor plus the raw mip-0
/// payload, not re-packed.
#[derive(Debug, Clone, PartialEq, Eq)]
pub struct TextureImage {
    /// The GPU texture format.
    pub format: TextureFormat,
    /// Width in pixels.
    pub width: u32,
    /// Height in pixels.
    pub height: u32,
    /// Depth; always one.
    pub depth: u32,
    /// Number of mip levels carried; always one.
    pub mip_count: u32,
    /// The mip-0 block-compressed bytes, verbatim.
    pub data: Vec<u8>,
}

/// The format selected by the alpha-kind byte under DXT compression.
pub open spec fn spec_blp_format(alpha_type: u8) -> Option<TextureFormat> {
    if alpha_type == 0 {
        Some(TextureFormat::Bc1RgbaUnorm)
    } else if alpha_type == 1 {
        Some(TextureFormat::Bc2RgbaUnorm)
    } else if alpha_type == 7 {
        Some(TextureFormat::Bc3RgbaUnorm)
    } else {
        None
    }
}

/// Whether a texture buffer decodes: a supported header, a supported
/// format triple, and a mip-0 whose stored size is exactly the
/// block-compressed length and lies inside the buffer.
pub open spec fn blp_ok(s: Seq<u8>) -> bool {
    &&& s.len() >= 148
    &&& le32(s, 0) == MAGIC_BLP2
    &&& le32(s, 4) == BLP_CONTENT_DIRECT
    &&& s[8] == BLP_COMPRESSION_DXT
    &&& spec_blp_format(s[10]) is Some
    &&& le32(s, 84) == bc_payload_len(
        le32(s, 12) as int,
        le32(s, 16) as int,
        spec_blp_format(s[10])->Some_0,
    )
    &&& (le32(s, 20) as int) + (le32(s, 84) as int) <= s.len()
}

/// Whether `img` is exactly the decoding of the texture buffer `s`.
pub open spec fn blp_matches(s: Seq<u8>, img: TextureImage) -> bool {
    &&& Some(img.format) == spec_blp_format(s[10])
    &&& img.width == le32(s, 12)
    &&& img.height == le32(s, 16)
    &&& img.depth == 1
    &&& img.mip_count == 1
    &&& img.data@ == s.subrange(le32(s, 20) as int, (le32(s, 20) as int) + (le32(s, 84) as int))
}

/// Decodes a texture buffer into a typed image: only the DXT variants are
/// supported, and the mip-0 bytes are passed through verbatim. On success
/// the payload length is exactly the block-compressed length of the
/// format and extent.
pub fn blp_to_image(data: &[u8]) -> (r: Result<TextureImage, Error>)
    ensures
        (r is Ok <==> blp_ok(data@)),
        (r matches Ok(img) ==> blp_matches(data@, img)),
        (r matches Ok(img) ==> img.data@.len() == bc_payload_len(
            img.width as int,
            img.height as int,
            img.format,
        )),
        (data@.len() >= 148 && (le32(data@, 0) == MAGIC_BLP0 || le32(data@, 0) == MAGIC_BLP1)
            ==> (r matches Err(e) && e matches Error::UnsupportedVersion(_))),
        (data@.len() >= 148 && le32(data@, 0) == MAGIC_BLP2 && (le32(data@, 4)
            != BLP_CONTENT_DIRECT || data@[8] != BLP_COMPRESSION_DXT || spec_blp_format(
            data@[10],
        ) is None) ==> r == Err::<TextureImage, Error>(Error::UnsupportedTextureFormat)),
{
    let len = data.len();
    if len < 148 {
        return Err(Error::Truncated(148, len));
    }
    let magic = read_u32_le(data, 0);
    if magic == MAGIC_BLP0 {
        return Err(Error::UnsupportedVersion(0));
    }
    if magic == MAGIC_BLP1 {
        return Err(Error::UnsupportedVersion(1));
    }
    if magic != MAGIC_BLP2 {
        return Err(Error::InvalidMagic(magic));
    }
    let content = read_u32_le(data, 4);
    let compression = data[8];
    let alpha_type = data[10];
    if content != BLP_CONTENT_DIRECT || compression != BLP_COMPRESSION_DXT {
        return Err(Error::UnsupportedTextureFormat);
    }
    let format = if alpha_type == 0 {
        TextureFormat::Bc1RgbaUnorm
    } else if alpha_type == 1 {
        TextureFormat::Bc2RgbaUnorm
    } else if alpha_type == 7 {
        TextureFormat::Bc3RgbaUnorm
    } else {
        return Err(Error::UnsupportedTextureFormat);
    };
    let width = read_u32_le(data, 12);
    let height = read_u32_le(data, 16);
    let mip0_off = read_u32_le(data, 20);
    let mip0_size = read_u32_le(data, 84);
    let bb: u128 = if alpha_type == 0 {
        8
    } else {
        16
    };
    let wq: u128 = (width as u128 + 3) / 4;
    let hq: u128 = (height as u128 + 3) / 4;
    proof {
        assert(wq <= 0x4000_0001 && hq <= 0x4000_0001);
        assert(wq * hq < 0x2000_0000_0000_0000) by (nonlinear_arith)
            requires
                0 <= wq <= 0x4000_0001,
                0 <= hq <= 0x4000_0001,
        ;
        assert((wq * hq) * bb <= 0x2000_0000_0000_0000u128 * 16) by (nonlinear_arith)
            requires
                0 <= wq * hq < 0x2000_0000_0000_0000,
                0 <= bb <= 16,
        ;
    }
    let expected: u128 = wq * hq * bb;
    if mip0_size as u128 != expected {
        return Err(Error::CorruptData);
    }
    if (mip0_off as u64) + (mip0_size as u64) > len as u64 {
        let needed: u64 = mip0_off as u64 + mip0_size as u64;
        let clamped: usize = if needed > usize::MAX as u64 {
            usize::MAX
        } else {
            needed as usize
        };
        return Err(Error::Truncated(clamped, len));
    }
    let start = mip0_off as usize;
    let end = start + mip0_size as usize;
    let payload = take_range(data, start, end);
    Ok(
        TextureImage {
            format,
            width,
            height,
            depth: 1,
            mip_count: 1,
            data: payload,
        },
    )
}

} // verus!
