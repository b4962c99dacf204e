//! Model container dispatch: the legacy whole-buffer payload and the
//! chunked wrapper around it, plus companion skin-name derivation.

use vstd::prelude::*;

use crate::bytes::{le32, read_u32_le, take_range};
use crate::errors::Error;
use crate::md20::{md20_matches, md20_ok, parse_chunk, Data, MAGIC_MD20};

verus! {

/// The chunked wrapper magic, `MD21`, as a little-endian word.
pub const MAGIC_MD21: u32 = 0x3132444D;

/// The chunk tag `SFID`.
pub const CHUNK_SFID: u32 = 0x44494653;

/// The chunk tag `TXID`.
pub const CHUNK_TXID: u32 = 0x44495854;

/// The chunk tag `SKID`.
pub const CHUNK_SKID: u32 = 0x44494B53;

/// The chunk tag `BFID`.
pub const CHUNK_BFID: u32 = 0x44494642;

/// The chunk tag `AFID`.
pub const CHUNK_AFID: u32 = 0x44494641;

/// The two payload magics a model buffer may start with.
#[derive(Debug, Clone, Copy, PartialEq, Eq, Structural)]
pub enum Magic {
    /// The chunked wrapper.
    MD21,
    /// The legacy whole-buffer payload.
    MD20,
}

impl Magic {
    /// The magic's stored word.
    pub open spec fn spec_value(self) -> u32 {
        match self {
            Magic::MD21 => MAGIC_MD21,
            Magic::MD20 => MAGIC_MD20,
        }
    }

    /// Classifies a stored word.
    pub fn from_u32(v: u32) -> (r: Option<Magic>)
        ensures
            (match r {
                Some(m) => m.spec_value() == v,
                None => v != MAGIC_MD20 && v != MAGIC_MD21,
            }),
    {
        if v == MAGIC_MD20 {
            Some(Magic::MD20)
        } else if v == MAGIC_MD21 {
            Some(Magic::MD21)
        } else {
            None
        }
    }
}

/// The chunk tags the decoder recognizes; all but `MD21` carry optional
/// file-id overrides and are skipped.
#[derive(Debug, Clone, Copy, PartialEq, Eq, Structural)]
pub enum ChunkType {
    /// A legacy payload found where a chunk tag was expected.
    MD20,
    /// The wrapped payload chunk, the one this decoder requires.
    MD21,
    /// Skin file-id overrides.
    SFID,
    /// Texture file-id overrides.
    TXID,
    /// Skeleton file-id override.
    SKID,
    /// Bone file-id overrides.
    BFID,
    /// Animation file-id overrides.
    AFID,
}

impl ChunkType {
    /// The tag's stored word.
    pub open spec fn spec_value(self) -> u32 {
        match self {
            ChunkType::MD20 => MAGIC_MD20,
            ChunkType::MD21 => MAGIC_MD21,
            ChunkType::SFID => CHUNK_SFID,
            ChunkType::TXID => CHUNK_TXID,
            ChunkType::SKID => CHUNK_SKID,
            ChunkType::BFID => CHUNK_BFID,
            ChunkType::AFID => CHUNK_AFID,
        }
    }

    /// Classifies a stored chunk tag.
    pub fn from_u32(v: u32) -> (r: Option<ChunkType>)
        ensures
            (match r {
                Some(c) => c.spec_value() == v,
                None => v != MAGIC_MD20 && v != MAGIC_MD21 && v != CHUNK_SFID && v != CHUNK_TXID
                    && v != CHUNK_SKID && v != CHUNK_BFID && v != CHUNK_AFID,
            }),
    {
        if v == MAGIC_MD20 {
            Some(ChunkType::MD20)
        } else if v == MAGIC_MD21 {
            Some(ChunkType::MD21)
        } else if v == CHUNK_SFID {
            Some(ChunkType::SFID)
        } else if v == CHUNK_TXID {
            Some(ChunkType::TXID)
        } else if v == CHUNK_SKID {
            Some(ChunkType::SKID)
        } else if v == CHUNK_BFID {
            Some(ChunkType::BFID)
        } else if v == CHUNK_AFID {
            Some(ChunkType::AFID)
        } else {
            None
        }
    }
}

/// Where the wrapped payload starts: walk the chunks from `pos` and return
/// the byte offset just past the first `MD21` tag.
pub open spec fn find_md21(s: Seq<u8>, pos: int) -> Option<int>
    decreases s.len() - pos,
{
    if pos < 0 || pos + 8 > s.len() {
        None
    } else if le32(s, pos) == MAGIC_MD21 {
        Some(pos + 8)
    } else if pos + 8 + le32(s, pos + 4) > s.len() {
        None
    } else {
        find_md21(s, pos + 8 + le32(s, pos + 4))
    }
}

/// Where a model buffer's payload starts: at 0 for a legacy buffer, past
/// the `MD21` chunk header for a chunked one.
pub open spec fn m2_payload_ofs(s: Seq<u8>) -> Option<int> {
    if s.len() < 4 {
        None
    } else if le32(s, 0) == MAGIC_MD20 {
        Some(0)
    } else if le32(s, 0) == MAGIC_MD21 {
        find_md21(s, 0)
    } else {
        None
    }
}

/// Whether a model buffer decodes: its payload is found and complete.
pub open spec fn m2_load_ok(s: Seq<u8>) -> bool {
    match m2_payload_ofs(s) {
        Some(p) => md20_ok(s, p),
        None => false,
    }
}

/// A decoded model together with the logical path it was requested under,
/// from which its companion skin names derive.
#[derive(Debug, Clone, PartialEq, Eq)]
pub struct M2Old {
    /// The model's logical path.
    pub file_id: Vec<u8>,
    /// The decoded payload.
    pub data: Data,
}

/// Decodes a model buffer: a legacy buffer is one payload; a chunked
/// buffer is walked tag by tag until the wrapped payload chunk is found.
#[verifier::loop_isolation(false)]
pub fn load(raw_data: &[u8], file_id: Vec<u8>) -> (r: Result<M2Old, Error>)
    ensures
        (r is Ok <==> m2_load_ok(raw_data@)),
        (r matches Ok(m) ==> m.file_id@ == file_id@ && md20_matches(
            raw_data@,
            m2_payload_ofs(raw_data@)->Some_0,
            m.data,
        )),
        (raw_data@.len() >= 4 && le32(raw_data@, 0) != MAGIC_MD20 && le32(raw_data@, 0)
            != MAGIC_MD21 ==> r == Err::<M2Old, Error>(Error::InvalidMagic(le32(raw_data@, 0)))),
{
    let ghost s = raw_data@;
    let len = raw_data.len();
    if len < 4 {
        return Err(Error::Truncated(4, len));
    }
    let magic = read_u32_le(raw_data, 0);
    let dispatch = Magic::from_u32(magic);
    if dispatch == Some(Magic::MD20) {
        match parse_chunk(raw_data, 0) {
            Ok(data) => Ok(M2Old { file_id, data }),
            Err(e) => Err(e),
        }
    } else if dispatch == Some(Magic::MD21) {
        let mut pos: usize = 0;
        while pos + 8 <= len
            invariant
                pos <= len,
                find_md21(s, 0) == find_md21(s, pos as int),
            decreases len - pos,
        {
            let tag = read_u32_le(raw_data, pos);
            let size = read_u32_le(raw_data, pos + 4);
            match ChunkType::from_u32(tag) {
                Some(ChunkType::MD21) => {
                    proof {
                        assert(find_md21(s, pos as int) == Some(pos + 8));
                    }
                    return (match parse_chunk(raw_data, pos + 8) {
                        Ok(data) => Ok(M2Old { file_id, data }),
                        Err(e) => Err(e),
                    });
                },
                _ => {},
            }
            let next: u128 = pos as u128 + 8 + size as u128;
            if next > len as u128 {
                return Err(Error::CorruptData);
            }
            pos = pos + 8 + size as usize;
        }
        proof {
            assert(find_md21(s, pos as int) is None);
        }
        Err(Error::CorruptData)
    } else {
        Err(Error::InvalidMagic(magic))
    }
}

/// The decimal digits of `n`.
pub open spec fn dec_digits(n: int) -> Seq<u8>
    decreases n,
{
    if n < 10 {
        seq![(0x30 + if n >= 0 { n } else { 0 }) as u8]
    } else {
        dec_digits(n / 10).push((0x30 + n % 10) as u8)
    }
}

/// The decimal digits of `n`, padded to at least two places.
pub open spec fn dec2(n: int) -> Seq<u8> {
    if n < 10 {
        seq![0x30u8] + dec_digits(n)
    } else {
        dec_digits(n)
    }
}

/// The suffix `.skin`.
pub open spec fn skin_suffix() -> Seq<u8> {
    seq![0x2Eu8, 0x73, 0x6B, 0x69, 0x6E]
}

/// The companion skin name for view `i`: the model's path with its final
/// three characters stripped, then the two-digit view number, then `.skin`.
pub open spec fn skin_name(file_id: Seq<u8>, i: int) -> Seq<u8> {
    file_id.take(file_id.len() - 3) + dec2(i) + skin_suffix()
}

/// Appends the decimal digits of `n`.
fn push_dec(n: usize, out: &mut Vec<u8>)
    ensures
        final(out)@ == old(out)@ + dec_digits(n as int),
    decreases n,
{
    if n < 10 {
        out.push(0x30 + n as u8);
        proof {
            assert(out@ =~= old(out)@ + dec_digits(n as int));
        }
    } else {
        push_dec(n / 10, out);
        out.push(0x30 + (n % 10) as u8);
        proof {
            assert(out@ =~= old(out)@ + dec_digits(n as int));
        }
    }
}

impl M2Old {
    /// The companion skin names this model references: one per view.
    pub fn skin_files(&self) -> (r: Vec<Vec<u8>>)
        requires
            self.file_id@.len() >= 3,
        ensures
            r@.len() == self.data.view_count,
            forall|i: int| 0 <= i < r@.len() ==> (#[trigger] r@[i])@ == skin_name(self.file_id@, i),
    {
        let count = self.data.view_count();
        let base_len = self.file_id.len() - 3;
        let mut files: Vec<Vec<u8>> = Vec::new();
        let mut i: usize = 0;
        while i < count
            invariant
                self.file_id@.len() >= 3,
                base_len == self.file_id@.len() - 3,
                i <= count,
                files@.len() == i,
                forall|j: int|
                    0 <= j < i ==> (#[trigger] files@[j])@ == skin_name(self.file_id@, j),
            decreases count - i,
        {
            let mut name = take_range(self.file_id.as_slice(), 0, base_len);
            if i < 10 {
                name.push(0x30);
            }
            push_dec(i, &mut name);
            name.push(0x2E);
            name.push(0x73);
            name.push(0x6B);
            name.push(0x69);
            name.push(0x6E);
            proof {
                assert(name@ =~= skin_name(self.file_id@, i as int));
            }
            files.push(name);
            i = i + 1;
        }
        files
    }
}

} // verus!
