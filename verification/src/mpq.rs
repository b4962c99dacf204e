//! The archive reader: header and table parsing, name lookup, and payload
//! reassembly from sectors.

use vstd::prelude::*;
use vstd::slice::slice_to_vec;

use crate::bytes::{le16, le32, read_u16_le, read_u32_le, take_range};
use crate::compress::{decompress, sector_decode};
use crate::crypt::{decrypt_bytes, hash_of, CryptTable, HashKind};
use crate::errors::Error;

verus! {

/// The archive magic, `MPQ\x1A`, as a little-endian word.
pub const MAGIC_MPQ: u32 = 0x1A51504D;

/// Block flag: the payload is compressed sector-wise or as a single unit.
pub const FLAG_COMPRESS: u32 = 0x200;

/// Block flag: the payload is encrypted with a per-entry key.
pub const FLAG_ENCRYPTED: u32 = 0x10000;

/// Block flag: the payload is stored as one unit, not split into sectors.
pub const FLAG_SINGLE_UNIT: u32 = 0x1000000;

/// Block flag: a checksum sector follows the payload sectors.
pub const FLAG_SECTOR_CRC: u32 = 0x4000000;

/// Block flag: the block describes a stored entry.
pub const FLAG_EXISTS: u32 = 0x80000000;

/// Hash-table marker: the slot was never used.
pub const BLOCK_INDEX_EMPTY: u32 = 0xFFFFFFFF;

/// Hash-table marker: the slot's entry was deleted.
pub const BLOCK_INDEX_DELETED: u32 = 0xFFFFFFFE;

/// The fixed archive header.
#[derive(Debug, Clone, Copy, PartialEq, Eq, Structural)]
pub struct MpqHeader {
    /// Size of the header itself.
    pub header_size: u32,
    /// Size of the whole archive.
    pub archive_size: u32,
    /// Format version; 0 and 1 are recognized.
    pub format_version: u16,
    /// log2 of the sector size beyond 512.
    pub sector_shift: u16,
    /// Offset of the encrypted hash table.
    pub hash_table_offset: u32,
    /// Offset of the encrypted block table.
    pub block_table_offset: u32,
    /// Number of hash-table entries.
    pub hash_table_entries: u32,
    /// Number of block-table entries.
    pub block_table_entries: u32,
    /// Low word of the extended block-table offset (version 1 only).
    pub ext_block_table_offset_lo: u32,
    /// High word of the extended block-table offset (version 1 only).
    pub ext_block_table_offset_hi: u32,
    /// High bits of the hash-table offset (version 1 only).
    pub hash_table_offset_hi: u16,
    /// High bits of the block-table offset (version 1 only).
    pub block_table_offset_hi: u16,
}

/// One hash-table entry.
#[derive(Debug, Clone, Copy, PartialEq, Eq, Structural)]
pub struct HashEntry {
    /// The first name hash.
    pub hash_a: u32,
    /// The second name hash.
    pub hash_b: u32,
    /// Locale tag of the entry.
    pub locale: u16,
    /// Platform tag of the entry.
    pub platform: u16,
    /// Index into the block table, or one of the two marker values.
    pub block_index: u32,
}

/// One block-table entry.
#[derive(Debug, Clone, Copy, PartialEq, Eq, Structural)]
pub struct BlockEntry {
    /// Offset of the payload within the archive.
    pub file_offset: u32,
    /// Stored (possibly compressed) byte length.
    pub archive_size: u32,
    /// Uncompressed byte length.
    pub logical_size: u32,
    /// Flag bits.
    pub flags: u32,
}

/// The header fields as laid out at the front of the archive.
pub open spec fn header_of(s: Seq<u8>) -> MpqHeader {
    MpqHeader {
        header_size: le32(s, 4),
        archive_size: le32(s, 8),
        format_version: le16(s, 12),
        sector_shift: le16(s, 14),
        hash_table_offset: le32(s, 16),
        block_table_offset: le32(s, 20),
        hash_table_entries: le32(s, 24),
        block_table_entries: le32(s, 28),
        ext_block_table_offset_lo: if le16(s, 12) == 1 {
            le32(s, 32)
        } else {
            0
        },
        ext_block_table_offset_hi: if le16(s, 12) == 1 {
            le32(s, 36)
        } else {
            0
        },
        hash_table_offset_hi: if le16(s, 12) == 1 {
            le16(s, 40)
        } else {
            0
        },
        block_table_offset_hi: if le16(s, 12) == 1 {
            le16(s, 42)
        } else {
            0
        },
    }
}

/// Whether the buffer starts with a well-formed header of a supported
/// version.
pub open spec fn header_ok(s: Seq<u8>) -> bool {
    &&& s.len() >= 32
    &&& le32(s, 0) == MAGIC_MPQ
    &&& le16(s, 12) <= 1
    &&& (le16(s, 12) == 1 ==> s.len() >= 44)
}

/// Parses the archive header: magic, then the fixed fields, then the
/// version-1 extension.
pub fn parse_header(data: &[u8]) -> (r: Result<MpqHeader, Error>)
    ensures
        (r is Ok <==> header_ok(data@)),
        (r matches Ok(h) ==> h == header_of(data@)),
        data@.len() < 32 ==> r == Err::<MpqHeader, Error>(
            Error::Truncated(32, data@.len() as usize),
        ),
        data@.len() >= 32 && le32(data@, 0) != MAGIC_MPQ ==> r == Err::<MpqHeader, Error>(
            Error::InvalidMagic(le32(data@, 0)),
        ),
        data@.len() >= 32 && le32(data@, 0) == MAGIC_MPQ && le16(data@, 12) > 1 ==> r == Err::<
            MpqHeader,
            Error,
        >(Error::UnsupportedVersion(le16(data@, 12) as u32)),
{
    if data.len() < 32 {
        return Err(Error::Truncated(32, data.len()));
    }
    let magic = read_u32_le(data, 0);
    if magic != MAGIC_MPQ {
        return Err(Error::InvalidMagic(magic));
    }
    let format_version = read_u16_le(data, 12);
    if format_version > 1 {
        return Err(Error::UnsupportedVersion(format_version as u32));
    }
    if format_version == 1 && data.len() < 44 {
        return Err(Error::Truncated(44, data.len()));
    }
    let v1 = format_version == 1;
    Ok(
        MpqHeader {
            header_size: read_u32_le(data, 4),
            archive_size: read_u32_le(data, 8),
            format_version,
            sector_shift: read_u16_le(data, 14),
            hash_table_offset: read_u32_le(data, 16),
            block_table_offset: read_u32_le(data, 20),
            hash_table_entries: read_u32_le(data, 24),
            block_table_entries: read_u32_le(data, 28),
            ext_block_table_offset_lo: if v1 {
                read_u32_le(data, 32)
            } else {
                0
            },
            ext_block_table_offset_hi: if v1 {
                read_u32_le(data, 36)
            } else {
                0
            },
            hash_table_offset_hi: if v1 {
                read_u16_le(data, 40)
            } else {
                0
            },
            block_table_offset_hi: if v1 {
                read_u16_le(data, 42)
            } else {
                0
            },
        },
    )
}

/// The hash-table entry stored at byte offset `base` of a decrypted table.
pub open spec fn hash_entry_spec(s: Seq<u8>, base: int) -> HashEntry {
    HashEntry {
        hash_a: le32(s, base),
        hash_b: le32(s, base + 4),
        locale: le16(s, base + 8),
        platform: le16(s, base + 10),
        block_index: le32(s, base + 12),
    }
}

/// The block-table entry stored at byte offset `base` of a decrypted table.
pub open spec fn block_entry_spec(s: Seq<u8>, base: int) -> BlockEntry {
    BlockEntry {
        file_offset: le32(s, base),
        archive_size: le32(s, base + 4),
        logical_size: le32(s, base + 8),
        flags: le32(s, base + 12),
    }
}

/// The byte string `(hash table)`, whose hash keys the hash-table cipher.
pub open spec fn hash_table_key_name() -> Seq<u8> {
    seq![0x28u8, 0x68, 0x61, 0x73, 0x68, 0x20, 0x74, 0x61, 0x62, 0x6c, 0x65, 0x29]
}

/// The byte string `(block table)`, whose hash keys the block-table cipher.
pub open spec fn block_table_key_name() -> Seq<u8> {
    seq![0x28u8, 0x62, 0x6c, 0x6f, 0x63, 0x6b, 0x20, 0x74, 0x61, 0x62, 0x6c, 0x65, 0x29]
}

/// The byte string `(listfile)`, the optional name index entry.
pub open spec fn listfile_name() -> Seq<u8> {
    seq![0x28u8, 0x6c, 0x69, 0x73, 0x74, 0x66, 0x69, 0x6c, 0x65, 0x29]
}

fn hash_table_key_bytes() -> (r: Vec<u8>)
    ensures
        r@ == hash_table_key_name(),
{
    let mut v: Vec<u8> = Vec::new();
    v.push(0x28);
    v.push(0x68);
    v.push(0x61);
    v.push(0x73);
    v.push(0x68);
    v.push(0x20);
    v.push(0x74);
    v.push(0x61);
    v.push(0x62);
    v.push(0x6c);
    v.push(0x65);
    v.push(0x29);
    proof {
        assert(v@ =~= hash_table_key_name());
    }
    v
}

fn block_table_key_bytes() -> (r: Vec<u8>)
    ensures
        r@ == block_table_key_name(),
{
    let mut v: Vec<u8> = Vec::new();
    v.push(0x28);
    v.push(0x62);
    v.push(0x6c);
    v.push(0x6f);
    v.push(0x63);
    v.push(0x6b);
    v.push(0x20);
    v.push(0x74);
    v.push(0x61);
    v.push(0x62);
    v.push(0x6c);
    v.push(0x65);
    v.push(0x29);
    proof {
        assert(v@ =~= block_table_key_name());
    }
    v
}

fn listfile_name_bytes() -> (r: Vec<u8>)
    ensures
        r@ == listfile_name(),
{
    let mut v: Vec<u8> = Vec::new();
    v.push(0x28);
    v.push(0x6c);
    v.push(0x69);
    v.push(0x73);
    v.push(0x74);
    v.push(0x66);
    v.push(0x69);
    v.push(0x6c);
    v.push(0x65);
    v.push(0x29);
    proof {
        assert(v@ =~= listfile_name());
    }
    v
}

/// Whether the regions named by the header lie inside the buffer.
pub open spec fn tables_in_bounds(s: Seq<u8>) -> bool {
    let h = header_of(s);
    &&& h.hash_table_offset + 16 * h.hash_table_entries <= s.len()
    &&& h.block_table_offset + 16 * h.block_table_entries <= s.len()
}

/// The archive's hash table: the named region, decrypted and deserialized.
pub open spec fn hash_entries_of(s: Seq<u8>) -> Seq<HashEntry> {
    let h = header_of(s);
    let enc = s.subrange(
        h.hash_table_offset as int,
        h.hash_table_offset + 16 * h.hash_table_entries,
    );
    let dec = decrypt_bytes(enc, hash_of(hash_table_key_name(), 3));
    Seq::new(h.hash_table_entries as nat, |i: int| hash_entry_spec(dec, 16 * i))
}

/// The archive's block table: the named region, decrypted and deserialized.
pub open spec fn block_entries_of(s: Seq<u8>) -> Seq<BlockEntry> {
    let h = header_of(s);
    let enc = s.subrange(
        h.block_table_offset as int,
        h.block_table_offset + 16 * h.block_table_entries,
    );
    let dec = decrypt_bytes(enc, hash_of(block_table_key_name(), 3));
    Seq::new(h.block_table_entries as nat, |i: int| block_entry_spec(dec, 16 * i))
}

/// Whether a hash-table slot holds a live entry rather than a marker.
pub open spec fn live(e: HashEntry) -> bool {
    e.block_index != BLOCK_INDEX_EMPTY && e.block_index != BLOCK_INDEX_DELETED
}

/// No two live slots carry the same hash pair.
pub open spec fn no_dup_live(hes: Seq<HashEntry>) -> bool {
    forall|i: int, j: int|
        0 <= i < j < hes.len() && live(hes[i]) && live(hes[j]) ==> !(hes[i].hash_a == hes[j].hash_a
            && hes[i].hash_b == hes[j].hash_b)
}

/// The first live slot at or after `i` whose hash pair is `(a, b)`.
pub open spec fn find_match_from(hes: Seq<HashEntry>, a: u32, b: u32, i: int) -> Option<int>
    decreases hes.len() - i,
{
    if i < 0 || i >= hes.len() {
        None
    } else if live(hes[i]) && hes[i].hash_a == a && hes[i].hash_b == b {
        Some(i)
    } else {
        find_match_from(hes, a, b, i + 1)
    }
}

/// The first live slot whose hash pair is `(a, b)`.
pub open spec fn find_match(hes: Seq<HashEntry>, a: u32, b: u32) -> Option<int> {
    find_match_from(hes, a, b, 0)
}

/// The block entry a name resolves to: probe by hash pair, then follow the
/// block index, which must name an existing block.
pub open spec fn spec_lookup_block(
    hes: Seq<HashEntry>,
    bes: Seq<BlockEntry>,
    name: Seq<u8>,
) -> Option<BlockEntry> {
    match find_match(hes, hash_of(name, 1), hash_of(name, 2)) {
        Some(i) => {
            let bi = hes[i].block_index as int;
            if bi < bes.len() && bes[bi].flags & FLAG_EXISTS != 0 {
                Some(bes[bi])
            } else {
                None
            }
        },
        None => None,
    }
}

/// Lookup never distinguishes two names whose bytes agree after hash
/// canonicalization: ASCII case and the slash direction do not matter.
pub proof fn lemma_lookup_ignores_case_and_slashes(
    hes: Seq<HashEntry>,
    bes: Seq<BlockEntry>,
    a: Seq<u8>,
    b: Seq<u8>,
)
    requires
        a.len() == b.len(),
        forall|i: int|
            0 <= i < a.len() ==> crate::crypt::spec_canon_byte(a[i])
                == crate::crypt::spec_canon_byte(b[i]),
    ensures
        spec_lookup_block(hes, bes, a) == spec_lookup_block(hes, bes, b),
{
    crate::crypt::lemma_hash_ignores_case_and_slashes(a, b, 1);
    crate::crypt::lemma_hash_ignores_case_and_slashes(a, b, 2);
}

/// The sector size named by the header: `512 << sector_shift`.
pub open spec fn spec_sector_size(shift: u16) -> int {
    (512u64 << (shift as u64)) as int
}

/// How many sectors a payload of `logical` bytes occupies.
pub open spec fn sectors_needed(logical: int, ssize: int) -> int {
    (logical + ssize - 1) / ssize
}

/// The uncompressed length of sector `i`: a full sector except for the
/// last one.
pub open spec fn sector_expected(logical: int, ssize: int, i: int) -> int {
    if logical - i * ssize < ssize {
        logical - i * ssize
    } else {
        ssize
    }
}

/// The well-formedness of a sector-offset table: it spans itself, grows
/// monotonically, and ends inside the stored payload.
pub open spec fn positions_ok(pos: Seq<u32>, asize: int) -> bool {
    &&& pos.len() >= 1
    &&& pos[0] == 4 * pos.len()
    &&& (forall|i: int| 0 <= i < pos.len() - 1 ==> #[trigger] pos[i] <= pos[i + 1])
    &&& pos[pos.len() - 1] <= asize
}

/// The first `k` sectors, each taken verbatim or decompressed: a stored
/// sector is decompressed exactly when the block is compressed and the
/// stored sector is shorter than its uncompressed length.
pub open spec fn assemble(
    raw: Seq<u8>,
    pos: Seq<u32>,
    compressed: bool,
    logical: int,
    ssize: int,
    k: int,
) -> Option<Seq<u8>>
    decreases k,
{
    if k <= 0 {
        Some(Seq::<u8>::empty())
    } else {
        match assemble(raw, pos, compressed, logical, ssize, k - 1) {
            Some(acc) => {
                let start = pos[k - 1] as int;
                let end = pos[k] as int;
                let chunk = raw.subrange(start, end);
                if compressed && end - start < sector_expected(logical, ssize, k - 1) {
                    match sector_decode(chunk) {
                        Some(p) => Some(acc + p),
                        None => None,
                    }
                } else {
                    Some(acc + chunk)
                }
            },
            None => None,
        }
    }
}

/// The error of the first failing sector among the first `k`: sectors
/// before it assembled, and only a decompressed sector can fail.
#[verifier::opaque]
pub open spec fn assemble_err(
    raw: Seq<u8>,
    pos: Seq<u32>,
    compressed: bool,
    logical: int,
    ssize: int,
    k: int,
) -> Error
    decreases k,
{
    if k <= 0 {
        Error::CorruptData
    } else if assemble(raw, pos, compressed, logical, ssize, k - 1) is None {
        assemble_err(raw, pos, compressed, logical, ssize, k - 1)
    } else {
        crate::compress::sector_err(raw.subrange(pos[k - 1] as int, pos[k] as int))
    }
}

/// The error a failing multi-sector read reports: a malformed offset
/// table or output length gives `CorruptData`; otherwise the first
/// failing sector's own error.
#[verifier::opaque]
pub open spec fn multi_sector_err(raw: Seq<u8>, ssize: int, b: BlockEntry) -> Error {
    let n = sectors_needed(b.logical_size as int, ssize);
    if raw.len() < 4 * (n + 1) {
        Error::CorruptData
    } else {
        let pos = Seq::new((n + 1) as nat, |i: int| le32(raw, 4 * i));
        if !positions_ok(pos, raw.len() as int) {
            Error::CorruptData
        } else {
            match assemble(raw, pos, b.flags & FLAG_COMPRESS != 0, b.logical_size as int, ssize, n) {
                Some(v) => Error::CorruptData,
                None => assemble_err(
                    raw,
                    pos,
                    b.flags & FLAG_COMPRESS != 0,
                    b.logical_size as int,
                    ssize,
                    n,
                ),
            }
        }
    }
}

/// The error a failing block read reports, fixed by the block and the
/// archive's bytes alone.
#[verifier::opaque]
pub open spec fn block_read_err(data: Seq<u8>, ssize: int, b: BlockEntry) -> Error {
    if b.file_offset + b.archive_size > data.len() {
        Error::Truncated(b.archive_size as usize, data.len() as usize)
    } else if b.flags & FLAG_ENCRYPTED != 0 {
        Error::Encrypted
    } else {
        let raw = data.subrange(b.file_offset as int, b.file_offset + b.archive_size);
        if b.flags & FLAG_SINGLE_UNIT != 0 {
            if b.flags & FLAG_COMPRESS != 0 && b.logical_size != b.archive_size {
                match sector_decode(raw) {
                    Some(v) => Error::CorruptData,
                    None => crate::compress::sector_err(raw),
                }
            } else {
                Error::CorruptData
            }
        } else {
            multi_sector_err(raw, ssize, b)
        }
    }
}

/// The payload of a multi-sector block: read the offset table from the
/// front of the stored bytes, reassemble every sector, and require the
/// result to have exactly the logical length.
pub open spec fn multi_sector_read(raw: Seq<u8>, ssize: int, b: BlockEntry) -> Option<Seq<u8>> {
    let n = sectors_needed(b.logical_size as int, ssize);
    if raw.len() < 4 * (n + 1) {
        None
    } else {
        let pos = Seq::new((n + 1) as nat, |i: int| le32(raw, 4 * i));
        if !positions_ok(pos, raw.len() as int) {
            None
        } else {
            match assemble(raw, pos, b.flags & FLAG_COMPRESS != 0, b.logical_size as int, ssize, n) {
                Some(v) => if v.len() == b.logical_size {
                    Some(v)
                } else {
                    None
                },
                None => None,
            }
        }
    }
}

/// The payload of a block. An empty stored length yields an empty payload;
/// an encrypted block is refused; a single-unit block is decompressed
/// exactly when it is compressed and the two lengths differ; anything else
/// goes sector-wise. `None` stands for any failure.
#[verifier::opaque]
pub open spec fn file_read(data: Seq<u8>, ssize: int, b: BlockEntry) -> Option<Seq<u8>> {
    if b.archive_size == 0 {
        Some(Seq::<u8>::empty())
    } else if b.file_offset + b.archive_size > data.len() {
        None
    } else if b.flags & FLAG_ENCRYPTED != 0 {
        None
    } else {
        let raw = data.subrange(b.file_offset as int, b.file_offset + b.archive_size);
        if b.flags & FLAG_SINGLE_UNIT != 0 {
            if b.flags & FLAG_COMPRESS != 0 && b.logical_size != b.archive_size {
                match sector_decode(raw) {
                    Some(v) => if v.len() == b.logical_size {
                        Some(v)
                    } else {
                        None
                    },
                    None => None,
                }
            } else if b.logical_size == b.archive_size {
                Some(raw)
            } else {
                None
            }
        } else {
            multi_sector_read(raw, ssize, b)
        }
    }
}

/// Splitting a listfile into lines: the lines finished so far and the
/// partial line after the last break. A line break is `\n`; a trailing
/// `\r` belongs to the break; empty lines are dropped.
pub open spec fn split_fold(s: Seq<u8>) -> (Seq<Seq<u8>>, Seq<u8>)
    decreases s.len(),
{
    if s.len() == 0 {
        (Seq::<Seq<u8>>::empty(), Seq::<u8>::empty())
    } else {
        let prev = split_fold(s.drop_last());
        let b = s.last();
        if b == 0x0A {
            let line = trim_cr(prev.1);
            if line.len() == 0 {
                (prev.0, Seq::<u8>::empty())
            } else {
                (prev.0.push(line), Seq::<u8>::empty())
            }
        } else {
            (prev.0, prev.1.push(b))
        }
    }
}

/// Strips one trailing `\r`.
pub open spec fn trim_cr(s: Seq<u8>) -> Seq<u8> {
    if s.len() > 0 && s.last() == 0x0D {
        s.drop_last()
    } else {
        s
    }
}

/// The non-empty lines of a listfile.
pub open spec fn split_lines(s: Seq<u8>) -> Seq<Seq<u8>> {
    let f = split_fold(s);
    let line = trim_cr(f.1);
    if line.len() == 0 {
        f.0
    } else {
        f.0.push(line)
    }
}

/// Splits a decoded listfile into its names.
pub fn split_lines_exec(s: &[u8]) -> (r: Vec<Vec<u8>>)
    ensures
        r@.map_values(|v: Vec<u8>| v@) == split_lines(s@),
{
    let mut lines: Vec<Vec<u8>> = Vec::new();
    let mut cur: Vec<u8> = Vec::new();
    let mut i: usize = 0;
    while i < s.len()
        invariant
            i <= s@.len(),
            (lines@.map_values(|v: Vec<u8>| v@), cur@) == split_fold(s@.take(i as int)),
        decreases s@.len() - i,
    {
        let b = s[i];
        proof {
            assert(s@.take(i + 1).drop_last() =~= s@.take(i as int));
            assert(s@.take(i + 1).last() == s@[i as int]);
        }
        if b == 0x0A {
            let line_len = if cur.len() > 0 && cur[cur.len() - 1] == 0x0D {
                cur.len() - 1
            } else {
                cur.len()
            };
            if line_len > 0 {
                cur.truncate(line_len);
                proof {
                    assert(cur@ =~= trim_cr(split_fold(s@.take(i as int)).1));
                }
                let ghost old_lines = lines@.map_values(|v: Vec<u8>| v@);
                lines.push(cur);
                proof {
                    assert(lines@.map_values(|v: Vec<u8>| v@) =~= old_lines.push(
                        trim_cr(split_fold(s@.take(i as int)).1),
                    ));
                }
            } else {
                proof {
                    assert(trim_cr(split_fold(s@.take(i as int)).1).len() == 0);
                }
            }
            cur = Vec::new();
        } else {
            cur.push(b);
        }
        i = i + 1;
    }
    proof {
        assert(s@.take(i as int) =~= s@);
    }
    let line_len = if cur.len() > 0 && cur[cur.len() - 1] == 0x0D {
        cur.len() - 1
    } else {
        cur.len()
    };
    if line_len > 0 {
        cur.truncate(line_len);
        proof {
            assert(cur@ =~= trim_cr(split_fold(s@).1));
        }
        let ghost old_lines = lines@.map_values(|v: Vec<u8>| v@);
        lines.push(cur);
        proof {
            assert(lines@.map_values(|v: Vec<u8>| v@) =~= old_lines.push(trim_cr(split_fold(s@).1)));
        }
    } else {
        proof {
            assert(trim_cr(split_fold(s@).1).len() == 0);
        }
    }
    lines
}

/// Whether a whole archive opens: the header is supported, the sector
/// shift is sane, both tables lie inside the buffer, no two live hash
/// slots collide, and the name index, if present, decodes.
#[verifier::opaque]
pub open spec fn open_ok(data: Seq<u8>) -> bool {
    &&& header_ok(data)
    &&& header_of(data).sector_shift <= 15
    &&& tables_in_bounds(data)
    &&& no_dup_live(hash_entries_of(data))
    &&& (match spec_lookup_block(hash_entries_of(data), block_entries_of(data), listfile_name()) {
        Some(b) => file_read(
            data,
            spec_sector_size(header_of(data).sector_shift),
            b,
        ) is Some,
        None => true,
    })
}

/// Deserializes a decrypted hash table, sixteen bytes per entry.
fn parse_hash_entries(bytes: &[u8]) -> (r: Vec<HashEntry>)
    requires
        bytes@.len() % 16 == 0,
    ensures
        r@.len() == bytes@.len() / 16,
        forall|i: int| 0 <= i < r@.len() ==> r@[i] == hash_entry_spec(bytes@, 16 * i),
{
    let n = bytes.len() / 16;
    let mut out: Vec<HashEntry> = Vec::new();
    let mut i: usize = 0;
    while i < n
        invariant
            n == bytes@.len() / 16,
            bytes@.len() % 16 == 0,
            bytes@.len() <= usize::MAX,
            i <= n,
            out@.len() == i,
            forall|j: int| 0 <= j < i ==> out@[j] == hash_entry_spec(bytes@, 16 * j),
        decreases n - i,
    {
        let base = 16 * i;
        out.push(
            HashEntry {
                hash_a: read_u32_le(bytes, base),
                hash_b: read_u32_le(bytes, base + 4),
                locale: read_u16_le(bytes, base + 8),
                platform: read_u16_le(bytes, base + 10),
                block_index: read_u32_le(bytes, base + 12),
            },
        );
        i = i + 1;
    }
    out
}

/// Deserializes a decrypted block table, sixteen bytes per entry.
fn parse_block_entries(bytes: &[u8]) -> (r: Vec<BlockEntry>)
    requires
        bytes@.len() % 16 == 0,
    ensures
        r@.len() == bytes@.len() / 16,
        forall|i: int| 0 <= i < r@.len() ==> r@[i] == block_entry_spec(bytes@, 16 * i),
{
    let n = bytes.len() / 16;
    let mut out: Vec<BlockEntry> = Vec::new();
    let mut i: usize = 0;
    while i < n
        invariant
            n == bytes@.len() / 16,
            bytes@.len() % 16 == 0,
            bytes@.len() <= usize::MAX,
            i <= n,
            out@.len() == i,
            forall|j: int| 0 <= j < i ==> out@[j] == block_entry_spec(bytes@, 16 * j),
        decreases n - i,
    {
        let base = 16 * i;
        out.push(
            BlockEntry {
                file_offset: read_u32_le(bytes, base),
                archive_size: read_u32_le(bytes, base + 4),
                logical_size: read_u32_le(bytes, base + 8),
                flags: read_u32_le(bytes, base + 12),
            },
        );
        i = i + 1;
    }
    out
}

/// Decides whether no two live hash slots carry the same hash pair.
fn check_no_dup(hes: &Vec<HashEntry>) -> (r: bool)
    ensures
        r == no_dup_live(hes@),
{
    let ne = hes.len();
    let mut i: usize = 0;
    while i < ne
        invariant
            ne == hes@.len(),
            i <= ne,
            forall|x: int, y: int|
                0 <= x < y < ne && x < i && live(hes@[x]) && live(hes@[y]) ==> !(hes@[x].hash_a
                    == hes@[y].hash_a && hes@[x].hash_b == hes@[y].hash_b),
        decreases ne - i,
    {
        let ei = hes[i];
        if ei.block_index != BLOCK_INDEX_EMPTY && ei.block_index != BLOCK_INDEX_DELETED {
            let mut j: usize = i + 1;
            while j < ne
                invariant
                    ne == hes@.len(),
                    i < j <= ne,
                    i < ne,
                    ei == hes@[i as int],
                    live(hes@[i as int]),
                    forall|y: int|
                        i < y < j && live(hes@[y]) ==> !(hes@[i as int].hash_a == hes@[y].hash_a
                            && hes@[i as int].hash_b == hes@[y].hash_b),
                decreases ne - j,
            {
                let ej = hes[j];
                if ej.block_index != BLOCK_INDEX_EMPTY && ej.block_index != BLOCK_INDEX_DELETED
                    && ei.hash_a == ej.hash_a && ei.hash_b == ej.hash_b {
                    proof {
                        assert(live(hes@[i as int]) && live(hes@[j as int]) && hes@[i as int].hash_a
                            == hes@[j as int].hash_a && hes@[i as int].hash_b
                            == hes@[j as int].hash_b);
                        assert(!no_dup_live(hes@));
                    }
                    return false;
                }
                j = j + 1;
            }
        }
        i = i + 1;
    }
    true
}

/// What opening an archive over `data` establishes: the archive is
/// well-formed, holds exactly those bytes, its header and decrypted
/// tables are the stored ones, no two live hash slots collide, and its
/// name list is the decoded `(listfile)` entry, or empty without one.
pub open spec fn opened_from(a: Archive, data: Seq<u8>) -> bool {
    &&& a.wf()
    &&& a.spec_data() == data
    &&& a.spec_header() == header_of(data)
    &&& a.spec_hash_entries() == hash_entries_of(data)
    &&& a.spec_block_entries() == block_entries_of(data)
    &&& no_dup_live(a.spec_hash_entries())
    &&& a.spec_listfile() == (match a.spec_read(listfile_name()) {
        Some(p) => split_lines(p),
        None => Seq::<Seq<u8>>::empty(),
    })
}

/// One opened archive: its bytes, its decrypted tables, and the name list
/// from its `(listfile)` entry if it has one.
pub struct Archive {
    data: Vec<u8>,
    header: MpqHeader,
    hash_entries: Vec<HashEntry>,
    block_entries: Vec<BlockEntry>,
    table: CryptTable,
    listfile: Vec<Vec<u8>>,
}

impl Archive {
    /// The archive's raw bytes.
    pub closed spec fn spec_data(&self) -> Seq<u8> {
        self.data@
    }

    /// The parsed header.
    pub closed spec fn spec_header(&self) -> MpqHeader {
        self.header
    }

    /// The decrypted hash table.
    pub closed spec fn spec_hash_entries(&self) -> Seq<HashEntry> {
        self.hash_entries@
    }

    /// The decrypted block table.
    pub closed spec fn spec_block_entries(&self) -> Seq<BlockEntry> {
        self.block_entries@
    }

    /// The names listed by the archive's `(listfile)` entry.
    pub closed spec fn spec_listfile(&self) -> Seq<Seq<u8>> {
        self.listfile@.map_values(|v: Vec<u8>| v@)
    }

    /// The archive's sector size.
    pub open spec fn spec_sector_size(&self) -> int {
        spec_sector_size(self.spec_header().sector_shift)
    }

    /// Internal consistency carried by every opened archive.
    pub closed spec fn wf(&self) -> bool {
        &&& self.table.wf()
        &&& self.data@.len() <= usize::MAX
        &&& self.header.sector_shift <= 15
    }

    /// What a name resolves to in this archive.
    pub open spec fn spec_lookup(&self, name: Seq<u8>) -> Option<BlockEntry> {
        spec_lookup_block(self.spec_hash_entries(), self.spec_block_entries(), name)
    }

    /// The payload a name resolves to, or `None` for any failure.
    #[verifier::opaque]
    pub open spec fn spec_read(&self, name: Seq<u8>) -> Option<Seq<u8>> {
        match self.spec_lookup(name) {
            Some(b) => file_read(self.spec_data(), self.spec_sector_size(), b),
            None => None,
        }
    }

    /// Opens an archive over its whole byte content: parses the header,
    /// decrypts and deserializes both tables, rejects colliding live hash
    /// slots, and decodes the `(listfile)` entry if there is one. A header
    /// that names tables beyond the buffer, or a sector shift above 15,
    /// contradicts its own container and is rejected.
    #[verifier::rlimit(100)]
    pub fn open(data: Vec<u8>) -> (r: Result<Archive, Error>)
        ensures
            (r is Ok <==> open_ok(data@)),
            (r matches Ok(a) ==> opened_from(a, data@)),
    {
        proof {
            reveal(open_ok);
            reveal(Archive::spec_read);
        }
        let table = CryptTable::new();
        let h = match parse_header(data.as_slice()) {
            Ok(h) => h,
            Err(e) => { return Err(e) },
        };
        if h.sector_shift > 15 {
            return Err(Error::CorruptData);
        }
        let hn64: u64 = h.hash_table_entries as u64;
        let bn64: u64 = h.block_table_entries as u64;
        if (h.hash_table_offset as u64) + 16 * hn64 > data.len() as u64 {
            return Err(Error::CorruptData);
        }
        if (h.block_table_offset as u64) + 16 * bn64 > data.len() as u64 {
            return Err(Error::CorruptData);
        }
        let hto: usize = h.hash_table_offset as usize;
        let hlen: usize = 16 * (h.hash_table_entries as usize);
        let bto: usize = h.block_table_offset as usize;
        let blen: usize = 16 * (h.block_table_entries as usize);
        let hash_region = take_range(data.as_slice(), hto, hto + hlen);
        let block_region = take_range(data.as_slice(), bto, bto + blen);
        let hkey_bytes = hash_table_key_bytes();
        let bkey_bytes = block_table_key_bytes();
        let hkey = table.hash_name(hkey_bytes.as_slice(), HashKind::TableKey);
        let bkey = table.hash_name(bkey_bytes.as_slice(), HashKind::TableKey);
        let hash_dec = match table.decrypt(hash_region.as_slice(), hkey) {
            Ok(v) => v,
            Err(e) => { return Err(e) },
        };
        let block_dec = match table.decrypt(block_region.as_slice(), bkey) {
            Ok(v) => v,
            Err(e) => { return Err(e) },
        };
        let hash_entries = parse_hash_entries(hash_dec.as_slice());
        let block_entries = parse_block_entries(block_dec.as_slice());
        proof {
            assert(hash_entries@ =~= hash_entries_of(data@));
            assert(block_entries@ =~= block_entries_of(data@));
        }
        // Two live slots with the same hash pair would make lookups
        // ambiguous; such a table is rejected.
        if !check_no_dup(&hash_entries) {
            return Err(Error::CorruptData);
        }
        let mut a = Archive { data, header: h, hash_entries, block_entries, table, listfile: Vec::new() };
        let lf_name = listfile_name_bytes();
        match a.lookup(lf_name.as_slice()) {
            Ok(b) => {
                match a.read_block(b) {
                    Ok(p) => {
                        a.listfile = split_lines_exec(p.as_slice());
                    },
                    Err(e) => { return Err(e) },
                }
            },
            Err(_) => {},
        }
        proof {
            assert(a.wf());
            assert(a.spec_data() == data@);
            assert(a.spec_header() == header_of(data@));
            assert(a.spec_hash_entries() == hash_entries_of(data@));
            assert(a.spec_block_entries() == block_entries_of(data@));
            assert(no_dup_live(a.spec_hash_entries()));
            assert(a.spec_listfile() == (match a.spec_read(listfile_name()) {
                Some(p) => split_lines(p),
                None => Seq::<Seq<u8>>::empty(),
            }));
            assert(opened_from(a, data@));
            assert(open_ok(data@));
        }
        Ok(a)
    }

    /// The parsed header.
    pub fn header(&self) -> (r: MpqHeader)
        ensures
            r == self.spec_header(),
    {
        self.header
    }

    /// The names from the `(listfile)` entry; empty when the archive has
    /// none.
    pub fn list(&self) -> (r: &Vec<Vec<u8>>)
        ensures
            r@.map_values(|v: Vec<u8>| v@) == self.spec_listfile(),
    {
        &self.listfile
    }

    /// Finds the block entry a name resolves to. The probe is by hash pair,
    /// so ASCII case and the slash direction do not matter.
    pub fn lookup(&self, name: &[u8]) -> (r: Result<BlockEntry, Error>)
        requires
            self.wf(),
        ensures
            (r matches Ok(b) ==> self.spec_lookup(name@) == Some(b)),
            (r is Ok <==> self.spec_lookup(name@) is Some),
            (r matches Err(e) ==> e matches Error::NotFound(n2) && n2@ == name@),
    {
        let a = self.table.hash_name(name, HashKind::NameA);
        let b = self.table.hash_name(name, HashKind::NameB);
        let mut i: usize = 0;
        let n = self.hash_entries.len();
        while i < n
            invariant
                self.wf(),
                n == self.spec_hash_entries().len(),
                i <= n,
                a == hash_of(name@, 1),
                b == hash_of(name@, 2),
                find_match(self.spec_hash_entries(), a, b) == find_match_from(
                    self.spec_hash_entries(),
                    a,
                    b,
                    i as int,
                ),
            decreases n - i,
        {
            let e = self.hash_entries[i];
            if e.block_index != BLOCK_INDEX_EMPTY && e.block_index != BLOCK_INDEX_DELETED
                && e.hash_a == a && e.hash_b == b {
                let bi = e.block_index as usize;
                if bi < self.block_entries.len() {
                    let be = self.block_entries[bi];
                    if be.flags & FLAG_EXISTS != 0 {
                        return Ok(be);
                    }
                }
                return Err(Error::NotFound(slice_to_vec(name)));
            }
            i = i + 1;
        }
        Err(Error::NotFound(slice_to_vec(name)))
    }

    /// Reads and reassembles the payload of one block.
    fn read_block(&self, b: BlockEntry) -> (r: Result<Vec<u8>, Error>)
        requires
            self.wf(),
        ensures
            (r matches Ok(v) ==> file_read(self.spec_data(), self.spec_sector_size(), b) == Some(
                v@,
            )),
            (r is Ok <==> file_read(self.spec_data(), self.spec_sector_size(), b) is Some),
            (r matches Err(e) ==> e == block_read_err(
                self.spec_data(),
                self.spec_sector_size(),
                b,
            )),
            b.archive_size != 0 && b.file_offset + b.archive_size <= self.spec_data().len()
                && b.flags & FLAG_ENCRYPTED != 0 ==> r == Err::<Vec<u8>, Error>(Error::Encrypted),
    {
        proof {
            reveal(file_read);
            reveal(block_read_err);
            reveal(multi_sector_err);
        }
        if b.archive_size == 0 {
            return Ok(Vec::new());
        }
        let off64: u64 = b.file_offset as u64;
        let asize64: u64 = b.archive_size as u64;
        if off64 + asize64 > self.data.len() as u64 {
            return Err(Error::Truncated((b.archive_size as usize), self.data.len()));
        }
        if b.flags & FLAG_ENCRYPTED != 0 {
            return Err(Error::Encrypted);
        }
        let off: usize = b.file_offset as usize;
        let asize: usize = b.archive_size as usize;
        let raw: Vec<u8> = take_range(self.data.as_slice(), off, off + asize);
        let ghost raw_spec = self.spec_data().subrange(
            b.file_offset as int,
            b.file_offset + b.archive_size,
        );
        assert(raw@ == raw_spec);
        if b.flags & FLAG_SINGLE_UNIT != 0 {
            if b.flags & FLAG_COMPRESS != 0 && b.logical_size != b.archive_size {
                match decompress(raw.as_slice()) {
                    Ok(v) => {
                        if v.len() == b.logical_size as usize {
                            Ok(v)
                        } else {
                            Err(Error::CorruptData)
                        }
                    },
                    Err(e) => Err(e),
                }
            } else if b.logical_size == b.archive_size {
                Ok(raw)
            } else {
                Err(Error::CorruptData)
            }
        } else {
            self.read_sectors(raw, b)
        }
    }

    /// Reassembles a multi-sector payload from its stored bytes.
    #[verifier::rlimit(100)]
    #[verifier::spinoff_prover]
    fn read_sectors(&self, raw: Vec<u8>, b: BlockEntry) -> (r: Result<Vec<u8>, Error>)
        requires
            self.wf(),
        ensures
            (r matches Ok(v) ==> multi_sector_read(raw@, self.spec_sector_size(), b) == Some(v@)),
            (r is Ok <==> multi_sector_read(raw@, self.spec_sector_size(), b) is Some),
            (r matches Err(e) ==> e == multi_sector_err(raw@, self.spec_sector_size(), b)),
    {
        proof {
            reveal(multi_sector_err);
            reveal(assemble_err);
        }
        let shift: u16 = self.header.sector_shift;
        proof {
            assert(shift <= 15 ==> 512u64 << (shift as u64) >= 512 && 512u64 << (shift as u64)
                <= 0x1000000) by (bit_vector);
        }
        let ssize: u64 = 512u64 << (shift as u64);
        proof {
            assert(ssize == spec_sector_size(shift));
        }
        let logical: u64 = b.logical_size as u64;
        let n64: u64 = (logical + ssize - 1) / ssize;
        proof {
            let li = logical as int;
            let si = ssize as int;
            let ri = (li + si - 1) % si;
            vstd::arithmetic::div_mod::lemma_fundamental_div_mod(li + si - 1, si);
            assert(0 <= ri < si) by (nonlinear_arith)
                requires
                    si > 0,
                    ri == (li + si - 1) % si,
                    li >= 0,
            ;
            assert(li + si - 1 == si * (n64 as int) + ri);
            assert(512 * (n64 as int) <= li + si - 1) by (nonlinear_arith)
                requires
                    si >= 512,
                    n64 >= 0,
                    ri >= 0,
                    li + si - 1 == si * (n64 as int) + ri,
            ;
            assert(n64 <= 0x1000000);
            assert(n64 == sectors_needed(b.logical_size as int, self.spec_sector_size()));
        }
        let raw_len: usize = raw.len();
        if (raw_len as u64) < 4 * (n64 + 1) {
            return Err(Error::CorruptData);
        }
        let n: usize = n64 as usize;
        let ghost pos_spec = Seq::new((n + 1) as nat, |i: int| le32(raw@, 4 * i));
        let mut pos: Vec<u32> = Vec::new();
        let mut i: usize = 0;
        while i <= n
            invariant
                i <= n + 1,
                4 * (n + 1) <= raw@.len(),
                raw@.len() <= usize::MAX,
                pos@.len() == i,
                forall|j: int| 0 <= j < i ==> pos@[j] == le32(raw@, 4 * j),
            decreases n + 1 - i,
        {
            pos.push(read_u32_le(raw.as_slice(), 4 * i));
            i = i + 1;
        }
        proof {
            assert(pos@ =~= pos_spec);
        }
        // The offset table must span itself, grow monotonically, and end
        // inside the stored payload.
        if pos[0] as u64 != 4 * (n64 + 1) {
            return Err(Error::CorruptData);
        }
        let mut k: usize = 0;
        while k < n
            invariant
                k <= n,
                pos@.len() == n + 1,
                n == sectors_needed(b.logical_size as int, self.spec_sector_size()),
                ssize == self.spec_sector_size(),
                pos@ == pos_spec,
                pos_spec == Seq::new((n + 1) as nat, |i: int| le32(raw@, 4 * i)),
                4 * (n + 1) <= raw@.len(),
                raw@.len() <= usize::MAX,
                forall|j: int| 0 <= j < k ==> #[trigger] pos@[j] <= pos@[j + 1],
            decreases n - k,
        {
            if pos[k] > pos[k + 1] {
                proof {
                    assert(pos@[k as int] > pos@[k + 1]);
                    assert(!positions_ok(pos@, raw@.len() as int));
                    reveal(multi_sector_err);
                }
                return Err(Error::CorruptData);
            }
            k = k + 1;
        }
        if (pos[n] as u64) > raw_len as u64 {
            return Err(Error::CorruptData);
        }
        assert(positions_ok(pos@, raw@.len() as int));
        let compressed = b.flags & FLAG_COMPRESS != 0;
        let mut out: Vec<u8> = Vec::new();
        let mut s: usize = 0;
        while s < n
            invariant
                self.wf(),
                s <= n,
                n == n64,
                n64 <= 0x1000000,
                n == sectors_needed(b.logical_size as int, self.spec_sector_size()),
                512 <= ssize <= 0x1000000,
                ssize == self.spec_sector_size(),
                logical == b.logical_size,
                pos@ == pos_spec,
                pos@.len() == n + 1,
                positions_ok(pos@, raw@.len() as int),
                raw@.len() <= usize::MAX,
                4 * (n + 1) <= raw@.len(),
                pos_spec == Seq::new((n + 1) as nat, |i: int| le32(raw@, 4 * i)),
                compressed == (b.flags & FLAG_COMPRESS != 0),
                Some(out@) == assemble(
                    raw@,
                    pos@,
                    compressed,
                    b.logical_size as int,
                    self.spec_sector_size(),
                    s as int,
                ),
            decreases n - s,
        {
            proof {
                lemma_positions_sorted(pos@, s as int, n as int);
                lemma_positions_sorted(pos@, s + 1, n as int);
                // Every sector before the last starts below the logical
                // length, so the expected length never goes negative.
                let li = logical as int;
                let si = ssize as int;
                let ni = n64 as int;
                let ri = (li + si - 1) % si;
                vstd::arithmetic::div_mod::lemma_fundamental_div_mod(li + si - 1, si);
                assert(0 <= ri < si) by (nonlinear_arith)
                    requires
                        si > 0,
                        ri == (li + si - 1) % si,
                        li >= 0,
                ;
                assert(li + si - 1 == si * (ni as int) + ri);
                assert((s as int) * si < li) by (nonlinear_arith)
                    requires
                        s < ni,
                        si >= 1,
                        0 <= ri < si,
                        li + si - 1 == si * ni + ri,
                ;
            }
            let start: usize = pos[s] as usize;
            let end: usize = pos[s + 1] as usize;
            let mut chunk: Vec<u8> = take_range(raw.as_slice(), start, end);
            let sxs: u64 = (s as u64) * ssize;
            let exp64: u64 = if logical - sxs < ssize {
                logical - sxs
            } else {
                ssize
            };
            proof {
                assert(exp64 == sector_expected(
                    b.logical_size as int,
                    self.spec_sector_size(),
                    s as int,
                ));
            }
            if compressed && ((end - start) as u64) < exp64 {
                match decompress(chunk.as_slice()) {
                    Ok(mut p) => {
                        out.append(&mut p);
                    },
                    Err(e) => {
                        proof {
                            assert(assemble(
                                raw@,
                                pos@,
                                compressed,
                                b.logical_size as int,
                                self.spec_sector_size(),
                                s + 1,
                            ) is None);
                            lemma_assemble_none(
                                raw@,
                                pos@,
                                compressed,
                                b.logical_size as int,
                                self.spec_sector_size(),
                                s + 1,
                                n as int,
                            );
                            lemma_assemble_err_stable(
                                raw@,
                                pos@,
                                compressed,
                                b.logical_size as int,
                                self.spec_sector_size(),
                                s as int,
                                n as int,
                            );
                            reveal(multi_sector_err);
                        }
                        return Err(e);
                    },
                }
            } else {
                out.append(&mut chunk);
            }
            s = s + 1;
        }
        if out.len() as u64 != logical {
            return Err(Error::CorruptData);
        }
        Ok(out)
    }

    /// Resolves a name and reads its payload. On success the payload has
    /// exactly the block's logical length.
    pub fn read_file(&self, name: &[u8]) -> (r: Result<Vec<u8>, Error>)
        requires
            self.wf(),
        ensures
            (r matches Ok(v) ==> self.spec_read(name@) == Some(v@)),
            (r is Ok <==> self.spec_read(name@) is Some),
            (self.spec_lookup(name@) is None ==> (r matches Err(e) && e matches Error::NotFound(
                n2,
            ) && n2@ == name@)),
            (r matches Ok(v) ==> v@.len() == spec_payload_len(self.spec_lookup(name@)->Some_0)),
            (match self.spec_lookup(name@) {
                Some(b) => file_read(self.spec_data(), self.spec_sector_size(), b) is None ==> (
                r matches Err(e) && e == block_read_err(
                    self.spec_data(),
                    self.spec_sector_size(),
                    b,
                )),
                None => true,
            }),
    {
        proof {
            reveal(Archive::spec_read);
        }
        match self.lookup(name) {
            Ok(b) => {
                let r = self.read_block(b);
                proof {
                    if r is Ok {
                        lemma_file_read_len(self.spec_data(), self.spec_sector_size(), b);
                    }
                }
                r
            },
            Err(e) => Err(e),
        }
    }
}

/// The length a successful read returns: the logical size, or zero when
/// nothing is stored.
pub open spec fn spec_payload_len(b: BlockEntry) -> int {
    if b.archive_size == 0 {
        0
    } else {
        b.logical_size as int
    }
}

/// Once sector reassembly has failed, taking more sectors cannot revive it.
proof fn lemma_assemble_none(
    raw: Seq<u8>,
    pos: Seq<u32>,
    compressed: bool,
    logical: int,
    ssize: int,
    k: int,
    k2: int,
)
    requires
        assemble(raw, pos, compressed, logical, ssize, k) is None,
        k <= k2,
    ensures
        assemble(raw, pos, compressed, logical, ssize, k2) is None,
    decreases k2 - k,
{
    if k < k2 {
        lemma_assemble_none(raw, pos, compressed, logical, ssize, k + 1, k2);
    }
}

/// Once sector `sidx` has failed, the reported error stays that sector's
/// error however many further sectors are taken.
proof fn lemma_assemble_err_stable(
    raw: Seq<u8>,
    pos: Seq<u32>,
    compressed: bool,
    logical: int,
    ssize: int,
    sidx: int,
    k: int,
)
    requires
        assemble(raw, pos, compressed, logical, ssize, sidx) is Some,
        assemble(raw, pos, compressed, logical, ssize, sidx + 1) is None,
        sidx + 1 <= k,
    ensures
        assemble_err(raw, pos, compressed, logical, ssize, k) == crate::compress::sector_err(
            raw.subrange(pos[sidx] as int, pos[sidx + 1] as int),
        ),
    decreases k,
{
    reveal(assemble_err);
    if sidx + 1 < k {
        lemma_assemble_none(raw, pos, compressed, logical, ssize, sidx + 1, k - 1);
        lemma_assemble_err_stable(raw, pos, compressed, logical, ssize, sidx, k - 1);
    }
}

/// Sector offsets are monotone across any span, not only between
/// neighbours.
proof fn lemma_positions_sorted(pos: Seq<u32>, i: int, j: int)
    requires
        forall|t: int| 0 <= t < pos.len() - 1 ==> #[trigger] pos[t] <= pos[t + 1],
        0 <= i <= j < pos.len(),
    ensures
        pos[i] <= pos[j],
    decreases j - i,
{
    if i < j {
        lemma_positions_sorted(pos, i + 1, j);
    }
}

/// A successful read is exactly `spec_payload_len` bytes long.
proof fn lemma_file_read_len(data: Seq<u8>, ssize: int, b: BlockEntry)
    requires
        file_read(data, ssize, b) is Some,
    ensures
        file_read(data, ssize, b)->Some_0.len() == spec_payload_len(b),
{
    reveal(file_read);
}

} // verus!
