//! Tests for archive opening, lookup, payload reassembly and collection
//! precedence, over archives assembled byte by byte.

use wow_vr_lib::collection::MpqCollection;
use wow_vr_lib::compress::decompress;
use wow_vr_lib::crypt::{build_crypt_table, CryptTable, HashKind};
use wow_vr_lib::errors::Error;
use wow_vr_lib::mpq::{Archive, FLAG_COMPRESS, FLAG_ENCRYPTED, FLAG_EXISTS, FLAG_SINGLE_UNIT};

struct FileSpec {
    name: Vec<u8>,
    stored: Vec<u8>,
    logical: u32,
    flags: u32,
}

fn encrypt_block(table: &[u32], data: &mut [u8], key: u32) {
    let mut s1 = key;
    let mut s2: u32 = 0xEEEEEEEE;
    for chunk in data.chunks_exact_mut(4) {
        s2 = s2.wrapping_add(table[0x400 + (s1 & 0xFF) as usize]);
        let p = u32::from_le_bytes(chunk.try_into().unwrap());
        let c = p ^ s1.wrapping_add(s2);
        s1 = ((!s1 << 21).wrapping_add(0x11111111)) | (s1 >> 11);
        s2 = p.wrapping_add(s2).wrapping_add(s2 << 5).wrapping_add(3);
        chunk.copy_from_slice(&c.to_le_bytes());
    }
}

/// Assembles an archive holding the given files plus a `(listfile)` entry
/// naming them, with format version 0 and sector shift 3.
fn build_archive(files: Vec<FileSpec>) -> Vec<u8> {
    let table = build_crypt_table();
    let ct = CryptTable::new();

    let mut all = files;
    let listfile: Vec<u8> = {
        let mut l = Vec::new();
        for f in &all {
            l.extend_from_slice(&f.name);
            l.extend_from_slice(b"\r\n");
        }
        l
    };
    let llen = listfile.len() as u32;
    all.push(FileSpec {
        name: b"(listfile)".to_vec(),
        stored: listfile,
        logical: llen,
        flags: FLAG_EXISTS | FLAG_SINGLE_UNIT,
    });

    let n = all.len();
    let mut hash_count: u32 = 1;
    while (hash_count as usize) < n {
        hash_count *= 2;
    }

    // Payload region right after the 32-byte header.
    let mut payload: Vec<u8> = Vec::new();
    let mut offsets: Vec<u32> = Vec::new();
    for f in &all {
        offsets.push(32 + payload.len() as u32);
        payload.extend_from_slice(&f.stored);
    }

    let hto = 32 + payload.len() as u32;
    let bto = hto + 16 * hash_count;
    let archive_size = bto + 16 * n as u32;

    let mut out: Vec<u8> = Vec::new();
    out.extend_from_slice(b"MPQ\x1A");
    out.extend_from_slice(&32u32.to_le_bytes()); // header size
    out.extend_from_slice(&archive_size.to_le_bytes());
    out.extend_from_slice(&0u16.to_le_bytes()); // version
    out.extend_from_slice(&3u16.to_le_bytes()); // sector shift
    out.extend_from_slice(&hto.to_le_bytes());
    out.extend_from_slice(&bto.to_le_bytes());
    out.extend_from_slice(&hash_count.to_le_bytes());
    out.extend_from_slice(&(n as u32).to_le_bytes());
    out.extend_from_slice(&payload);

    // Hash table: one live slot per file, the rest empty.
    let mut hash_bytes: Vec<u8> = Vec::new();
    for (i, f) in all.iter().enumerate() {
        hash_bytes.extend_from_slice(&ct.hash_name(&f.name, HashKind::NameA).to_le_bytes());
        hash_bytes.extend_from_slice(&ct.hash_name(&f.name, HashKind::NameB).to_le_bytes());
        hash_bytes.extend_from_slice(&0u16.to_le_bytes());
        hash_bytes.extend_from_slice(&0u16.to_le_bytes());
        hash_bytes.extend_from_slice(&(i as u32).to_le_bytes());
    }
    for _ in n..hash_count as usize {
        hash_bytes.extend_from_slice(&0xFFFFFFFFu32.to_le_bytes());
        hash_bytes.extend_from_slice(&0xFFFFFFFFu32.to_le_bytes());
        hash_bytes.extend_from_slice(&0xFFFFu16.to_le_bytes());
        hash_bytes.extend_from_slice(&0xFFFFu16.to_le_bytes());
        hash_bytes.extend_from_slice(&0xFFFFFFFFu32.to_le_bytes());
    }
    let hkey = ct.hash_name(b"(hash table)", HashKind::TableKey);
    encrypt_block(&table, &mut hash_bytes, hkey);
    out.extend_from_slice(&hash_bytes);

    // Block table.
    let mut block_bytes: Vec<u8> = Vec::new();
    for (i, f) in all.iter().enumerate() {
        block_bytes.extend_from_slice(&offsets[i].to_le_bytes());
        block_bytes.extend_from_slice(&(f.stored.len() as u32).to_le_bytes());
        block_bytes.extend_from_slice(&f.logical.to_le_bytes());
        block_bytes.extend_from_slice(&f.flags.to_le_bytes());
    }
    let bkey = ct.hash_name(b"(block table)", HashKind::TableKey);
    encrypt_block(&table, &mut block_bytes, bkey);
    out.extend_from_slice(&block_bytes);

    out
}

fn plain_file(name: &[u8], content: &[u8]) -> FileSpec {
    FileSpec {
        name: name.to_vec(),
        stored: content.to_vec(),
        logical: content.len() as u32,
        flags: FLAG_EXISTS | FLAG_SINGLE_UNIT,
    }
}

#[test]
fn single_unit_compressed_round_trip() {
    // A compressed single-unit entry: algorithm byte, then a zlib stream.
    let mut stored = vec![0x02u8];
    stored.extend_from_slice(&miniz_oxide::deflate::compress_to_vec_zlib(b"hello", 6));
    let archive = build_archive(vec![FileSpec {
        name: b"foo.txt".to_vec(),
        stored,
        logical: 5,
        flags: FLAG_EXISTS | FLAG_SINGLE_UNIT | FLAG_COMPRESS,
    }]);
    let a = Archive::open(archive).unwrap();
    assert_eq!(a.read_file(b"foo.txt").unwrap(), b"hello".to_vec());
    assert_eq!(a.list().len(), 1);
    assert_eq!(a.list()[0], b"foo.txt".to_vec());
}

#[test]
fn lookup_is_case_insensitive() {
    let mut stored = vec![0x02u8];
    stored.extend_from_slice(&miniz_oxide::deflate::compress_to_vec_zlib(b"hello", 6));
    let archive = build_archive(vec![FileSpec {
        name: b"foo.txt".to_vec(),
        stored,
        logical: 5,
        flags: FLAG_EXISTS | FLAG_SINGLE_UNIT | FLAG_COMPRESS,
    }]);
    let a = Archive::open(archive).unwrap();
    assert_eq!(a.read_file(b"FOO.TXT").unwrap(), b"hello".to_vec());
}

#[test]
fn later_archive_wins() {
    let a = build_archive(vec![plain_file(b"x", &[1])]);
    let b = build_archive(vec![plain_file(b"x", &[2])]);
    let col = MpqCollection::load(vec![a, b]).unwrap();
    assert_eq!(col.read_file(b"x").unwrap(), vec![2]);
}

#[test]
fn collection_normalizes_names() {
    let a = build_archive(vec![plain_file(b"Dir\\File.TXT", b"payload")]);
    let col = MpqCollection::load(vec![a]).unwrap();
    assert_eq!(col.read_file(b"dir/file.txt").unwrap(), b"payload".to_vec());
    assert_eq!(col.read_file(b"DIR\\FILE.txt").unwrap(), b"payload".to_vec());
    let names = col.list();
    assert_eq!(names.len(), 1);
    assert_eq!(names[0], b"dir/file.txt".to_vec());
}

#[test]
fn multi_sector_reassembly_preserves_content() {
    // 5000 bytes at sector size 4096: two sectors, stored verbatim.
    let content: Vec<u8> = (0u32..5000).map(|i| (i % 251) as u8).collect();
    let mut stored: Vec<u8> = Vec::new();
    let positions: [u32; 3] = [12, 12 + 4096, 12 + 5000];
    for p in positions {
        stored.extend_from_slice(&p.to_le_bytes());
    }
    stored.extend_from_slice(&content);
    let archive = build_archive(vec![FileSpec {
        name: b"big.bin".to_vec(),
        stored,
        logical: 5000,
        flags: FLAG_EXISTS,
    }]);
    let a = Archive::open(archive).unwrap();
    let got = a.read_file(b"big.bin").unwrap();
    assert_eq!(got.len(), 5000);
    assert_eq!(got, content);
}

#[test]
fn read_length_matches_logical_size() {
    let a = build_archive(vec![
        plain_file(b"one", b"a"),
        plain_file(b"two", b"abcdef"),
        plain_file(b"empty", b""),
    ]);
    let a = Archive::open(a).unwrap();
    for name in a.list().clone() {
        let b = a.lookup(&name).unwrap();
        let payload = a.read_file(&name).unwrap();
        assert_eq!(payload.len() as u32, b.logical_size);
    }
}

#[test]
fn missing_name_is_not_found() {
    let a = build_archive(vec![plain_file(b"x", &[1])]);
    let a = Archive::open(a).unwrap();
    match a.read_file(b"nope") {
        Err(Error::NotFound(n)) => assert_eq!(n, b"nope".to_vec()),
        other => panic!("unexpected: {:?}", other),
    }
    let col = MpqCollection::load(vec![build_archive(vec![plain_file(b"x", &[1])])]).unwrap();
    // The collection reports an unknown name under its normalized form,
    // so a name and its normalized form give equal results either way.
    match col.read_file(b"NoPe\\X.TXT") {
        Err(Error::NotFound(n)) => assert_eq!(n, b"nope/x.txt".to_vec()),
        other => panic!("unexpected: {:?}", other),
    }
    assert_eq!(
        col.read_file(b"NoPe\\X.TXT"),
        col.read_file(b"nope/x.txt")
    );
    assert_eq!(col.read_file(b"X"), col.read_file(b"x"));
}

#[test]
fn encrypted_entry_is_refused() {
    let a = build_archive(vec![FileSpec {
        name: b"sec".to_vec(),
        stored: vec![1, 2, 3, 4],
        logical: 4,
        flags: FLAG_EXISTS | FLAG_SINGLE_UNIT | FLAG_ENCRYPTED,
    }]);
    let a = Archive::open(a).unwrap();
    assert!(matches!(a.read_file(b"sec"), Err(Error::Encrypted)));
}

#[test]
fn bad_magic_is_rejected() {
    let mut data = build_archive(vec![plain_file(b"x", &[1])]);
    data[0] = b'X';
    assert!(matches!(Archive::open(data), Err(Error::InvalidMagic(_))));
}

#[test]
fn unsupported_version_is_rejected() {
    let mut data = build_archive(vec![plain_file(b"x", &[1])]);
    data[12] = 9;
    assert!(matches!(
        Archive::open(data),
        Err(Error::UnsupportedVersion(9))
    ));
}

#[test]
fn short_buffer_is_truncated() {
    assert!(matches!(
        Archive::open(b"MPQ\x1A".to_vec()),
        Err(Error::Truncated(32, 4))
    ));
}

#[test]
fn unknown_compression_code_is_reported() {
    match decompress(&[0x10, 1, 2, 3]) {
        Err(Error::UnsupportedCompression(code)) => assert_eq!(code, 0x10),
        other => panic!("unexpected: {:?}", other),
    }
}

#[test]
fn zlib_sector_decompresses() {
    let payload = b"abcabcabcabcabc".to_vec();
    let mut sector = vec![0x02u8];
    sector.extend_from_slice(&miniz_oxide::deflate::compress_to_vec_zlib(&payload, 6));
    assert_ne!(sector[1..].to_vec(), payload);
    assert_eq!(decompress(&sector).unwrap(), payload);
}

#[test]
fn corrupt_zlib_stream_is_reported() {
    assert!(matches!(
        decompress(&[0x02, 0xFF, 0xFF, 0xFF]),
        Err(Error::CorruptData)
    ));
}
