//! Tests for the key table, the name hash, and blob decryption.

use wow_vr_lib::crypt::{build_crypt_table, CryptTable, HashKind};
use wow_vr_lib::errors::Error;

#[test]
fn cipher_table_fixed_points() {
    let table = build_crypt_table();
    assert_eq!(table.len(), 1280);
    assert_eq!(table[65], 1_285_056_048);
    assert_eq!(table[806], 1_010_723_398);
    assert_eq!(table[1279], 1_929_586_796);
}

#[test]
fn hash_known_values() {
    let ct = CryptTable::new();
    assert_eq!(ct.hash_name(b"(hash table)", HashKind::TableKey), 0xC3AF3770);
    assert_eq!(
        ct.hash_name(b"THE QUICK BROWN FOX", HashKind::TableKey),
        4_192_734_097
    );
}

#[test]
fn hash_ignores_case_and_slashes() {
    let ct = CryptTable::new();
    let kinds = [
        HashKind::TableOffset,
        HashKind::NameA,
        HashKind::NameB,
        HashKind::TableKey,
    ];
    for k in kinds {
        assert_eq!(
            ct.hash_name(b"path/To/Model.m2", k),
            ct.hash_name(b"PATH\\TO\\MODEL.M2", k)
        );
        assert_eq!(
            ct.hash_name(b"the quick brown fox", k),
            ct.hash_name(b"THE QUICK BROWN FOX", k)
        );
    }
}

#[test]
fn decrypt_known_block() {
    let ct = CryptTable::new();
    let input: [u8; 16] = [
        0x33, 0x78, 0xB1, 0x5D, 0xC3, 0x7D, 0xFC, 0xE2, 0x58, 0xE7, 0x7B, 0x4F, 0x2E, 0x66, 0x08,
        0xE3,
    ];
    let out = ct.decrypt(&input, 0xC3AF3770).unwrap();
    let expected: [u8; 16] = [
        0xFF, 0xB7, 0x8D, 0xDB, 0x14, 0xA3, 0xA6, 0xA1, 0x00, 0x00, 0x00, 0x00, 0x2D, 0x53, 0x00,
        0x00,
    ];
    assert_eq!(out, expected.to_vec());
}

#[test]
fn decrypt_rejects_unaligned_input() {
    let ct = CryptTable::new();
    let r = ct.decrypt(&[1, 2, 3], 42);
    assert!(matches!(r, Err(Error::CorruptData)));
}

#[test]
fn decrypt_round_trip_through_encryption() {
    // Encrypt with the same recurrence, then decrypt with the library.
    let table = build_crypt_table();
    let ct = CryptTable::new();
    let key = ct.hash_name(b"some name", HashKind::TableKey);
    let plain: Vec<u8> = (0u16..64).map(|i| (i * 7 % 256) as u8).collect();
    let mut cipher = plain.clone();
    let mut s1 = key;
    let mut s2: u32 = 0xEEEEEEEE;
    for chunk in cipher.chunks_exact_mut(4) {
        s2 = s2.wrapping_add(table[0x400 + (s1 & 0xFF) as usize]);
        let p = u32::from_le_bytes(chunk.try_into().unwrap());
        let c = p ^ s1.wrapping_add(s2);
        s1 = ((!s1 << 21).wrapping_add(0x11111111)) | (s1 >> 11);
        s2 = p.wrapping_add(s2).wrapping_add(s2 << 5).wrapping_add(3);
        chunk.copy_from_slice(&c.to_le_bytes());
    }
    assert_ne!(cipher, plain);
    assert_eq!(ct.decrypt(&cipher, key).unwrap(), plain);
}
