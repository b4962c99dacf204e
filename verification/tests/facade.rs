//! End-to-end test: a model with its skin and an empty-named texture,
//! stored in an assembled archive and loaded through the asset facade.

use wow_vr_lib::crypt::{build_crypt_table, CryptTable, HashKind};
use wow_vr_lib::errors::Error;
use wow_vr_lib::facade::AssetManager;
use wow_vr_lib::model::MaterialKey;
use wow_vr_lib::mpq::{FLAG_EXISTS, FLAG_SINGLE_UNIT};

fn scramble(table: &[u32], data: &mut [u8], key: u32) {
    let mut s1 = key;
    let mut s2: u32 = 0xEEEEEEEE;
    for chunk in data.chunks_exact_mut(4) {
        s2 = s2.wrapping_add(table[0x400 + (s1 & 0xFF) as usize]);
        let p = u32::from_le_bytes(chunk.try_into().unwrap());
        let c = p ^ s1.wrapping_add(s2);
        s1 = ((!s1 << 21).wrapping_add(0x11111111)) | (s1 >> 11);
        s2 = p.wrapping_add(s2).wrapping_add(s2 << 5).wrapping_add(3);
        chunk.copy_from_slice(&c.to_le_bytes());
    }
}

fn pack_archive(files: &[(&[u8], Vec<u8>)]) -> Vec<u8> {
    let table = build_crypt_table();
    let ct = CryptTable::new();
    let mut all: Vec<(Vec<u8>, Vec<u8>)> = files
        .iter()
        .map(|(n, c)| (n.to_vec(), c.clone()))
        .collect();
    let mut listfile = Vec::new();
    for (n, _) in &all {
        listfile.extend_from_slice(n);
        listfile.push(b'\n');
    }
    all.push((b"(listfile)".to_vec(), listfile));

    let n = all.len();
    let mut hash_count: u32 = 1;
    while (hash_count as usize) < n {
        hash_count *= 2;
    }
    let mut payload = Vec::new();
    let mut offsets = Vec::new();
    for (_, c) in &all {
        offsets.push(32 + payload.len() as u32);
        payload.extend_from_slice(c);
    }
    let hto = 32 + payload.len() as u32;
    let bto = hto + 16 * hash_count;
    let mut out = Vec::new();
    out.extend_from_slice(b"MPQ\x1A");
    out.extend_from_slice(&32u32.to_le_bytes());
    out.extend_from_slice(&(bto + 16 * n as u32).to_le_bytes());
    out.extend_from_slice(&0u16.to_le_bytes());
    out.extend_from_slice(&3u16.to_le_bytes());
    out.extend_from_slice(&hto.to_le_bytes());
    out.extend_from_slice(&bto.to_le_bytes());
    out.extend_from_slice(&hash_count.to_le_bytes());
    out.extend_from_slice(&(n as u32).to_le_bytes());
    out.extend_from_slice(&payload);

    let mut hash_bytes = Vec::new();
    for (i, (name, _)) in all.iter().enumerate() {
        hash_bytes.extend_from_slice(&ct.hash_name(name, HashKind::NameA).to_le_bytes());
        hash_bytes.extend_from_slice(&ct.hash_name(name, HashKind::NameB).to_le_bytes());
        hash_bytes.extend_from_slice(&0u32.to_le_bytes());
        hash_bytes.extend_from_slice(&(i as u32).to_le_bytes());
    }
    for _ in n..hash_count as usize {
        hash_bytes.extend_from_slice(&[0xFF; 8]);
        hash_bytes.extend_from_slice(&[0xFF; 4]);
        hash_bytes.extend_from_slice(&0xFFFFFFFFu32.to_le_bytes());
    }
    scramble(
        &table,
        &mut hash_bytes,
        ct.hash_name(b"(hash table)", HashKind::TableKey),
    );
    out.extend_from_slice(&hash_bytes);

    let mut block_bytes = Vec::new();
    for (i, (_, c)) in all.iter().enumerate() {
        block_bytes.extend_from_slice(&offsets[i].to_le_bytes());
        block_bytes.extend_from_slice(&(c.len() as u32).to_le_bytes());
        block_bytes.extend_from_slice(&(c.len() as u32).to_le_bytes());
        block_bytes.extend_from_slice(&(FLAG_EXISTS | FLAG_SINGLE_UNIT).to_le_bytes());
    }
    scramble(
        &table,
        &mut block_bytes,
        ct.hash_name(b"(block table)", HashKind::TableKey),
    );
    out.extend_from_slice(&block_bytes);
    out
}

fn pack_pair(buf: &mut Vec<u8>, at: usize, count: u32, offset: u32) {
    buf[at..at + 4].copy_from_slice(&count.to_le_bytes());
    buf[at + 4..at + 8].copy_from_slice(&offset.to_le_bytes());
}

fn pack_model_with_empty_texture() -> Vec<u8> {
    let mut buf = vec![0u8; 304];
    buf[0..4].copy_from_slice(b"MD20");
    buf[4..8].copy_from_slice(&264u32.to_le_bytes());
    buf[68..72].copy_from_slice(&1u32.to_le_bytes()); // one view
    // One vertex at (1, 2, 3).
    let v_off = buf.len() as u32;
    let mut rec = [0u8; 48];
    rec[0..4].copy_from_slice(&1.0f32.to_bits().to_le_bytes());
    rec[4..8].copy_from_slice(&2.0f32.to_bits().to_le_bytes());
    rec[8..12].copy_from_slice(&3.0f32.to_bits().to_le_bytes());
    buf.extend_from_slice(&rec);
    pack_pair(&mut buf, 60, 1, v_off);
    // One texture with an empty name.
    let t_off = buf.len() as u32;
    buf.extend_from_slice(&[0u8; 16]);
    pack_pair(&mut buf, 80, 1, t_off);
    // One material, defaults.
    let m_off = buf.len() as u32;
    buf.extend_from_slice(&[0u8; 4]);
    pack_pair(&mut buf, 112, 1, m_off);
    // One texture combo naming texture 0.
    let c_off = buf.len() as u32;
    buf.extend_from_slice(&0u16.to_le_bytes());
    pack_pair(&mut buf, 128, 1, c_off);
    buf
}

fn pack_skin_one_triangle() -> Vec<u8> {
    let mut buf = vec![0u8; 48];
    buf[0..4].copy_from_slice(b"SKIN");
    let i_off = buf.len() as u32;
    buf.extend_from_slice(&0u16.to_le_bytes());
    let t_off = buf.len() as u32;
    for _ in 0..3 {
        buf.extend_from_slice(&0u16.to_le_bytes());
    }
    let s_off = buf.len() as u32;
    let mut rec = [0u8; 48];
    rec[6..8].copy_from_slice(&1u16.to_le_bytes()); // vertex count
    rec[10..12].copy_from_slice(&3u16.to_le_bytes()); // triangle count
    buf.extend_from_slice(&rec);
    let b_off = buf.len() as u32;
    let unit = [0u8; 24]; // section 0, material 0, combo 0
    buf.extend_from_slice(&unit);
    pack_pair(&mut buf, 4, 1, i_off);
    pack_pair(&mut buf, 12, 3, t_off);
    pack_pair(&mut buf, 28, 1, s_off);
    pack_pair(&mut buf, 36, 1, b_off);
    buf
}

#[test]
fn load_model_through_facade() {
    let archive = pack_archive(&[
        (b"m.m2", pack_model_with_empty_texture()),
        (b"m00.skin", pack_skin_one_triangle()),
    ]);
    let mut mgr = AssetManager::open(vec![archive]).unwrap();

    let names = mgr.list_assets();
    assert!(names.contains(&b"m.m2".to_vec()));
    assert!(names.contains(&b"m00.skin".to_vec()));

    let h = mgr.load_model(b"m.m2").unwrap();
    let asset = mgr.get_model(h).unwrap();
    // The vertex was coordinate-fixed once: (1, 2, 3) became (1, 3, -2).
    let v = asset.model.vertice_data.vertices[0];
    assert_eq!(f32::from_bits(v.x), 1.0);
    assert_eq!(f32::from_bits(v.y), 3.0);
    assert_eq!(f32::from_bits(v.z), -2.0);
    // One skin, one sub-mesh, the indirected index buffer.
    assert_eq!(asset.skins.len(), 1);
    assert_eq!(asset.meshes.len(), 1);
    assert_eq!(asset.meshes[0].len(), 1);
    assert_eq!(asset.meshes[0][0].indices, vec![0u32, 0, 0]);
    assert_eq!(
        asset.meshes[0][0].material,
        MaterialKey { material: 0, combo: 0 }
    );
    // The empty texture name bound nothing, and the load still succeeded.
    assert_eq!(asset.textures.len(), 1);
    assert!(asset.textures[0].is_none());
    assert_eq!(asset.materials[0].len(), 1);
    assert_eq!(asset.materials[0][0].descriptor.texture, None);
    assert!(asset.diagnostics.is_empty());

    // A second request resolves from the cache to the same handle.
    let h2 = mgr.load_model(b"M.M2").unwrap();
    assert_eq!(h, h2);
}

fn pack_model_with_named_texture(texture_name: &[u8]) -> Vec<u8> {
    let mut buf = vec![0u8; 304];
    buf[0..4].copy_from_slice(b"MD20");
    buf[4..8].copy_from_slice(&264u32.to_le_bytes());
    buf[68..72].copy_from_slice(&1u32.to_le_bytes());
    let v_off = buf.len() as u32;
    buf.extend_from_slice(&[0u8; 48]);
    pack_pair(&mut buf, 60, 1, v_off);
    let t_off = buf.len() as u32;
    let name_off = t_off + 16;
    let mut rec = [0u8; 16];
    rec[8..12].copy_from_slice(&(texture_name.len() as u32 + 1).to_le_bytes());
    rec[12..16].copy_from_slice(&name_off.to_le_bytes());
    buf.extend_from_slice(&rec);
    buf.extend_from_slice(texture_name);
    buf.push(0);
    pack_pair(&mut buf, 80, 1, t_off);
    let m_off = buf.len() as u32;
    buf.extend_from_slice(&[0u8; 4]);
    pack_pair(&mut buf, 112, 1, m_off);
    let c_off = buf.len() as u32;
    buf.extend_from_slice(&0u16.to_le_bytes());
    pack_pair(&mut buf, 128, 1, c_off);
    buf
}

fn pack_blp_dxt1_4x4() -> Vec<u8> {
    let mut buf = vec![0u8; 148];
    buf[0..4].copy_from_slice(b"BLP2");
    buf[4..8].copy_from_slice(&1u32.to_le_bytes());
    buf[8] = 2;
    buf[10] = 0;
    buf[12..16].copy_from_slice(&4u32.to_le_bytes());
    buf[16..20].copy_from_slice(&4u32.to_le_bytes());
    buf[20..24].copy_from_slice(&148u32.to_le_bytes());
    buf[84..88].copy_from_slice(&8u32.to_le_bytes());
    buf.extend_from_slice(&[0xAB; 8]);
    buf
}

#[test]
fn referenced_texture_binds() {
    let archive = pack_archive(&[
        (b"m.m2", pack_model_with_named_texture(b"tex\\skin.blp")),
        (b"m00.skin", pack_skin_one_triangle()),
        (b"tex\\skin.blp", pack_blp_dxt1_4x4()),
    ]);
    let mut mgr = AssetManager::open(vec![archive]).unwrap();
    let h = mgr.load_model(b"m.m2").unwrap();
    let asset = mgr.get_model(h).unwrap();
    assert!(asset.textures[0].is_some());
    assert_eq!(asset.textures[0].as_ref().unwrap().data, vec![0xAB; 8]);
    assert_eq!(asset.materials[0][0].descriptor.texture, Some(0));
    assert!(asset.diagnostics.is_empty());
}

#[test]
fn missing_referenced_texture_degrades() {
    let archive = pack_archive(&[
        (b"m.m2", pack_model_with_named_texture(b"gone.blp")),
        (b"m00.skin", pack_skin_one_triangle()),
    ]);
    let mut mgr = AssetManager::open(vec![archive]).unwrap();
    let h = mgr.load_model(b"m.m2").unwrap();
    let asset = mgr.get_model(h).unwrap();
    assert!(asset.textures[0].is_none());
    assert_eq!(asset.materials[0][0].descriptor.texture, None);
    assert_eq!(asset.diagnostics, vec![b"gone.blp".to_vec()]);
}

#[test]
fn facade_read_bytes_and_missing_model() {
    let archive = pack_archive(&[(b"data.bin", vec![9, 8, 7])]);
    let mut mgr = AssetManager::open(vec![archive]).unwrap();
    assert_eq!(mgr.read_bytes(b"data.bin").unwrap(), vec![9, 8, 7]);
    assert!(matches!(
        mgr.load_model(b"gone.m2"),
        Err(Error::NotFound(_))
    ));
}
