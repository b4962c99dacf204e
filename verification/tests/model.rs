//! Tests for the model payload, skin decoding, sub-mesh index resolution,
//! material building, and the texture decoder.

use wow_vr_lib::blp::{blp_to_image, TextureFormat};
use wow_vr_lib::errors::Error;
use wow_vr_lib::m2;
use wow_vr_lib::md20::read_string_from_buffer;
use wow_vr_lib::model::{build_skin_assets, MaterialKey};
use wow_vr_lib::skin::{parse_skin, submesh_indices};
use wow_vr_lib::utils::OffsetSize;

fn put_pair(buf: &mut Vec<u8>, at: usize, count: u32, offset: u32) {
    buf[at..at + 4].copy_from_slice(&count.to_le_bytes());
    buf[at + 4..at + 8].copy_from_slice(&offset.to_le_bytes());
}

/// Assembles a legacy model payload with the given vertices, texture
/// names (empty stands for an unbound slot), materials and texture
/// combos.
fn build_m2(
    views: u32,
    vertices: &[[f32; 3]],
    texture_names: &[&[u8]],
    materials: &[(u16, u16)],
    combos: &[u16],
) -> Vec<u8> {
    let mut buf = vec![0u8; 304];
    buf[0..4].copy_from_slice(b"MD20");
    buf[4..8].copy_from_slice(&264u32.to_le_bytes());
    buf[68..72].copy_from_slice(&views.to_le_bytes());

    // Vertex records follow the header.
    let v_off = buf.len() as u32;
    for v in vertices {
        let mut rec = [0u8; 48];
        rec[0..4].copy_from_slice(&v[0].to_bits().to_le_bytes());
        rec[4..8].copy_from_slice(&v[1].to_bits().to_le_bytes());
        rec[8..12].copy_from_slice(&v[2].to_bits().to_le_bytes());
        // Normal mirrors the position so the fix-up is visible there too.
        rec[20..24].copy_from_slice(&v[0].to_bits().to_le_bytes());
        rec[24..28].copy_from_slice(&v[1].to_bits().to_le_bytes());
        rec[28..32].copy_from_slice(&v[2].to_bits().to_le_bytes());
        buf.extend_from_slice(&rec);
    }
    put_pair(&mut buf, 60, vertices.len() as u32, v_off);

    // Texture records, then their name bytes.
    let t_off = buf.len() as u32;
    let mut name_data: Vec<(u32, u32)> = Vec::new();
    let mut names_blob: Vec<u8> = Vec::new();
    let names_base = t_off + 16 * texture_names.len() as u32;
    for name in texture_names {
        if name.is_empty() {
            name_data.push((0, 0));
        } else {
            let off = names_base + names_blob.len() as u32;
            names_blob.extend_from_slice(name);
            names_blob.push(0);
            name_data.push((name.len() as u32 + 1, off));
        }
    }
    for (cnt, off) in &name_data {
        let mut rec = [0u8; 16];
        rec[8..12].copy_from_slice(&cnt.to_le_bytes());
        rec[12..16].copy_from_slice(&off.to_le_bytes());
        buf.extend_from_slice(&rec);
    }
    buf.extend_from_slice(&names_blob);
    put_pair(&mut buf, 80, texture_names.len() as u32, t_off);

    // Material records.
    let m_off = buf.len() as u32;
    for (flags, blend) in materials {
        buf.extend_from_slice(&flags.to_le_bytes());
        buf.extend_from_slice(&blend.to_le_bytes());
    }
    put_pair(&mut buf, 112, materials.len() as u32, m_off);

    // Texture combos.
    let c_off = buf.len() as u32;
    for c in combos {
        buf.extend_from_slice(&c.to_le_bytes());
    }
    put_pair(&mut buf, 128, combos.len() as u32, c_off);

    buf
}

/// Assembles a view file with the given arrays.
fn build_skin(
    indices: &[u16],
    triangles: &[u16],
    submeshes: &[(u16, u16, u16, u16)],
    units: &[(u16, u16, u16)],
) -> Vec<u8> {
    let mut buf = vec![0u8; 48];
    buf[0..4].copy_from_slice(b"SKIN");
    let i_off = buf.len() as u32;
    for i in indices {
        buf.extend_from_slice(&i.to_le_bytes());
    }
    let t_off = buf.len() as u32;
    for t in triangles {
        buf.extend_from_slice(&t.to_le_bytes());
    }
    let s_off = buf.len() as u32;
    for (tri_start, tri_count, v_start, v_count) in submeshes {
        let mut rec = [0u8; 48];
        rec[4..6].copy_from_slice(&v_start.to_le_bytes());
        rec[6..8].copy_from_slice(&v_count.to_le_bytes());
        rec[8..10].copy_from_slice(&tri_start.to_le_bytes());
        rec[10..12].copy_from_slice(&tri_count.to_le_bytes());
        buf.extend_from_slice(&rec);
    }
    let b_off = buf.len() as u32;
    for (section, material, combo) in units {
        let mut rec = [0u8; 24];
        rec[4..6].copy_from_slice(&section.to_le_bytes());
        rec[10..12].copy_from_slice(&material.to_le_bytes());
        rec[14..16].copy_from_slice(&1u16.to_le_bytes());
        rec[16..18].copy_from_slice(&combo.to_le_bytes());
        buf.extend_from_slice(&rec);
    }
    put_pair(&mut buf, 4, indices.len() as u32, i_off);
    put_pair(&mut buf, 12, triangles.len() as u32, t_off);
    put_pair(&mut buf, 28, submeshes.len() as u32, s_off);
    put_pair(&mut buf, 36, units.len() as u32, b_off);
    buf
}

#[test]
fn coordinate_fix_and_index_chain() {
    // One vertex at (1, 2, 3); one sub-mesh with one triangle (0, 0, 0).
    let m2 = build_m2(1, &[[1.0, 2.0, 3.0]], &[], &[], &[]);
    let model = m2::load(&m2, b"model.m2".to_vec()).unwrap();
    let vd = model.data.vertice_data();
    assert_eq!(vd.vertices().len(), 1);
    let v = vd.vertices()[0];
    assert_eq!(v.x, 1.0f32.to_bits());
    assert_eq!(v.y, 3.0f32.to_bits());
    assert_eq!(v.z, (-2.0f32).to_bits());
    assert_eq!(f32::from_bits(v.z), -2.0);
    let n = vd.normals()[0];
    assert_eq!(n.y, 3.0f32.to_bits());
    assert_eq!(n.z, (-2.0f32).to_bits());

    let skin = parse_skin(&build_skin(&[0], &[0, 0, 0], &[(0, 3, 0, 1)], &[])).unwrap();
    let ix = submesh_indices(&skin, 0, 1).unwrap();
    assert_eq!(ix, vec![0u32, 0, 0]);
}

#[test]
fn out_of_range_index_is_rejected() {
    // The triangle names vertex-lookup slot 1, which holds model vertex 7,
    // but the model has only one vertex.
    let skin = parse_skin(&build_skin(&[0, 7], &[1, 1, 1], &[(0, 3, 0, 2)], &[])).unwrap();
    assert!(matches!(
        submesh_indices(&skin, 0, 1),
        Err(Error::CorruptData)
    ));
    assert!(submesh_indices(&skin, 0, 8).is_ok());
}

#[test]
fn skin_name_derivation() {
    let m2 = build_m2(3, &[], &[], &[], &[]);
    let model = m2::load(&m2, b"path/to/name.m2".to_vec()).unwrap();
    let names = model.skin_files();
    assert_eq!(names.len(), 3);
    assert_eq!(names[0], b"path/to/name00.skin".to_vec());
    assert_eq!(names[1], b"path/to/name01.skin".to_vec());
    assert_eq!(names[2], b"path/to/name02.skin".to_vec());
}

#[test]
fn skin_numbers_grow_past_two_digits() {
    let m2 = build_m2(12, &[], &[], &[], &[]);
    let model = m2::load(&m2, b"base.m2".to_vec()).unwrap();
    let names = model.skin_files();
    assert_eq!(names.len(), 12);
    assert_eq!(names[0], b"base00.skin".to_vec());
    assert_eq!(names[9], b"base09.skin".to_vec());
    assert_eq!(names[10], b"base10.skin".to_vec());
    assert_eq!(names[11], b"base11.skin".to_vec());
}

#[test]
fn chunked_wrapper_is_unwrapped() {
    let payload = build_m2(1, &[[1.0, 2.0, 3.0]], &[], &[], &[]);
    let mut chunked: Vec<u8> = Vec::new();
    // An ignored chunk first is not allowed: the buffer must open with
    // MD21; then an ignored chunk may follow.
    chunked.extend_from_slice(b"MD21");
    chunked.extend_from_slice(&(payload.len() as u32).to_le_bytes());
    chunked.extend_from_slice(&payload);
    chunked.extend_from_slice(b"SFID");
    chunked.extend_from_slice(&4u32.to_le_bytes());
    chunked.extend_from_slice(&123u32.to_le_bytes());
    let model = m2::load(&chunked, b"model.m2".to_vec()).unwrap();
    assert_eq!(model.data.view_count(), 1);
    assert_eq!(
        model.data.vertice_data().vertices()[0].x,
        1.0f32.to_bits()
    );
}

#[test]
fn model_bad_magic_is_rejected() {
    let mut m2 = build_m2(1, &[], &[], &[], &[]);
    m2[0..4].copy_from_slice(b"XXXX");
    assert!(matches!(
        m2::load(&m2, b"model.m2".to_vec()),
        Err(Error::InvalidMagic(_))
    ));
}

#[test]
fn empty_texture_name_binds_nothing() {
    // One texture slot with an empty name: the material binds no texture
    // and assembly succeeds.
    let m2 = build_m2(1, &[[0.0, 0.0, 0.0]], &[b""], &[(0, 0)], &[0]);
    let model = m2::load(&m2, b"model.m2".to_vec()).unwrap();
    assert_eq!(model.data.textures.len(), 1);
    assert!(model.data.textures[0].filename.is_empty());
    let skin = parse_skin(&build_skin(&[0], &[0, 0, 0], &[(0, 3, 0, 1)], &[(0, 0, 0)])).unwrap();
    let (meshes, bindings) = build_skin_assets(&model.data, &skin, &vec![None]).unwrap();
    assert_eq!(meshes.len(), 1);
    assert_eq!(meshes[0].material, MaterialKey { material: 0, combo: 0 });
    assert_eq!(bindings.len(), 1);
    assert_eq!(bindings[0].descriptor.texture, None);
    assert!(!bindings[0].descriptor.double_sided);
    assert!(bindings[0].descriptor.cull_backface);
    assert!(!bindings[0].descriptor.alpha_mask);
}

#[test]
fn material_flags_translate() {
    // Flags 0x04 disable back-face culling; blend mode 1 masks alpha.
    let m2 = build_m2(1, &[[0.0, 0.0, 0.0]], &[], &[(0x04, 1)], &[]);
    let model = m2::load(&m2, b"model.m2".to_vec()).unwrap();
    let skin = parse_skin(&build_skin(&[0], &[0, 0, 0], &[(0, 3, 0, 1)], &[(0, 0, 0)])).unwrap();
    let (meshes, bindings) = build_skin_assets(&model.data, &skin, &vec![]).unwrap();
    assert_eq!(meshes[0].material, MaterialKey { material: 0, combo: 0 });
    assert!(bindings[0].descriptor.double_sided);
    assert!(!bindings[0].descriptor.cull_backface);
    assert!(bindings[0].descriptor.alpha_mask);
}

#[test]
fn last_texture_unit_wins() {
    let m2 = build_m2(1, &[[0.0, 0.0, 0.0]], &[], &[(0, 0), (0, 0)], &[]);
    let model = m2::load(&m2, b"model.m2".to_vec()).unwrap();
    let skin = parse_skin(&build_skin(
        &[0],
        &[0, 0, 0],
        &[(0, 3, 0, 1)],
        &[(0, 0, 0), (0, 1, 0)],
    ))
    .unwrap();
    let (meshes, _bindings) = build_skin_assets(&model.data, &skin, &vec![]).unwrap();
    assert_eq!(meshes[0].material, MaterialKey { material: 1, combo: 0 });
}

fn build_blp(alpha_type: u8, width: u32, height: u32, payload: &[u8]) -> Vec<u8> {
    let mut buf = vec![0u8; 148];
    buf[0..4].copy_from_slice(b"BLP2");
    buf[4..8].copy_from_slice(&1u32.to_le_bytes()); // direct content
    buf[8] = 2; // DXT compression
    buf[9] = 8; // alpha bits
    buf[10] = alpha_type;
    buf[12..16].copy_from_slice(&width.to_le_bytes());
    buf[16..20].copy_from_slice(&height.to_le_bytes());
    buf[20..24].copy_from_slice(&148u32.to_le_bytes()); // mip 0 offset
    buf[84..88].copy_from_slice(&(payload.len() as u32).to_le_bytes());
    buf.extend_from_slice(payload);
    buf
}

#[test]
fn dxt5_texture_decodes() {
    let payload: Vec<u8> = (0u8..16).collect();
    let img = blp_to_image(&build_blp(7, 4, 4, &payload)).unwrap();
    assert_eq!(img.format, TextureFormat::Bc3RgbaUnorm);
    assert_eq!(img.width, 4);
    assert_eq!(img.height, 4);
    assert_eq!(img.depth, 1);
    assert_eq!(img.mip_count, 1);
    assert_eq!(img.data.len(), 16);
    assert_eq!(img.data, payload);
}

#[test]
fn dxt1_payload_length_follows_extent() {
    // 8 x 8 pixels in BC1: four blocks of eight bytes.
    let payload = vec![0u8; 32];
    let img = blp_to_image(&build_blp(0, 8, 8, &payload)).unwrap();
    assert_eq!(img.format, TextureFormat::Bc1RgbaUnorm);
    assert_eq!(img.data.len(), 32);
    // 5 x 5 pixels round up to four blocks as well.
    let img = blp_to_image(&build_blp(0, 5, 5, &payload)).unwrap();
    assert_eq!(img.data.len(), 32);
}

#[test]
fn non_dxt_texture_is_unsupported() {
    let mut blp = build_blp(7, 4, 4, &vec![0u8; 16]);
    blp[8] = 1; // raw compression
    assert!(matches!(
        blp_to_image(&blp),
        Err(Error::UnsupportedTextureFormat)
    ));
    let mut blp = build_blp(8, 4, 4, &vec![0u8; 16]);
    blp[10] = 8; // unsupported alpha kind under DXT
    assert!(matches!(
        blp_to_image(&blp),
        Err(Error::UnsupportedTextureFormat)
    ));
}

#[test]
fn old_blp_versions_are_unsupported() {
    let mut blp = build_blp(7, 4, 4, &vec![0u8; 16]);
    blp[0..4].copy_from_slice(b"BLP1");
    assert!(matches!(
        blp_to_image(&blp),
        Err(Error::UnsupportedVersion(1))
    ));
}

#[test]
fn name_field_decodes_utf8() {
    let buffer = b"some/name.blp\0trailing";
    let os = OffsetSize { offset: 0, size: 14 };
    assert_eq!(
        read_string_from_buffer(buffer, &os).unwrap(),
        "some/name.blp".to_string()
    );
    let bad = [0xFFu8, 0xFE, 0x00];
    let os = OffsetSize { offset: 0, size: 3 };
    assert!(matches!(
        read_string_from_buffer(&bad, &os),
        Err(Error::InvalidUtf8)
    ));
}
