//! The companion view (skin) file: vertex-lookup and triangle-index
//! arrays, sub-meshes, and the texture units that bind materials to
//! sub-meshes; plus the two-level sub-mesh index resolution.

use vstd::prelude::*;

use crate::bytes::{le16, le32, read_u16_le, read_u32_le};
use crate::errors::Error;

verus! {

/// The skin file magic, `SKIN`, as a little-endian word.
pub const MAGIC_SKIN: u32 = 0x4E494B53;

/// One sub-mesh: a contiguous range of the triangle-index array.
#[derive(Debug, Clone, Copy, PartialEq, Eq, Structural)]
pub struct SubMesh {
    /// Sub-mesh id.
    pub id: u16,
    /// Level of detail.
    pub level: u16,
    /// First entry of the vertex-lookup range.
    pub vertex_start: u16,
    /// Length of the vertex-lookup range.
    pub vertex_count: u16,
    /// First entry of the triangle-index range.
    pub triangle_start: u16,
    /// Length of the triangle-index range, in vertex slots.
    pub triangle_count: u16,
    /// Number of bones used.
    pub bone_count: u16,
    /// First bone used.
    pub bone_start: u16,
    /// Most bones influencing one vertex.
    pub bone_influence: u16,
}

/// One texture unit: binds a material and a texture combo to a sub-mesh.
#[derive(Debug, Clone, Copy, PartialEq, Eq, Structural)]
pub struct TextureUnit {
    /// Flag bits.
    pub flags: u8,
    /// Priority plane, as the raw stored byte.
    pub priority_plane: u8,
    /// Shader id.
    pub shader_id: u16,
    /// The sub-mesh this unit addresses.
    pub skin_section_index: u16,
    /// Second sub-mesh index.
    pub geoset_index: u16,
    /// Index into the color lookup table.
    pub color_index: u16,
    /// Index into the material table.
    pub material_index: u16,
    /// Layer of this unit.
    pub material_layer: u16,
    /// Number of textures bound.
    pub texture_count: u16,
    /// Index into the texture lookup combos.
    pub texture_combo_index: u16,
    /// Index into the texture-coordinate lookup combos.
    pub texture_coord_combo_index: u16,
    /// Index into the transparency lookup table.
    pub texture_weight_combo_index: u16,
    /// Index into the texture-transform lookup table.
    pub texture_transform_combo_index: u16,
}

/// One decoded view file.
#[derive(Debug, Clone, PartialEq, Eq)]
pub struct Skin {
    /// Vertex-lookup array: each entry indexes the model's vertex array.
    pub indices: Vec<u16>,
    /// Triangle-index array: each entry indexes the vertex-lookup array,
    /// three per face.
    pub triangles: Vec<u16>,
    /// The sub-meshes.
    pub submeshes: Vec<SubMesh>,
    /// The texture units.
    pub texture_units: Vec<TextureUnit>,
}

/// The sub-mesh record stored at `base`; the trailing bounding floats are
/// not consulted.
pub open spec fn spec_submesh(s: Seq<u8>, base: int) -> SubMesh {
    SubMesh {
        id: le16(s, base),
        level: le16(s, base + 2),
        vertex_start: le16(s, base + 4),
        vertex_count: le16(s, base + 6),
        triangle_start: le16(s, base + 8),
        triangle_count: le16(s, base + 10),
        bone_count: le16(s, base + 12),
        bone_start: le16(s, base + 14),
        bone_influence: le16(s, base + 16),
    }
}

/// The texture-unit record stored at `base`.
pub open spec fn spec_texture_unit(s: Seq<u8>, base: int) -> TextureUnit {
    TextureUnit {
        flags: s[base],
        priority_plane: s[base + 1],
        shader_id: le16(s, base + 2),
        skin_section_index: le16(s, base + 4),
        geoset_index: le16(s, base + 6),
        color_index: le16(s, base + 8),
        material_index: le16(s, base + 10),
        material_layer: le16(s, base + 12),
        texture_count: le16(s, base + 14),
        texture_combo_index: le16(s, base + 16),
        texture_coord_combo_index: le16(s, base + 18),
        texture_weight_combo_index: le16(s, base + 20),
        texture_transform_combo_index: le16(s, base + 22),
    }
}

/// Whether a skin buffer is complete: magic, header, and the four
/// consulted arrays inside the buffer.
pub open spec fn skin_ok(s: Seq<u8>) -> bool {
    &&& s.len() >= 48
    &&& le32(s, 0) == MAGIC_SKIN
    &&& (le32(s, 8) as int) + 2 * (le32(s, 4) as int) <= s.len()
    &&& (le32(s, 16) as int) + 2 * (le32(s, 12) as int) <= s.len()
    &&& (le32(s, 32) as int) + 48 * (le32(s, 28) as int) <= s.len()
    &&& (le32(s, 40) as int) + 24 * (le32(s, 36) as int) <= s.len()
}

/// Whether `k` is exactly the decoding of the skin buffer `s`.
pub open spec fn skin_matches(s: Seq<u8>, k: Skin) -> bool {
    &&& k.indices@.len() == le32(s, 4)
    &&& (forall|i: int|
        0 <= i < k.indices@.len() ==> (#[trigger] k.indices@[i]) == le16(
            s,
            le32(s, 8) + 2 * i,
        ))
    &&& k.triangles@.len() == le32(s, 12)
    &&& (forall|i: int|
        0 <= i < k.triangles@.len() ==> (#[trigger] k.triangles@[i]) == le16(
            s,
            le32(s, 16) + 2 * i,
        ))
    &&& k.submeshes@.len() == le32(s, 28)
    &&& (forall|i: int|
        0 <= i < k.submeshes@.len() ==> (#[trigger] k.submeshes@[i]) == spec_submesh(
            s,
            le32(s, 32) + 48 * i,
        ))
    &&& k.texture_units@.len() == le32(s, 36)
    &&& (forall|i: int|
        0 <= i < k.texture_units@.len() ==> (#[trigger] k.texture_units@[i]) == spec_texture_unit(
            s,
            le32(s, 40) + 24 * i,
        ))
}

/// Clamps a wide count to the machine's address range, for error
/// reporting.
fn clamp64(x: u64) -> (r: usize)
    ensures
        x <= usize::MAX ==> r == x,
        x > usize::MAX ==> r == usize::MAX,
{
    if x > usize::MAX as u64 {
        usize::MAX
    } else {
        x as usize
    }
}

/// Parses a view file: the magic, the five array locators, and the four
/// arrays the pipeline consults.
#[verifier::rlimit(100)]
#[verifier::spinoff_prover]
#[verifier::loop_isolation(false)]
pub fn parse_skin(data: &[u8]) -> (r: Result<Skin, Error>)
    ensures
        (r is Ok <==> skin_ok(data@)),
        (r matches Ok(k) ==> skin_matches(data@, k)),
        (data@.len() >= 48 && le32(data@, 0) != MAGIC_SKIN ==> r == Err::<Skin, Error>(
            Error::InvalidMagic(le32(data@, 0)),
        )),
{
    let ghost s = data@;
    let len = data.len();
    if len < 48 {
        return Err(Error::Truncated(48, len));
    }
    let magic = read_u32_le(data, 0);
    if magic != MAGIC_SKIN {
        return Err(Error::InvalidMagic(magic));
    }
    let ind_cnt = read_u32_le(data, 4);
    let ind_off = read_u32_le(data, 8);
    let tri_cnt = read_u32_le(data, 12);
    let tri_off = read_u32_le(data, 16);
    let sub_cnt = read_u32_le(data, 28);
    let sub_off = read_u32_le(data, 32);
    let bat_cnt = read_u32_le(data, 36);
    let bat_off = read_u32_le(data, 40);
    if (ind_off as u64) + 2 * (ind_cnt as u64) > len as u64 {
        return Err(Error::Truncated(clamp64((ind_off as u64) + 2 * (ind_cnt as u64)), len));
    }
    if (tri_off as u64) + 2 * (tri_cnt as u64) > len as u64 {
        return Err(Error::Truncated(clamp64((tri_off as u64) + 2 * (tri_cnt as u64)), len));
    }
    if (sub_off as u64) + 48 * (sub_cnt as u64) > len as u64 {
        return Err(Error::Truncated(clamp64((sub_off as u64) + 48 * (sub_cnt as u64)), len));
    }
    if (bat_off as u64) + 24 * (bat_cnt as u64) > len as u64 {
        return Err(Error::Truncated(clamp64((bat_off as u64) + 24 * (bat_cnt as u64)), len));
    }
    let mut indices: Vec<u16> = Vec::new();
    let mut i: usize = 0;
    while i < ind_cnt as usize
        invariant
            i <= ind_cnt,
            indices@.len() == i,
            forall|j: int|
                0 <= j < i ==> (#[trigger] indices@[j]) == le16(s, le32(s, 8) + 2 * j),
        decreases ind_cnt as usize - i,
    {
        indices.push(read_u16_le(data, ind_off as usize + 2 * i));
        i = i + 1;
    }
    let mut triangles: Vec<u16> = Vec::new();
    let mut i: usize = 0;
    while i < tri_cnt as usize
        invariant
            i <= tri_cnt,
            triangles@.len() == i,
            forall|j: int|
                0 <= j < i ==> (#[trigger] triangles@[j]) == le16(s, le32(s, 16) + 2 * j),
        decreases tri_cnt as usize - i,
    {
        triangles.push(read_u16_le(data, tri_off as usize + 2 * i));
        i = i + 1;
    }
    let mut submeshes: Vec<SubMesh> = Vec::new();
    let mut i: usize = 0;
    while i < sub_cnt as usize
        invariant
            i <= sub_cnt,
            submeshes@.len() == i,
            forall|j: int|
                0 <= j < i ==> (#[trigger] submeshes@[j]) == spec_submesh(s, le32(s, 32) + 48 * j),
        decreases sub_cnt as usize - i,
    {
        let base = sub_off as usize + 48 * i;
        submeshes.push(
            SubMesh {
                id: read_u16_le(data, base),
                level: read_u16_le(data, base + 2),
                vertex_start: read_u16_le(data, base + 4),
                vertex_count: read_u16_le(data, base + 6),
                triangle_start: read_u16_le(data, base + 8),
                triangle_count: read_u16_le(data, base + 10),
                bone_count: read_u16_le(data, base + 12),
                bone_start: read_u16_le(data, base + 14),
                bone_influence: read_u16_le(data, base + 16),
            },
        );
        i = i + 1;
    }
    let mut texture_units: Vec<TextureUnit> = Vec::new();
    let mut i: usize = 0;
    while i < bat_cnt as usize
        invariant
            i <= bat_cnt,
            texture_units@.len() == i,
            forall|j: int|
                0 <= j < i ==> (#[trigger] texture_units@[j]) == spec_texture_unit(
                    s,
                    le32(s, 40) + 24 * j,
                ),
        decreases bat_cnt as usize - i,
    {
        let base = bat_off as usize + 24 * i;
        texture_units.push(
            TextureUnit {
                flags: data[base],
                priority_plane: data[base + 1],
                shader_id: read_u16_le(data, base + 2),
                skin_section_index: read_u16_le(data, base + 4),
                geoset_index: read_u16_le(data, base + 6),
                color_index: read_u16_le(data, base + 8),
                material_index: read_u16_le(data, base + 10),
                material_layer: read_u16_le(data, base + 12),
                texture_count: read_u16_le(data, base + 14),
                texture_combo_index: read_u16_le(data, base + 16),
                texture_coord_combo_index: read_u16_le(data, base + 18),
                texture_weight_combo_index: read_u16_le(data, base + 20),
                texture_transform_combo_index: read_u16_le(data, base + 22),
            },
        );
        i = i + 1;
    }
    let k = Skin { indices, triangles, submeshes, texture_units };
    proof {
        assert(skin_ok(s));
        assert(skin_matches(s, k));
    }
    Ok(k)
}

/// The four consulted arrays as stored in a skin buffer; each mirrors one
/// field of a parsed `Skin`.
pub open spec fn spec_skin_indices(s: Seq<u8>) -> Seq<u16> {
    Seq::new(le32(s, 4) as nat, |i: int| le16(s, le32(s, 8) + 2 * i))
}

/// The stored triangle-index array.
pub open spec fn spec_skin_triangles(s: Seq<u8>) -> Seq<u16> {
    Seq::new(le32(s, 12) as nat, |i: int| le16(s, le32(s, 16) + 2 * i))
}

/// The stored sub-mesh records.
pub open spec fn spec_skin_submeshes(s: Seq<u8>) -> Seq<SubMesh> {
    Seq::new(le32(s, 28) as nat, |m: int| spec_submesh(s, le32(s, 32) + 48 * m))
}

/// The stored texture-unit records.
pub open spec fn spec_skin_units(s: Seq<u8>) -> Seq<TextureUnit> {
    Seq::new(le32(s, 36) as nat, |u: int| spec_texture_unit(s, le32(s, 40) + 24 * u))
}

/// A parsed skin's arrays are exactly the stored ones.
pub proof fn lemma_skin_matches_arrays(s: Seq<u8>, k: Skin)
    requires
        skin_matches(s, k),
    ensures
        k.indices@ == spec_skin_indices(s),
        k.triangles@ == spec_skin_triangles(s),
        k.submeshes@ == spec_skin_submeshes(s),
        k.texture_units@ == spec_skin_units(s),
{
    assert(k.indices@ =~= spec_skin_indices(s));
    assert(k.triangles@ =~= spec_skin_triangles(s));
    assert(k.submeshes@ =~= spec_skin_submeshes(s));
    assert(k.texture_units@ =~= spec_skin_units(s));
}

/// Whether slot `t` of sub-mesh `m` resolves against the given triangle
/// and vertex-lookup arrays: the slot exists, points inside the lookup
/// array, and lands below the model's vertex count.
pub open spec fn slot_resolves(
    triangles: Seq<u16>,
    indices: Seq<u16>,
    m: SubMesh,
    t: int,
    vertex_count: int,
) -> bool {
    &&& m.triangle_start + t < triangles.len()
    &&& triangles[m.triangle_start + t] < indices.len()
    &&& indices[triangles[m.triangle_start + t] as int] < vertex_count
}

/// Whether sub-mesh `m` resolves fully: every slot of its triangle range
/// does.
pub open spec fn submesh_resolves(
    triangles: Seq<u16>,
    indices: Seq<u16>,
    m: SubMesh,
    vertex_count: int,
) -> bool {
    forall|t: int|
        0 <= t < m.triangle_count ==> #[trigger] slot_resolves(
            triangles,
            indices,
            m,
            t,
            vertex_count,
        )
}

/// The resolved index for slot `t` of sub-mesh `m`: the triangle entry
/// picks a vertex-lookup slot, which picks a model vertex.
pub open spec fn resolved_index(triangles: Seq<u16>, indices: Seq<u16>, m: SubMesh, t: int) -> int {
    indices[triangles[m.triangle_start + t] as int] as int
}

/// Builds the index buffer of one sub-mesh: for each of its triangle
/// slots, the vertex-lookup entry named by the triangle entry, checked to
/// land below the model's vertex count. Every emitted index is in range.
pub fn submesh_indices(skin: &Skin, sm: usize, vertex_count: usize) -> (r: Result<Vec<u32>, Error>)
    requires
        sm < skin.submeshes@.len(),
    ensures
        (r is Ok <==> submesh_resolves(
            skin.triangles@,
            skin.indices@,
            skin.submeshes@[sm as int],
            vertex_count as int,
        )),
        (r matches Ok(v) ==> {
            let m = skin.submeshes@[sm as int];
            &&& v@.len() == m.triangle_count
            &&& (forall|t: int|
                0 <= t < m.triangle_count ==> (#[trigger] v@[t]) == resolved_index(
                    skin.triangles@,
                    skin.indices@,
                    m,
                    t,
                ))
            &&& (forall|t: int| 0 <= t < v@.len() ==> (#[trigger] v@[t]) < vertex_count)
        }),
{
    let m = skin.submeshes[sm];
    let mut out: Vec<u32> = Vec::new();
    let mut t: usize = 0;
    while t < m.triangle_count as usize
        invariant
            sm < skin.submeshes@.len(),
            m == skin.submeshes@[sm as int],
            t <= m.triangle_count,
            out@.len() == t,
            forall|x: int|
                0 <= x < t ==> #[trigger] slot_resolves(
                    skin.triangles@,
                    skin.indices@,
                    m,
                    x,
                    vertex_count as int,
                ),
            forall|x: int|
                0 <= x < t ==> (#[trigger] out@[x]) == resolved_index(
                    skin.triangles@,
                    skin.indices@,
                    skin.submeshes@[sm as int],
                    x,
                ),
        decreases m.triangle_count as usize - t,
    {
        let slot = m.triangle_start as usize + t;
        if slot >= skin.triangles.len() {
            proof {
                assert(!slot_resolves(skin.triangles@, skin.indices@, m, t as int, vertex_count as int));
            }
            return Err(Error::CorruptData);
        }
        let look = skin.triangles[slot] as usize;
        if look >= skin.indices.len() {
            proof {
                assert(!slot_resolves(skin.triangles@, skin.indices@, m, t as int, vertex_count as int));
            }
            return Err(Error::CorruptData);
        }
        let vi = skin.indices[look];
        if vi as usize >= vertex_count {
            proof {
                assert(!slot_resolves(skin.triangles@, skin.indices@, m, t as int, vertex_count as int));
            }
            return Err(Error::CorruptData);
        }
        proof {
            assert(slot_resolves(skin.triangles@, skin.indices@, m, t as int, vertex_count as int));
        }
        out.push(vi as u32);
        t = t + 1;
    }
    proof {
        assert forall|x: int| 0 <= x < out@.len() implies (#[trigger] out@[x]) < vertex_count by {
            assert(slot_resolves(
                skin.triangles@,
                skin.indices@,
                skin.submeshes@[sm as int],
                x,
                vertex_count as int,
            ));
            assert(out@[x] == resolved_index(
                skin.triangles@,
                skin.indices@,
                skin.submeshes@[sm as int],
                x,
            ));
        }
    }
    Ok(out)
}

} // verus!
