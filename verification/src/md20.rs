//! The legacy model payload: the long header of (count, offset) pairs, the
//! vertex array with its coordinate fix-up, and the texture, material and
//! texture-combo tables.

use vstd::prelude::*;
use vstd::utf8::{encode_utf8, valid_utf8};

use crate::bytes::{le16, le32, read_u16_le, read_u32_le};
use crate::errors::Error;
use crate::utils::{
    read_u8vec4, read_vec2, read_vec3, spec_read_u8vec4, spec_read_vec2, spec_read_vec3, ByteQuad,
    OffsetSize, Vec2Bits, Vec3Bits,
};

verus! {

/// The legacy payload magic, `MD20`, as a little-endian word.
pub const MAGIC_MD20: u32 = 0x3032444D;

/// Model flag: the header carries a texture-combiner-combos pair.
pub const MODEL_FLAG_TEXTURE_COMBINER_COMBOS: u32 = 0x8;

/// The (count, offset) pair stored at `base`: count first, offset second.
pub open spec fn pair_at(s: Seq<u8>, base: int) -> OffsetSize {
    OffsetSize { offset: le32(s, base + 4) as u64, size: le32(s, base) as u64 }
}

/// Reads one (count, offset) pair.
pub(crate) fn get_offsetsize(data: &[u8], base: usize) -> (r: OffsetSize)
    requires
        base + 8 <= data@.len(),
    ensures
        r == pair_at(data@, base as int),
{
    proof {
        vstd::slice::axiom_spec_len(data);
    }
    OffsetSize {
        offset: read_u32_le(data, base + 4) as u64,
        size: read_u32_le(data, base) as u64,
    }
}

/// Where every header array lives, in header order.
#[derive(Debug, Clone, Copy, PartialEq, Eq, Structural)]
pub struct ArrayPositions {
    /// The model's name.
    pub model_name: OffsetSize,
    /// Global sequence loops.
    pub global_loops: OffsetSize,
    /// Animation records.
    pub animations: OffsetSize,
    /// Animation lookup table.
    pub animation_lookup: OffsetSize,
    /// Bone records.
    pub bones: OffsetSize,
    /// Key-bone lookup table.
    pub bone_indices: OffsetSize,
    /// Vertex records.
    pub vertices: OffsetSize,
    /// Color animations.
    pub colors: OffsetSize,
    /// Texture records.
    pub textures: OffsetSize,
    /// Texture weights.
    pub texture_weights: OffsetSize,
    /// Texture transforms.
    pub texture_transforms: OffsetSize,
    /// Replaceable-texture lookup.
    pub replaceable_texture_lookups: OffsetSize,
    /// Material records.
    pub materials: OffsetSize,
    /// Bone lookup combos.
    pub bone_combos: OffsetSize,
    /// Texture lookup combos.
    pub texture_combos: OffsetSize,
    /// Texture-coordinate lookup combos.
    pub texture_coords_combos: OffsetSize,
    /// Transparency lookup.
    pub transparency_lookups: OffsetSize,
    /// Texture-transform lookup.
    pub texture_transform_lookups: OffsetSize,
    /// Collision indices.
    pub collision_indices: OffsetSize,
    /// Collision positions.
    pub collision_positions: OffsetSize,
    /// Collision face normals.
    pub collision_facenormals: OffsetSize,
    /// Attachment records.
    pub attachments: OffsetSize,
    /// Attachment lookup table.
    pub attachments_lookup_table: OffsetSize,
    /// Event records.
    pub events: OffsetSize,
    /// Light records.
    pub lights: OffsetSize,
    /// Camera records.
    pub cameras: OffsetSize,
    /// Camera lookup table.
    pub camera_lookup_table: OffsetSize,
    /// Ribbon emitters.
    pub ribbon_emitters: OffsetSize,
    /// Particle emitters.
    pub particle_emitters: OffsetSize,
    /// Texture-combiner combos; present only under the matching flag.
    pub texture_combiner_combos: Option<OffsetSize>,
}

/// The array positions as laid out in a payload at origin `ofs`.
pub open spec fn spec_array_positions(s: Seq<u8>, ofs: int) -> ArrayPositions {
    ArrayPositions {
        model_name: pair_at(s, ofs + 8),
        global_loops: pair_at(s, ofs + 20),
        animations: pair_at(s, ofs + 28),
        animation_lookup: pair_at(s, ofs + 36),
        bones: pair_at(s, ofs + 44),
        bone_indices: pair_at(s, ofs + 52),
        vertices: pair_at(s, ofs + 60),
        colors: pair_at(s, ofs + 72),
        textures: pair_at(s, ofs + 80),
        texture_weights: pair_at(s, ofs + 88),
        texture_transforms: pair_at(s, ofs + 96),
        replaceable_texture_lookups: pair_at(s, ofs + 104),
        materials: pair_at(s, ofs + 112),
        bone_combos: pair_at(s, ofs + 120),
        texture_combos: pair_at(s, ofs + 128),
        texture_coords_combos: pair_at(s, ofs + 136),
        transparency_lookups: pair_at(s, ofs + 144),
        texture_transform_lookups: pair_at(s, ofs + 152),
        collision_indices: pair_at(s, ofs + 216),
        collision_positions: pair_at(s, ofs + 224),
        collision_facenormals: pair_at(s, ofs + 232),
        attachments: pair_at(s, ofs + 240),
        attachments_lookup_table: pair_at(s, ofs + 248),
        events: pair_at(s, ofs + 256),
        lights: pair_at(s, ofs + 264),
        cameras: pair_at(s, ofs + 272),
        camera_lookup_table: pair_at(s, ofs + 280),
        ribbon_emitters: pair_at(s, ofs + 288),
        particle_emitters: pair_at(s, ofs + 296),
        texture_combiner_combos: if le32(s, ofs + 16) & MODEL_FLAG_TEXTURE_COMBINER_COMBOS != 0 {
            Some(pair_at(s, ofs + 304))
        } else {
            None
        },
    }
}

/// One model vertex, coordinate-fixed, as stored bit patterns.
#[derive(Debug, Clone, Copy, PartialEq, Eq, Structural)]
pub struct M2Vertex {
    /// Position, already fixed up to the target convention.
    pub position: Vec3Bits,
    /// Bone weights.
    pub bone_weights: ByteQuad,
    /// Bone indices.
    pub bone_indices: ByteQuad,
    /// Normal, already fixed up to the target convention.
    pub normal: Vec3Bits,
    /// First texture-coordinate pair.
    pub tex_coords: Vec2Bits,
    /// Second texture-coordinate pair.
    pub tex_coords2: Vec2Bits,
}

/// The vertex record stored at `base`, with the coordinate fix applied to
/// position and normal, once, here.
pub open spec fn spec_vertex(s: Seq<u8>, base: int) -> M2Vertex {
    M2Vertex {
        position: spec_read_vec3(s, base),
        bone_weights: spec_read_u8vec4(s, base + 12),
        bone_indices: spec_read_u8vec4(s, base + 16),
        normal: spec_read_vec3(s, base + 20),
        tex_coords: spec_read_vec2(s, base + 32),
        tex_coords2: spec_read_vec2(s, base + 40),
    }
}

/// The vertex attributes, split by attribute.
#[derive(Debug, Clone, PartialEq, Eq)]
pub struct VerticeData {
    /// Positions, coordinate-fixed.
    pub vertices: Vec<Vec3Bits>,
    /// First texture coordinates.
    pub uv: Vec<Vec2Bits>,
    /// Second texture coordinates.
    pub uv2: Vec<Vec2Bits>,
    /// Normals, coordinate-fixed.
    pub normals: Vec<Vec3Bits>,
    /// Bone weights.
    pub bone_weights: Vec<ByteQuad>,
    /// Bone indices.
    pub bone_indices: Vec<ByteQuad>,
}

impl VerticeData {
    /// All attribute arrays have the same length.
    pub open spec fn wf(&self) -> bool {
        &&& self.uv@.len() == self.vertices@.len()
        &&& self.uv2@.len() == self.vertices@.len()
        &&& self.normals@.len() == self.vertices@.len()
        &&& self.bone_weights@.len() == self.vertices@.len()
        &&& self.bone_indices@.len() == self.vertices@.len()
    }

    /// The attributes hold exactly the vertex records at `ofs + pos.offset`.
    pub open spec fn matches(&self, s: Seq<u8>, base: int, count: int) -> bool {
        &&& self.vertices@.len() == count
        &&& self.wf()
        &&& (forall|i: int|
            0 <= i < count ==> #[trigger] self.vertices@[i] == spec_vertex(s, base + 48 * i).position)
        &&& (forall|i: int|
            0 <= i < count ==> #[trigger] self.uv@[i] == spec_vertex(s, base + 48 * i).tex_coords)
        &&& (forall|i: int|
            0 <= i < count ==> #[trigger] self.uv2@[i] == spec_vertex(s, base + 48 * i).tex_coords2)
        &&& (forall|i: int|
            0 <= i < count ==> #[trigger] self.normals@[i] == spec_vertex(s, base + 48 * i).normal)
        &&& (forall|i: int|
            0 <= i < count ==> #[trigger] self.bone_weights@[i] == spec_vertex(
                s,
                base + 48 * i,
            ).bone_weights)
        &&& (forall|i: int|
            0 <= i < count ==> #[trigger] self.bone_indices@[i] == spec_vertex(
                s,
                base + 48 * i,
            ).bone_indices)
    }

    /// The coordinate-fixed positions.
    pub fn vertices(&self) -> (r: &Vec<Vec3Bits>)
        ensures
            r == &self.vertices,
    {
        &self.vertices
    }

    /// The first texture coordinates.
    pub fn uv(&self) -> (r: &Vec<Vec2Bits>)
        ensures
            r == &self.uv,
    {
        &self.uv
    }

    /// The second texture coordinates.
    pub fn uv2(&self) -> (r: &Vec<Vec2Bits>)
        ensures
            r == &self.uv2,
    {
        &self.uv2
    }

    /// The coordinate-fixed normals.
    pub fn normals(&self) -> (r: &Vec<Vec3Bits>)
        ensures
            r == &self.normals,
    {
        &self.normals
    }

    /// The bone weights.
    pub fn bone_weights(&self) -> (r: &Vec<ByteQuad>)
        ensures
            r == &self.bone_weights,
    {
        &self.bone_weights
    }

    /// The bone indices.
    pub fn bone_indices(&self) -> (r: &Vec<ByteQuad>)
        ensures
            r == &self.bone_indices,
    {
        &self.bone_indices
    }
}

/// One texture reference of the model.
#[derive(Debug, Clone, PartialEq, Eq)]
pub struct M2Texture {
    /// Texture kind tag.
    pub tex_type: u32,
    /// Texture flag bits.
    pub flags: u32,
    /// The texture's logical file name; empty when none is bound.
    pub filename: Vec<u8>,
}

/// One material record: render flags and blend mode.
#[derive(Debug, Clone, Copy, PartialEq, Eq, Structural)]
pub struct M2Material {
    /// Render flag bits.
    pub flags: u16,
    /// Blend mode.
    pub blend_mode: u16,
}

/// Strips one trailing NUL byte, the usual name terminator.
pub open spec fn strip_nul(s: Seq<u8>) -> Seq<u8> {
    if s.len() > 0 && s.last() == 0 {
        s.drop_last()
    } else {
        s
    }
}

/// The texture filename bytes of texture record `i`: the bytes its
/// (count, offset) pair points at, with the NUL terminator stripped.
pub open spec fn spec_texture_name(s: Seq<u8>, ofs: int, trec: int) -> Seq<u8> {
    let cnt = le32(s, trec) as int;
    let off = le32(s, trec + 4) as int;
    strip_nul(s.subrange(ofs + off, ofs + off + cnt))
}

/// The parsed model payload: header fields and the eagerly decoded arrays
/// the decoding pipeline consumes.
#[derive(Debug, Clone, PartialEq, Eq)]
pub struct Data {
    /// Format version word.
    pub version: u32,
    /// The model's name bytes, NUL stripped.
    pub model_name_bytes: Vec<u8>,
    /// Model flag bits.
    pub flags: u32,
    /// Where every header array lives.
    pub array_positions: ArrayPositions,
    /// Number of companion view (skin) files.
    pub view_count: usize,
    /// The decoded vertex attributes.
    pub vertice_data: VerticeData,
    /// The texture references.
    pub textures: Vec<M2Texture>,
    /// The material records.
    pub materials: Vec<M2Material>,
    /// The texture lookup combos.
    pub texture_combos: Vec<u16>,
}

/// Whether a payload at `ofs` is complete: the magic matches and every
/// array the decoder consults lies inside the buffer.
pub open spec fn md20_ok(s: Seq<u8>, ofs: int) -> bool {
    let flags = le32(s, ofs + 16);
    let header_len: int = if flags & MODEL_FLAG_TEXTURE_COMBINER_COMBOS != 0 {
        312
    } else {
        304
    };
    let ap = spec_array_positions(s, ofs);
    &&& 0 <= ofs
    &&& ofs + header_len <= s.len()
    &&& le32(s, ofs) == MAGIC_MD20
    &&& ofs + ap.model_name.offset + ap.model_name.size <= s.len()
    &&& ofs + ap.vertices.offset + 48 * ap.vertices.size <= s.len()
    &&& ofs + ap.textures.offset + 16 * ap.textures.size <= s.len()
    &&& (forall|i: int|
        0 <= i < ap.textures.size ==> ofs + (le32(
            s,
            ofs + ap.textures.offset + 16 * i + 12,
        ) as int) + (#[trigger] le32(s, ofs + ap.textures.offset + 16 * i + 8)) <= s.len())
    &&& ofs + ap.materials.offset + 4 * ap.materials.size <= s.len()
    &&& ofs + ap.texture_combos.offset + 2 * ap.texture_combos.size <= s.len()
}

/// Whether `d` is exactly the decoding of the payload at `ofs`.
pub open spec fn md20_matches(s: Seq<u8>, ofs: int, d: Data) -> bool {
    let ap = spec_array_positions(s, ofs);
    &&& d.version == le32(s, ofs + 4)
    &&& d.model_name_bytes@ == strip_nul(
        s.subrange(ofs + ap.model_name.offset, ofs + ap.model_name.offset + ap.model_name.size),
    )
    &&& d.flags == le32(s, ofs + 16)
    &&& d.array_positions == ap
    &&& d.view_count == le32(s, ofs + 68)
    &&& d.vertice_data.matches(s, ofs + ap.vertices.offset, ap.vertices.size as int)
    &&& d.textures@.len() == ap.textures.size
    &&& (forall|i: int|
        0 <= i < ap.textures.size ==> {
            let trec = ofs + ap.textures.offset + 16 * i;
            &&& (#[trigger] d.textures@[i]).tex_type == le32(s, trec)
            &&& d.textures@[i].flags == le32(s, trec + 4)
            &&& d.textures@[i].filename@ == spec_texture_name(s, ofs, trec + 8)
        })
    &&& d.materials@.len() == ap.materials.size
    &&& (forall|i: int|
        0 <= i < ap.materials.size ==> {
            let mrec = ofs + ap.materials.offset + 4 * i;
            (#[trigger] d.materials@[i]) == (M2Material {
                flags: le16(s, mrec),
                blend_mode: le16(s, mrec + 2),
            })
        })
    &&& d.texture_combos@.len() == ap.texture_combos.size
    &&& (forall|i: int|
        0 <= i < ap.texture_combos.size ==> (#[trigger] d.texture_combos@[i]) == le16(
            s,
            ofs + ap.texture_combos.offset + 2 * i,
        ))
}

impl Data {
    /// The format version word.
    pub fn version(&self) -> (r: u32)
        ensures
            r == self.version,
    {
        self.version
    }

    /// The model's name bytes.
    pub fn model_name(&self) -> (r: &Vec<u8>)
        ensures
            r == &self.model_name_bytes,
    {
        &self.model_name_bytes
    }

    /// The model flag bits.
    pub fn flags(&self) -> (r: u32)
        ensures
            r == self.flags,
    {
        self.flags
    }

    /// The number of companion view (skin) files.
    pub fn view_count(&self) -> (r: usize)
        ensures
            r == self.view_count,
    {
        self.view_count
    }

    /// The decoded vertex attributes.
    pub fn vertice_data(&self) -> (r: &VerticeData)
        ensures
            r == &self.vertice_data,
    {
        &self.vertice_data
    }
}

/// Clamps a wide count to the machine's address range, for error
/// reporting.
fn clamp_usize(x: u128) -> (r: usize)
    ensures
        x <= usize::MAX ==> r == x,
        x > usize::MAX ==> r == usize::MAX,
{
    if x > usize::MAX as u128 {
        usize::MAX
    } else {
        x as usize
    }
}

/// Reads the bytes a (count, offset) pair points at, strips the NUL
/// terminator, and decodes them as UTF-8.
pub fn read_string_from_buffer(buffer: &[u8], os: &OffsetSize) -> (r: Result<String, Error>)
    ensures
        (r is Ok <==> os.offset + os.size <= buffer@.len() && valid_utf8(
            strip_nul(buffer@.subrange(os.offset as int, os.offset + os.size)),
        )),
        (r matches Ok(st) ==> encode_utf8(st@) == strip_nul(
            buffer@.subrange(os.offset as int, os.offset + os.size),
        )),
        (os.offset + os.size > buffer@.len() ==> (r matches Err(e) && e matches Error::Truncated(
            _,
            _,
        ))),
        (os.offset + os.size <= buffer@.len() && !valid_utf8(
            strip_nul(buffer@.subrange(os.offset as int, os.offset + os.size)),
        ) ==> r == Err::<String, Error>(Error::InvalidUtf8)),
{
    if (os.offset as u128) + (os.size as u128) > buffer.len() as u128 {
        return Err(Error::Truncated(clamp_usize((os.offset as u128) + (os.size as u128)), buffer.len()));
    }
    let start: usize = os.offset as usize;
    let end: usize = (os.offset + os.size) as usize;
    let mut name_buf = crate::bytes::take_range(buffer, start, end);
    if name_buf.len() > 0 && name_buf[name_buf.len() - 1] == 0 {
        name_buf.truncate(name_buf.len() - 1);
        proof {
            assert(name_buf@ =~= strip_nul(
                buffer@.subrange(os.offset as int, os.offset + os.size),
            ));
        }
    }
    match string_from_utf8(name_buf) {
        Some(s) => Ok(s),
        None => Err(Error::InvalidUtf8),
    }
}

/// Parses a legacy payload at origin `ofs`: the magic, the header's
/// (count, offset) pairs, and the vertex, texture, material and
/// texture-combo arrays, each checked against the buffer before it is
/// read.
#[verifier::rlimit(100)]
#[verifier::spinoff_prover]
#[verifier::loop_isolation(false)]
pub fn parse_chunk(raw_data: &[u8], ofs: usize) -> (r: Result<Data, Error>)
    ensures
        (r is Ok <==> md20_ok(raw_data@, ofs as int)),
        (r matches Ok(d) ==> md20_matches(raw_data@, ofs as int, d)),
        (ofs + 304 <= raw_data@.len() && le32(raw_data@, ofs as int) != MAGIC_MD20 ==> r
            == Err::<Data, Error>(Error::InvalidMagic(le32(raw_data@, ofs as int)))),
{
    let ghost s = raw_data@;
    let ghost ofsi = ofs as int;
    let len: usize = raw_data.len();
    if len < 304 || ofs > len - 304 {
        return Err(Error::Truncated(304, len));
    }
    let magic = read_u32_le(raw_data, ofs);
    if magic != MAGIC_MD20 {
        return Err(Error::InvalidMagic(magic));
    }
    let version = read_u32_le(raw_data, ofs + 4);
    let flags = read_u32_le(raw_data, ofs + 16);
    let has_tcc = flags & MODEL_FLAG_TEXTURE_COMBINER_COMBOS != 0;
    if has_tcc && (len < 312 || ofs > len - 312) {
        return Err(Error::Truncated(312, len));
    }
    let ap = ArrayPositions {
        model_name: get_offsetsize(raw_data, ofs + 8),
        global_loops: get_offsetsize(raw_data, ofs + 20),
        animations: get_offsetsize(raw_data, ofs + 28),
        animation_lookup: get_offsetsize(raw_data, ofs + 36),
        bones: get_offsetsize(raw_data, ofs + 44),
        bone_indices: get_offsetsize(raw_data, ofs + 52),
        vertices: get_offsetsize(raw_data, ofs + 60),
        colors: get_offsetsize(raw_data, ofs + 72),
        textures: get_offsetsize(raw_data, ofs + 80),
        texture_weights: get_offsetsize(raw_data, ofs + 88),
        texture_transforms: get_offsetsize(raw_data, ofs + 96),
        replaceable_texture_lookups: get_offsetsize(raw_data, ofs + 104),
        materials: get_offsetsize(raw_data, ofs + 112),
        bone_combos: get_offsetsize(raw_data, ofs + 120),
        texture_combos: get_offsetsize(raw_data, ofs + 128),
        texture_coords_combos: get_offsetsize(raw_data, ofs + 136),
        transparency_lookups: get_offsetsize(raw_data, ofs + 144),
        texture_transform_lookups: get_offsetsize(raw_data, ofs + 152),
        collision_indices: get_offsetsize(raw_data, ofs + 216),
        collision_positions: get_offsetsize(raw_data, ofs + 224),
        collision_facenormals: get_offsetsize(raw_data, ofs + 232),
        attachments: get_offsetsize(raw_data, ofs + 240),
        attachments_lookup_table: get_offsetsize(raw_data, ofs + 248),
        events: get_offsetsize(raw_data, ofs + 256),
        lights: get_offsetsize(raw_data, ofs + 264),
        cameras: get_offsetsize(raw_data, ofs + 272),
        camera_lookup_table: get_offsetsize(raw_data, ofs + 280),
        ribbon_emitters: get_offsetsize(raw_data, ofs + 288),
        particle_emitters: get_offsetsize(raw_data, ofs + 296),
        texture_combiner_combos: if has_tcc {
            Some(get_offsetsize(raw_data, ofs + 304))
        } else {
            None
        },
    };
    proof {
        assert(ap == spec_array_positions(s, ofsi));
    }
    let view_count = read_u32_le(raw_data, ofs + 68) as usize;
    // The model name.
    if (ofs as u128) + (ap.model_name.offset as u128) + (ap.model_name.size as u128) > len as u128 {
        return Err(
            Error::Truncated(
                clamp_usize((ofs as u128) + (ap.model_name.offset as u128) + (ap.model_name.size as u128)),
                len,
            ),
        );
    }
    let name_start: usize = ofs + ap.model_name.offset as usize;
    let name_end: usize = name_start + ap.model_name.size as usize;
    let mut model_name_bytes = crate::bytes::take_range(raw_data, name_start, name_end);
    if model_name_bytes.len() > 0 && model_name_bytes[model_name_bytes.len() - 1] == 0 {
        model_name_bytes.truncate(model_name_bytes.len() - 1);
    }
    proof {
        assert(model_name_bytes@ =~= strip_nul(
            s.subrange(
                ofsi + ap.model_name.offset,
                ofsi + ap.model_name.offset + ap.model_name.size,
            ),
        ));
    }
    // The vertex records.
    if (ofs as u128) + (ap.vertices.offset as u128) + 48 * (ap.vertices.size as u128) > len as u128 {
        return Err(
            Error::Truncated(
                clamp_usize((ofs as u128) + (ap.vertices.offset as u128) + 48 * (ap.vertices.size as u128)),
                len,
            ),
        );
    }
    let vcount: usize = ap.vertices.size as usize;
    let vbase: usize = ofs + ap.vertices.offset as usize;
    let ghost vbasei = vbase as int;
    let mut vertices: Vec<Vec3Bits> = Vec::new();
    let mut uv: Vec<Vec2Bits> = Vec::new();
    let mut uv2: Vec<Vec2Bits> = Vec::new();
    let mut normals: Vec<Vec3Bits> = Vec::new();
    let mut bone_weights: Vec<ByteQuad> = Vec::new();
    let mut bone_indices: Vec<ByteQuad> = Vec::new();
    let mut i: usize = 0;
    while i < vcount
        invariant
            i <= vcount,
            vertices@.len() == i,
            uv@.len() == i,
            uv2@.len() == i,
            normals@.len() == i,
            bone_weights@.len() == i,
            bone_indices@.len() == i,
            forall|j: int|
                0 <= j < i ==> #[trigger] vertices@[j] == spec_vertex(s, vbasei + 48 * j).position,
            forall|j: int|
                0 <= j < i ==> #[trigger] uv@[j] == spec_vertex(s, vbasei + 48 * j).tex_coords,
            forall|j: int|
                0 <= j < i ==> #[trigger] uv2@[j] == spec_vertex(s, vbasei + 48 * j).tex_coords2,
            forall|j: int|
                0 <= j < i ==> #[trigger] normals@[j] == spec_vertex(s, vbasei + 48 * j).normal,
            forall|j: int|
                0 <= j < i ==> #[trigger] bone_weights@[j] == spec_vertex(
                    s,
                    vbasei + 48 * j,
                ).bone_weights,
            forall|j: int|
                0 <= j < i ==> #[trigger] bone_indices@[j] == spec_vertex(
                    s,
                    vbasei + 48 * j,
                ).bone_indices,
        decreases vcount - i,
    {
        let base: usize = vbase + 48 * i;
        vertices.push(read_vec3(raw_data, base));
        bone_weights.push(read_u8vec4(raw_data, base + 12));
        bone_indices.push(read_u8vec4(raw_data, base + 16));
        normals.push(read_vec3(raw_data, base + 20));
        uv.push(read_vec2(raw_data, base + 32));
        uv2.push(read_vec2(raw_data, base + 40));
        i = i + 1;
    }
    let vertice_data = VerticeData { vertices, uv, uv2, normals, bone_weights, bone_indices };
    // The texture references, each with its filename bytes.
    if (ofs as u128) + (ap.textures.offset as u128) + 16 * (ap.textures.size as u128) > len as u128 {
        return Err(
            Error::Truncated(
                clamp_usize((ofs as u128) + (ap.textures.offset as u128) + 16 * (ap.textures.size as u128)),
                len,
            ),
        );
    }
    let tcount: usize = ap.textures.size as usize;
    let tbase: usize = ofs + ap.textures.offset as usize;
    let ghost tbasei = tbase as int;
    let mut textures: Vec<M2Texture> = Vec::new();
    let mut i: usize = 0;
    while i < tcount
        invariant
            i <= tcount,
            textures@.len() == i,
            forall|j: int|
                0 <= j < i ==> {
                    let trec = tbasei + 16 * j;
                    &&& (#[trigger] textures@[j]).tex_type == le32(s, trec)
                    &&& textures@[j].flags == le32(s, trec + 4)
                    &&& textures@[j].filename@ == spec_texture_name(s, ofsi, trec + 8)
                },
            forall|j: int|
                0 <= j < i ==> ofsi + (le32(s, tbasei + 16 * j + 12) as int) + (#[trigger] le32(
                    s,
                    tbasei + 16 * j + 8,
                )) <= s.len(),
        decreases tcount - i,
    {
        let trec: usize = tbase + 16 * i;
        let tex_type = read_u32_le(raw_data, trec);
        let tflags = read_u32_le(raw_data, trec + 4);
        let ncnt = read_u32_le(raw_data, trec + 8);
        let noff = read_u32_le(raw_data, trec + 12);
        if (ofs as u128) + (noff as u128) + (ncnt as u128) > len as u128 {
            proof {
                let trec2 = tbasei + 16 * (i as int);
                assert(ofsi + (le32(s, trec2 + 12) as int) + le32(s, trec2 + 8) > s.len());
                assert(!md20_ok(s, ofsi));
            }
            return Err(
                Error::Truncated(clamp_usize((ofs as u128) + (noff as u128) + (ncnt as u128)), len),
            );
        }
        let nstart: usize = ofs + noff as usize;
        let nend: usize = nstart + ncnt as usize;
        let mut filename = crate::bytes::take_range(raw_data, nstart, nend);
        if filename.len() > 0 && filename[filename.len() - 1] == 0 {
            filename.truncate(filename.len() - 1);
        }
        proof {
            assert(filename@ =~= spec_texture_name(s, ofsi, tbasei + 16 * (i as int) + 8));
        }
        textures.push(M2Texture { tex_type, flags: tflags, filename });
        i = i + 1;
    }
    // The material records.
    if (ofs as u128) + (ap.materials.offset as u128) + 4 * (ap.materials.size as u128) > len as u128 {
        return Err(
            Error::Truncated(
                clamp_usize((ofs as u128) + (ap.materials.offset as u128) + 4 * (ap.materials.size as u128)),
                len,
            ),
        );
    }
    let mcount: usize = ap.materials.size as usize;
    let mbase: usize = ofs + ap.materials.offset as usize;
    let mut materials: Vec<M2Material> = Vec::new();
    let mut i: usize = 0;
    while i < mcount
        invariant
            i <= mcount,
            materials@.len() == i,
            forall|j: int|
                0 <= j < i ==> (#[trigger] materials@[j]) == (M2Material {
                    flags: le16(s, mbase + 4 * j),
                    blend_mode: le16(s, mbase + 4 * j + 2),
                }),
        decreases mcount - i,
    {
        let mrec: usize = mbase + 4 * i;
        materials.push(
            M2Material { flags: read_u16_le(raw_data, mrec), blend_mode: read_u16_le(raw_data, mrec + 2) },
        );
        i = i + 1;
    }
    // The texture lookup combos.
    if (ofs as u128) + (ap.texture_combos.offset as u128) + 2 * (ap.texture_combos.size as u128) > len as u128 {
        return Err(
            Error::Truncated(
                clamp_usize((ofs as u128) + (ap.texture_combos.offset as u128) + 2 * (ap.texture_combos.size as u128)),
                len,
            ),
        );
    }
    let ccount: usize = ap.texture_combos.size as usize;
    let cbase: usize = ofs + ap.texture_combos.offset as usize;
    let mut texture_combos: Vec<u16> = Vec::new();
    let mut i: usize = 0;
    while i < ccount
        invariant
            i <= ccount,
            texture_combos@.len() == i,
            forall|j: int|
                0 <= j < i ==> (#[trigger] texture_combos@[j]) == le16(s, cbase + 2 * j),
        decreases ccount - i,
    {
        texture_combos.push(read_u16_le(raw_data, cbase + 2 * i));
        i = i + 1;
    }
    let d = Data {
        version,
        model_name_bytes,
        flags,
        array_positions: ap,
        view_count,
        vertice_data,
        textures,
        materials,
        texture_combos,
    };
    proof {
        assert(md20_ok(s, ofsi));
        assert(md20_matches(s, ofsi, d));
    }
    Ok(d)
}

/// Relies on String::from_utf8: it succeeds exactly on valid UTF-8 input
/// and returns the string whose encoding is exactly those bytes.
#[verifier::external_body]
fn string_from_utf8(v: Vec<u8>) -> (r: Option<String>)
    ensures
        (match r {
            Some(s) => valid_utf8(v@) && encode_utf8(s@) == v@,
            None => !valid_utf8(v@),
        }),
{
    String::from_utf8(v).ok()
}

} // verus!
