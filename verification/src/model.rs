//! Assembling decoded parts into renderable descriptors: per-sub-mesh
//! index buffers and material descriptors, with the last texture unit
//! winning where several address one sub-mesh.

use vstd::prelude::*;

use crate::blp::TextureImage;
use crate::errors::Error;
use crate::md20::Data;
use crate::skin::{resolved_index, submesh_indices, submesh_resolves, Skin, SubMesh, TextureUnit};

verus! {

/// Render flag: back-face culling is disabled.
pub const RENDER_FLAG_NO_BACKFACE_CULLING: u16 = 0x04;

/// Blend mode: alpha-keyed.
pub const BLEND_MODE_ALPHA_KEY: u16 = 1;

/// One material descriptor, as handed to a renderer.
#[derive(Debug, Clone, Copy, PartialEq, Eq)]
pub struct MaterialDescriptor {
    /// The material's blend mode.
    pub blend_mode: u16,
    /// The material's render flag bits.
    pub render_flags: u16,
    /// Index of the bound base-color texture, if one is bound.
    pub texture: Option<usize>,
    /// Whether both faces are drawn.
    pub double_sided: bool,
    /// Whether back faces are culled; the complement of `double_sided`.
    pub cull_backface: bool,
    /// Whether alpha is masked at one half, from the alpha-key blend mode;
    /// every other blend mode is treated as opaque.
    pub alpha_mask: bool,
}

/// The texture a combo index binds: follow the texture lookup combo, and
/// bind only a texture that actually decoded.
pub open spec fn spec_bound_texture(
    d: Data,
    textures: Seq<Option<TextureImage>>,
    combo_idx: int,
) -> Option<usize> {
    if 0 <= combo_idx < d.texture_combos@.len() {
        let ti = d.texture_combos@[combo_idx] as int;
        if ti < textures.len() && textures[ti] is Some {
            Some(ti as usize)
        } else {
            None
        }
    } else {
        None
    }
}

/// The material descriptor derived from material record `mat_idx` and
/// texture combo `combo_idx`.
pub open spec fn spec_descriptor(
    d: Data,
    textures: Seq<Option<TextureImage>>,
    mat_idx: int,
    combo_idx: int,
) -> MaterialDescriptor {
    let m = d.materials@[mat_idx];
    MaterialDescriptor {
        blend_mode: m.blend_mode,
        render_flags: m.flags,
        texture: spec_bound_texture(d, textures, combo_idx),
        double_sided: m.flags & RENDER_FLAG_NO_BACKFACE_CULLING != 0,
        cull_backface: m.flags & RENDER_FLAG_NO_BACKFACE_CULLING == 0,
        alpha_mask: m.blend_mode == BLEND_MODE_ALPHA_KEY,
    }
}

/// Builds the material descriptor for one (material, texture-combo) key.
pub fn build_material(
    model: &Data,
    textures: &Vec<Option<TextureImage>>,
    mat_idx: u16,
    combo_idx: u16,
) -> (r: Result<MaterialDescriptor, Error>)
    ensures
        (r is Ok <==> (mat_idx as int) < model.materials@.len()),
        (r matches Ok(dsc) ==> dsc == spec_descriptor(
            *model,
            textures@,
            mat_idx as int,
            combo_idx as int,
        )),
        ((mat_idx as int) >= model.materials@.len() ==> r == Err::<MaterialDescriptor, Error>(
            Error::CorruptData,
        )),
{
    if mat_idx as usize >= model.materials.len() {
        return Err(Error::CorruptData);
    }
    let m = model.materials[mat_idx as usize];
    let tex: Option<usize> = if (combo_idx as usize) < model.texture_combos.len() {
        let ti = model.texture_combos[combo_idx as usize] as usize;
        if ti < textures.len() && textures[ti].is_some() {
            Some(ti)
        } else {
            None
        }
    } else {
        None
    };
    Ok(
        MaterialDescriptor {
            blend_mode: m.blend_mode,
            render_flags: m.flags,
            texture: tex,
            double_sided: m.flags & RENDER_FLAG_NO_BACKFACE_CULLING != 0,
            cull_backface: m.flags & RENDER_FLAG_NO_BACKFACE_CULLING == 0,
            alpha_mask: m.blend_mode == BLEND_MODE_ALPHA_KEY,
        },
    )
}

/// A material key: the pair of material index and texture-combo index.
#[derive(Debug, Clone, Copy, PartialEq, Eq, Structural)]
pub struct MaterialKey {
    /// Index into the model's material table.
    pub material: u16,
    /// Index into the model's texture lookup combos.
    pub combo: u16,
}

/// One drawable sub-mesh: its index buffer into the model's shared vertex
/// arrays, and the material key the last addressing texture unit set.
#[derive(Debug, Clone, PartialEq, Eq)]
pub struct M2Mesh {
    /// Triangle indices into the model's vertex array, three per face.
    pub indices: Vec<u32>,
    /// The material key, pairing material index with texture-combo index.
    pub material: MaterialKey,
}

/// One built material, stored under its key.
#[derive(Debug, Clone, Copy, PartialEq, Eq)]
pub struct MaterialBinding {
    /// The material index of the key.
    pub material_index: u16,
    /// The texture-combo index of the key.
    pub combo_index: u16,
    /// The derived descriptor.
    pub descriptor: MaterialDescriptor,
}

/// The key of the last texture unit addressing sub-mesh `m`, if any: when
/// a sub-mesh is named by several texture units, the last one wins.
pub open spec fn last_unit_key(units: Seq<TextureUnit>, m: int) -> Option<MaterialKey>
    decreases units.len(),
{
    if units.len() == 0 {
        None
    } else if units.last().skin_section_index == m {
        Some(
            MaterialKey {
                material: units.last().material_index,
                combo: units.last().texture_combo_index,
            },
        )
    } else {
        last_unit_key(units.drop_last(), m)
    }
}

/// The material key sub-mesh `m` carries: the last addressing unit's key,
/// or the zero key when no unit addresses it.
pub open spec fn mesh_material_spec(units: Seq<TextureUnit>, m: int) -> MaterialKey {
    match last_unit_key(units, m) {
        Some(k) => k,
        None => MaterialKey { material: 0, combo: 0 },
    }
}

/// Whether texture unit `u` is consistent: it addresses an existing
/// sub-mesh and an existing material record.
pub open spec fn unit_ok_at(units: Seq<TextureUnit>, u: int, nsub: int, nmat: int) -> bool {
    &&& (units[u].skin_section_index as int) < nsub
    &&& (units[u].material_index as int) < nmat
}

/// Whether a view's arrays assemble against a model's vertex and material
/// counts: every sub-mesh resolves and every texture unit is consistent.
pub open spec fn skin_assembles(
    units: Seq<TextureUnit>,
    submeshes: Seq<SubMesh>,
    triangles: Seq<u16>,
    indices: Seq<u16>,
    vcount: int,
    nmat: int,
) -> bool {
    &&& (forall|m: int|
        0 <= m < submeshes.len() ==> submesh_resolves(
            triangles,
            indices,
            #[trigger] submeshes[m],
            vcount,
        ))
    &&& (forall|u: int|
        0 <= u < units.len() ==> #[trigger] unit_ok_at(units, u, submeshes.len() as int, nmat))
}

/// Whether a parsed skin assembles against a parsed model.
pub open spec fn skin_assets_ok(model: Data, skin: Skin) -> bool {
    skin_assembles(
        skin.texture_units@,
        skin.submeshes@,
        skin.triangles@,
        skin.indices@,
        model.vertice_data.vertices@.len() as int,
        model.materials@.len() as int,
    )
}

/// Whether some stored binding carries the key `(mat, combo)`.
pub open spec fn binding_exists(bs: Seq<MaterialBinding>, mat: u16, combo: u16) -> bool {
    exists|j: int|
        0 <= j < bs.len() && (#[trigger] bs[j]).material_index == mat && bs[j].combo_index == combo
}

/// No two stored bindings carry the same key.
pub open spec fn bindings_distinct(bs: Seq<MaterialBinding>) -> bool {
    forall|j1: int, j2: int|
        0 <= j1 < j2 < bs.len() ==> !((#[trigger] bs[j1]).material_index
            == (#[trigger] bs[j2]).material_index && bs[j1].combo_index == bs[j2].combo_index)
}

/// Assembles one skin against a model: an index buffer and a material key
/// per sub-mesh, and one built material per distinct key used.
#[verifier::rlimit(100)]
#[verifier::spinoff_prover]
#[verifier::loop_isolation(false)]
pub fn build_skin_assets(
    model: &Data,
    skin: &Skin,
    textures: &Vec<Option<TextureImage>>,
) -> (r: Result<(Vec<M2Mesh>, Vec<MaterialBinding>), Error>)
    ensures
        (r is Ok <==> skin_assets_ok(*model, *skin)),
        (r matches Ok(p) ==> {
            &&& p.0@.len() == skin.submeshes@.len()
            &&& (forall|m: int|
                0 <= m < p.0@.len() ==> {
                    &&& (#[trigger] p.0@[m]).indices@.len() == skin.submeshes@[m].triangle_count
                    &&& (forall|k: int|
                        0 <= k < p.0@[m].indices@.len() ==> (#[trigger] p.0@[m].indices@[k])
                            == resolved_index(
                            skin.triangles@,
                            skin.indices@,
                            skin.submeshes@[m],
                            k,
                        ))
                    &&& (forall|k: int|
                        0 <= k < p.0@[m].indices@.len() ==> (#[trigger] p.0@[m].indices@[k])
                            < model.vertice_data.vertices@.len())
                    &&& p.0@[m].material == mesh_material_spec(skin.texture_units@, m)
                })
            &&& (forall|j: int|
                0 <= j < p.1@.len() ==> {
                    &&& ((#[trigger] p.1@[j]).material_index as int) < model.materials@.len()
                    &&& p.1@[j].descriptor == spec_descriptor(
                        *model,
                        textures@,
                        p.1@[j].material_index as int,
                        p.1@[j].combo_index as int,
                    )
                })
            &&& (forall|u: int|
                0 <= u < skin.texture_units@.len() ==> binding_exists(
                    p.1@,
                    (#[trigger] skin.texture_units@[u]).material_index,
                    skin.texture_units@[u].texture_combo_index,
                ))
            &&& bindings_distinct(p.1@)
        }),
{
    let vcount = model.vertice_data.vertices.len();
    let n_sub = skin.submeshes.len();
    // Index buffers, one per sub-mesh.
    let mut idx_bufs: Vec<Vec<u32>> = Vec::new();
    let mut m: usize = 0;
    while m < n_sub
        invariant
            m <= n_sub,
            idx_bufs@.len() == m,
            forall|x: int|
                0 <= x < m ==> submesh_resolves(
                    skin.triangles@,
                    skin.indices@,
                    #[trigger] skin.submeshes@[x],
                    vcount as int,
                ),
            forall|x: int|
                0 <= x < m ==> {
                    &&& (#[trigger] idx_bufs@[x])@.len() == skin.submeshes@[x].triangle_count
                    &&& (forall|k: int|
                        0 <= k < idx_bufs@[x]@.len() ==> (#[trigger] idx_bufs@[x]@[k])
                            == resolved_index(
                            skin.triangles@,
                            skin.indices@,
                            skin.submeshes@[x],
                            k,
                        ))
                    &&& (forall|k: int|
                        0 <= k < idx_bufs@[x]@.len() ==> (#[trigger] idx_bufs@[x]@[k]) < vcount)
                },
        decreases n_sub - m,
    {
        match submesh_indices(skin, m, vcount) {
            Ok(ix) => {
                idx_bufs.push(ix);
            },
            Err(e) => {
                proof {
                    assert(!submesh_resolves(
                        skin.triangles@,
                        skin.indices@,
                        skin.submeshes@[m as int],
                        vcount as int,
                    ));
                }
                return Err(e);
            },
        }
        m = m + 1;
    }
    // Material keys per sub-mesh, last unit winning, and one binding per
    // distinct key.
    let mut keys: Vec<MaterialKey> = Vec::new();
    let mut m: usize = 0;
    while m < n_sub
        invariant
            m <= n_sub,
            keys@.len() == m,
            forall|x: int| 0 <= x < m ==> (#[trigger] keys@[x]) == (MaterialKey { material: 0, combo: 0 }),
        decreases n_sub - m,
    {
        keys.push(MaterialKey { material: 0, combo: 0 });
        m = m + 1;
    }
    let mut bindings: Vec<MaterialBinding> = Vec::new();
    let n_units = skin.texture_units.len();
    let mut u: usize = 0;
    proof {
        assert forall|x: int| 0 <= x < n_sub implies (#[trigger] keys@[x]) == mesh_material_spec(
            skin.texture_units@.take(0),
            x,
        ) by {
            assert(skin.texture_units@.take(0).len() == 0);
        }
    }
    while u < n_units
        invariant
            u <= n_units,
            keys@.len() == n_sub,
            forall|x: int|
                0 <= x < n_sub ==> (#[trigger] keys@[x]) == mesh_material_spec(
                    skin.texture_units@.take(u as int),
                    x,
                ),
            forall|y: int|
                0 <= y < u ==> #[trigger] unit_ok_at(
                    skin.texture_units@,
                    y,
                    n_sub as int,
                    model.materials@.len() as int,
                ),
            forall|y: int|
                0 <= y < u ==> binding_exists(
                    bindings@,
                    (#[trigger] skin.texture_units@[y]).material_index,
                    skin.texture_units@[y].texture_combo_index,
                ),
            bindings_distinct(bindings@),
            forall|j: int|
                0 <= j < bindings@.len() ==> {
                    &&& ((#[trigger] bindings@[j]).material_index as int)
                        < model.materials@.len()
                    &&& bindings@[j].descriptor == spec_descriptor(
                        *model,
                        textures@,
                        bindings@[j].material_index as int,
                        bindings@[j].combo_index as int,
                    )
                },
        decreases n_units - u,
    {
        let unit = skin.texture_units[u];
        proof {
            assert(skin.texture_units@.take(u + 1).drop_last() =~= skin.texture_units@.take(
                u as int,
            ));
            assert(skin.texture_units@.take(u + 1).last() == skin.texture_units@[u as int]);
        }
        let sm = unit.skin_section_index as usize;
        if sm >= n_sub {
            proof {
                assert(!unit_ok_at(
                    skin.texture_units@,
                    u as int,
                    n_sub as int,
                    model.materials@.len() as int,
                ));
            }
            return Err(Error::CorruptData);
        }
        // Build the key's material once.
        let mut have = false;
        let mut j: usize = 0;
        while j < bindings.len()
            invariant
                j <= bindings@.len(),
                have == (exists|y: int|
                    0 <= y < j && (#[trigger] bindings@[y]).material_index == unit.material_index
                        && bindings@[y].combo_index == unit.texture_combo_index),
            decreases bindings@.len() - j,
        {
            let b = bindings[j];
            if b.material_index == unit.material_index && b.combo_index
                == unit.texture_combo_index {
                have = true;
                proof {
                    assert((bindings@[j as int]).material_index == unit.material_index
                        && bindings@[j as int].combo_index == unit.texture_combo_index);
                }
            }
            j = j + 1;
        }
        if !have {
            let ghost old_bindings = bindings@;
            match build_material(model, textures, unit.material_index, unit.texture_combo_index) {
                Ok(dsc) => {
                    bindings.push(
                        MaterialBinding {
                            material_index: unit.material_index,
                            combo_index: unit.texture_combo_index,
                            descriptor: dsc,
                        },
                    );
                    proof {
                        // Earlier units keep their bindings under the push,
                        // and the fresh key collides with no stored one.
                        assert forall|y: int| 0 <= y < u + 1 implies binding_exists(
                            bindings@,
                            (#[trigger] skin.texture_units@[y]).material_index,
                            skin.texture_units@[y].texture_combo_index,
                        ) by {
                            if y < u {
                                let w = choose|w: int|
                                    0 <= w < old_bindings.len() && (#[trigger] old_bindings[w]).material_index
                                        == skin.texture_units@[y].material_index
                                        && old_bindings[w].combo_index
                                        == skin.texture_units@[y].texture_combo_index;
                                assert(bindings@[w].material_index
                                    == skin.texture_units@[y].material_index && bindings@[w].combo_index
                                    == skin.texture_units@[y].texture_combo_index);
                            } else {
                                assert(bindings@[bindings@.len() - 1].material_index
                                    == unit.material_index);
                            }
                        }
                    }
                },
                Err(e) => {
                    proof {
                        assert(!unit_ok_at(
                            skin.texture_units@,
                            u as int,
                            n_sub as int,
                            model.materials@.len() as int,
                        ));
                    }
                    return Err(e);
                },
            }
        } else {
            proof {
                let y = choose|y: int|
                    0 <= y < bindings@.len() && (#[trigger] bindings@[y]).material_index
                        == unit.material_index && bindings@[y].combo_index
                        == unit.texture_combo_index;
                assert((bindings@[y].material_index as int) < model.materials@.len());
                assert(unit_ok_at(
                    skin.texture_units@,
                    u as int,
                    n_sub as int,
                    model.materials@.len() as int,
                ));
                assert(binding_exists(
                    bindings@,
                    unit.material_index,
                    unit.texture_combo_index,
                ));
            }
        }
        keys.set(sm, MaterialKey { material: unit.material_index, combo: unit.texture_combo_index });
        proof {
            assert forall|x: int| 0 <= x < n_sub implies (#[trigger] keys@[x])
                == mesh_material_spec(skin.texture_units@.take(u + 1), x) by {
                if x == sm as int {
                    assert(last_unit_key(skin.texture_units@.take(u + 1), x) == Some(
                        MaterialKey { material: unit.material_index, combo: unit.texture_combo_index },
                    ));
                } else {
                    assert(last_unit_key(skin.texture_units@.take(u + 1), x) == last_unit_key(
                        skin.texture_units@.take(u as int),
                        x,
                    ));
                }
            }
        }
        u = u + 1;
    }
    proof {
        assert(skin.texture_units@.take(n_units as int) =~= skin.texture_units@);
    }
    // Zip the index buffers with their final material keys.
    let mut meshes: Vec<M2Mesh> = Vec::new();
    let ghost bufs0 = idx_bufs@;
    let mut m: usize = 0;
    while m < n_sub
        invariant
            m <= n_sub,
            n_sub == bufs0.len(),
            keys@.len() == n_sub,
            idx_bufs@ =~= bufs0.skip(m as int),
            meshes@.len() == m,
            forall|x: int|
                0 <= x < m ==> (#[trigger] meshes@[x]).indices == bufs0[x] && meshes@[x].material
                    == keys@[x],
        decreases n_sub - m,
    {
        let ix = idx_bufs.remove(0);
        proof {
            assert(ix == bufs0[m as int]);
            assert(idx_bufs@ =~= bufs0.skip(m + 1));
        }
        meshes.push(M2Mesh { indices: ix, material: keys[m] });
        m = m + 1;
    }
    Ok((meshes, bindings))
}

} // verus!
