//! The asset facade: a read-by-name interface over an archive collection
//! that caches decoded models and textures under normalized names and
//! hands out handles to them.

use vstd::prelude::*;
use vstd::slice::slice_to_vec;

use crate::blp::{blp_matches, blp_ok, blp_to_image, TextureImage};
use crate::bytes::le32;
use crate::collection::{
    binds_name, bytes_eq, contains_name, format_file_name, lemma_normalize_idempotent, loaded_from,
    normalize, MpqCollection,
};
use crate::errors::Error;
use crate::m2::{m2_load_ok, m2_payload_ofs, skin_name};
use crate::md20::{md20_matches, pair_at, Data};
use crate::model::{
    binding_exists, bindings_distinct, build_skin_assets, mesh_material_spec, skin_assembles,
    skin_assets_ok, spec_descriptor, M2Mesh, MaterialBinding,
};
use crate::skin::{
    lemma_skin_matches_arrays, parse_skin, resolved_index, skin_matches, skin_ok,
    spec_skin_indices, spec_skin_submeshes, spec_skin_triangles, spec_skin_units, Skin,
};

verus! {

/// A decoded view file, wrapped for the asset cache.
#[derive(Debug, Clone, PartialEq, Eq)]
pub struct SkinAsset {
    /// The decoded view.
    pub skin: Skin,
}

/// A fully decoded model: shared vertex data, per-view sub-mesh geometry,
/// decoded textures, and per-view material bindings.
#[derive(Debug, Clone, PartialEq, Eq)]
pub struct M2Asset {
    /// The decoded payload.
    pub model: Data,
    /// The companion views, one per view count.
    pub skins: Vec<SkinAsset>,
    /// Per view, one drawable sub-mesh per skin sub-mesh.
    pub meshes: Vec<Vec<M2Mesh>>,
    /// Per model texture, the decoded image; `None` where the name is
    /// empty or the texture could not be fetched or decoded.
    pub textures: Vec<Option<TextureImage>>,
    /// Per view, the materials built for the keys its texture units use.
    pub materials: Vec<Vec<MaterialBinding>>,
    /// The names of referenced textures that could not be fetched or
    /// decoded; the model still loads without them.
    pub diagnostics: Vec<Vec<u8>>,
}

impl M2Asset {
    /// Internal consistency: one mesh list and material list per view;
    /// every sub-mesh carries exactly its resolved index buffer, in range,
    /// and the key of the last texture unit that addressed it; every key a
    /// texture unit uses has exactly one stored material binding, derived
    /// from the model's own tables.
    pub open spec fn wf(&self) -> bool {
        &&& self.skins@.len() == self.model.view_count
        &&& self.meshes@.len() == self.skins@.len()
        &&& self.materials@.len() == self.skins@.len()
        &&& self.textures@.len() == self.model.textures@.len()
        &&& (forall|s: int|
            0 <= s < self.skins@.len() ==> (#[trigger] self.meshes@[s])@.len()
                == self.skins@[s].skin.submeshes@.len())
        &&& (forall|s: int, m: int|
            0 <= s < self.meshes@.len() && 0 <= m < self.meshes@[s]@.len() ==> (#[trigger] self
                .meshes@[s]@[m]).indices@.len()
                == self.skins@[s].skin.submeshes@[m].triangle_count)
        &&& (forall|s: int, m: int, k: int|
            0 <= s < self.meshes@.len() && 0 <= m < self.meshes@[s]@.len() && 0 <= k
                < self.meshes@[s]@[m].indices@.len() ==> (#[trigger] self.meshes@[s]@[m].indices@[k])
                == resolved_index(
                self.skins@[s].skin.triangles@,
                self.skins@[s].skin.indices@,
                self.skins@[s].skin.submeshes@[m],
                k,
            ))
        &&& (forall|s: int, m: int, k: int|
            0 <= s < self.meshes@.len() && 0 <= m < self.meshes@[s]@.len() && 0 <= k
                < self.meshes@[s]@[m].indices@.len() ==> (#[trigger] self.meshes@[s]@[m].indices@[k])
                < self.model.vertice_data.vertices@.len())
        &&& (forall|s: int, m: int|
            0 <= s < self.meshes@.len() && 0 <= m < self.meshes@[s]@.len() ==> (#[trigger] self
                .meshes@[s]@[m]).material == mesh_material_spec(
                self.skins@[s].skin.texture_units@,
                m,
            ))
        &&& (forall|s: int, j: int|
            0 <= s < self.materials@.len() && 0 <= j < self.materials@[s]@.len() ==> ((#[trigger] self
                .materials@[s]@[j]).material_index as int) < self.model.materials@.len()
                && self.materials@[s]@[j].descriptor == spec_descriptor(
                self.model,
                self.textures@,
                self.materials@[s]@[j].material_index as int,
                self.materials@[s]@[j].combo_index as int,
            ))
        &&& (forall|s: int, u: int|
            0 <= s < self.skins@.len() && 0 <= u < self.skins@[s].skin.texture_units@.len()
                ==> binding_exists(
                self.materials@[s]@,
                (#[trigger] self.skins@[s].skin.texture_units@[u]).material_index,
                self.skins@[s].skin.texture_units@[u].texture_combo_index,
            ))
        &&& (forall|s: int|
            0 <= s < self.materials@.len() ==> bindings_distinct((#[trigger] self.materials@[s])@))
    }
}

/// What one texture slot holds: nothing for an empty name; the decoded
/// image where the name reads a well-formed texture; nothing, again, where
/// the name cannot be read or its bytes do not decode.
pub open spec fn texture_slot_matches(
    c: MpqCollection,
    fname: Seq<u8>,
    slot: Option<TextureImage>,
) -> bool {
    if fname.len() == 0 {
        slot is None
    } else {
        match c.spec_read(fname) {
            Some(tb) => if blp_ok(tb) {
                slot matches Some(img) && blp_matches(tb, img)
            } else {
                slot is None
            },
            None => slot is None,
        }
    }
}

/// Whether view `i` of the asset is the parse of what the derived skin
/// name reads.
pub open spec fn view_decoded(c: MpqCollection, name: Seq<u8>, i: int, sk: Skin) -> bool {
    match c.spec_read(skin_name(name, i)) {
        Some(sb) => skin_matches(sb, sk),
        None => false,
    }
}

/// Whether the cached asset is the decode of what `name` reads: its model
/// is the payload's decode, each view is the parse of its derived skin
/// name, and each texture slot follows its name.
pub open spec fn asset_matches(c: MpqCollection, name: Seq<u8>, a: M2Asset) -> bool {
    &&& (match c.spec_read(name) {
        Some(bytes) => m2_load_ok(bytes) && md20_matches(
            bytes,
            m2_payload_ofs(bytes)->Some_0,
            a.model,
        ),
        None => false,
    })
    &&& (forall|i: int|
        0 <= i < a.skins@.len() ==> #[trigger] view_decoded(c, name, i, a.skins@[i].skin))
    &&& (forall|t: int|
        0 <= t < a.textures@.len() ==> texture_slot_matches(
            c,
            (#[trigger] a.model.textures@[t]).filename@,
            a.textures@[t],
        ))
}

/// Whether the skin bytes assemble against the model bytes: every
/// sub-mesh resolves through the stored arrays and every texture unit is
/// consistent with the stored counts.
pub open spec fn view_assembles(mbytes: Seq<u8>, ofs: int, sb: Seq<u8>) -> bool {
    skin_assembles(
        spec_skin_units(sb),
        spec_skin_submeshes(sb),
        spec_skin_triangles(sb),
        spec_skin_indices(sb),
        pair_at(mbytes, ofs + 60).size as int,
        pair_at(mbytes, ofs + 112).size as int,
    )
}

/// Whether view `i` is loadable: its derived name reads a well-formed
/// skin that assembles against the model bytes.
pub open spec fn view_ok(c: MpqCollection, name: Seq<u8>, bytes: Seq<u8>, ofs: int, i: int) -> bool {
    match c.spec_read(skin_name(name, i)) {
        Some(sb) => skin_ok(sb) && view_assembles(bytes, ofs, sb),
        None => false,
    }
}

/// When a model load is owed: the name is long enough to carry an
/// extension, it reads a decodable payload, and every one of its views
/// reads a skin that parses and assembles. Texture failures never block a
/// load.
pub open spec fn model_load_ok(c: MpqCollection, name: Seq<u8>) -> bool {
    &&& name.len() >= 3
    &&& (match c.spec_read(name) {
        Some(bytes) => m2_load_ok(bytes) && (forall|i: int|
            0 <= i < le32(bytes, m2_payload_ofs(bytes)->Some_0 + 68) ==> #[trigger] view_ok(
                c,
                name,
                bytes,
                m2_payload_ofs(bytes)->Some_0,
                i,
            )),
        None => false,
    })
}

/// A parsed skin assembles against a parsed model exactly when the stored
/// arrays they decode from do.
proof fn lemma_view_assembles_bridge(mbytes: Seq<u8>, ofs: int, sb: Seq<u8>, d: Data, k: Skin)
    requires
        md20_matches(mbytes, ofs, d),
        skin_matches(sb, k),
    ensures
        view_assembles(mbytes, ofs, sb) == skin_assets_ok(d, k),
{
    lemma_skin_matches_arrays(sb, k);
    assert(d.vertice_data.vertices@.len() == pair_at(mbytes, ofs + 60).size);
    assert(d.materials@.len() == pair_at(mbytes, ofs + 112).size);
}

/// The facade: the archive collection plus caches of decoded artifacts,
/// keyed by normalized name. Handles index into the caches; repeated
/// requests for one name return the same handle without re-decoding.
pub struct AssetManager {
    collection: MpqCollection,
    model_cache: Vec<(Vec<u8>, M2Asset)>,
    texture_cache: Vec<(Vec<u8>, TextureImage)>,
}

impl AssetManager {
    /// The underlying collection.
    pub closed spec fn spec_collection(&self) -> MpqCollection {
        self.collection
    }

    /// The model cache, in insertion order.
    pub closed spec fn spec_model_cache(&self) -> Seq<(Vec<u8>, M2Asset)> {
        self.model_cache@
    }

    /// The texture cache, in insertion order.
    pub closed spec fn spec_texture_cache(&self) -> Seq<(Vec<u8>, TextureImage)> {
        self.texture_cache@
    }

    /// Whether the model cache holds an entry under the normalized name.
    pub open spec fn spec_cached_model(&self, key: Seq<u8>) -> bool {
        exists|i: int|
            0 <= i < self.spec_model_cache().len() && (#[trigger] self.spec_model_cache()[i]).0@
                == key
    }

    /// Whether the texture cache holds an entry under the normalized name.
    pub open spec fn spec_cached_texture(&self, key: Seq<u8>) -> bool {
        exists|i: int|
            0 <= i < self.spec_texture_cache().len() && (#[trigger] self.spec_texture_cache()[i]).0@
                == key
    }

    /// The collection is well-formed, every cached model is well-formed
    /// and is the decode of what its key reads, and every cached texture
    /// is the decode of what its key reads.
    pub closed spec fn wf(&self) -> bool {
        &&& self.collection.wf()
        &&& (forall|i: int|
            0 <= i < self.model_cache@.len() ==> (#[trigger] self.model_cache@[i]).1.wf()
                && asset_matches(
                self.collection,
                self.model_cache@[i].0@,
                self.model_cache@[i].1,
            ))
        &&& (forall|i: int|
            0 <= i < self.texture_cache@.len() ==> (match self.collection.spec_read(
                (#[trigger] self.texture_cache@[i]).0@,
            ) {
                Some(b) => blp_ok(b) && blp_matches(b, self.texture_cache@[i].1),
                None => false,
            }))
    }

    /// Opens a collection over the given archive contents, in order, with
    /// empty caches.
    pub fn open(archive_data: Vec<Vec<u8>>) -> (r: Result<AssetManager, Error>)
        ensures
            (r is Ok <==> (forall|i: int|
                0 <= i < archive_data@.len() ==> crate::mpq::open_ok(
                    #[trigger] archive_data@[i]@,
                ))),
            (r matches Ok(a) ==> a.wf() && loaded_from(a.spec_collection(), archive_data@)),
    {
        match MpqCollection::load(archive_data) {
            Ok(collection) => Ok(
                AssetManager { collection, model_cache: Vec::new(), texture_cache: Vec::new() },
            ),
            Err(e) => Err(e),
        }
    }

    /// The normalized names the collection knows.
    pub fn list_assets(&self) -> (r: Vec<Vec<u8>>)
        ensures
            (forall|i: int|
                0 <= i < r@.len() ==> binds_name(
                    self.spec_collection().spec_bindings(),
                    (#[trigger] r@[i])@,
                )),
            (forall|j: int|
                0 <= j < self.spec_collection().spec_bindings().len() ==> contains_name(
                    r@,
                    (#[trigger] self.spec_collection().spec_bindings()[j]).norm@,
                )),
    {
        self.collection.list()
    }

    /// Reads the raw payload of a name.
    pub fn read_bytes(&self, name: &[u8]) -> (r: Result<Vec<u8>, Error>)
        requires
            self.wf(),
        ensures
            (r matches Ok(v) ==> self.spec_collection().spec_read(name@) == Some(v@)),
            (r is Ok <==> self.spec_collection().spec_read(name@) is Some),
    {
        self.collection.read_file(name)
    }

    /// Loads a texture by name, caching the decoded image: the handle
    /// names an image that is exactly the decoding of what the name
    /// reads, and success is owed exactly when the name reads a
    /// well-formed texture (or one is already cached under it).
    pub fn load_texture(&mut self, name: &[u8]) -> (r: Result<usize, Error>)
        requires
            old(self).wf(),
        ensures
            final(self).wf(),
            final(self).spec_collection() == old(self).spec_collection(),
            (r matches Ok(h) ==> h < final(self).spec_texture_cache().len() && (
            match final(self).spec_collection().spec_read(name@) {
                Some(b) => blp_ok(b) && blp_matches(
                    b,
                    final(self).spec_texture_cache()[h as int].1,
                ),
                None => false,
            })),
            (r is Ok <==> old(self).spec_cached_texture(normalize(name@)) || (
            match old(self).spec_collection().spec_read(name@) {
                Some(b) => blp_ok(b),
                None => false,
            })),
    {
        let key = format_file_name(name);
        proof {
            lemma_normalize_idempotent(name@);
        }
        let n = self.texture_cache.len();
        let mut i: usize = 0;
        while i < n
            invariant
                old(self) == self,
                old(self).wf(),
                n == self.texture_cache@.len(),
                i <= n,
                key@ == normalize(name@),
                forall|j: int|
                    0 <= j < i ==> (#[trigger] self.texture_cache@[j]).0@ != normalize(name@),
            decreases n - i,
        {
            if bytes_eq(self.texture_cache[i].0.as_slice(), key.as_slice()) {
                proof {
                    lemma_normalize_idempotent(name@);
                    assert(self.texture_cache@[i as int].0@ == normalize(name@));
                    assert(self.collection.spec_read(normalize(name@)) == self.collection
                        .spec_read(name@));
                    assert(self.spec_cached_texture(normalize(name@)));
                }
                return Ok(i);
            }
            i = i + 1;
        }
        let bytes = match self.collection.read_file(name) {
            Ok(b) => b,
            Err(e) => { return Err(e) },
        };
        let img = match blp_to_image(bytes.as_slice()) {
            Ok(v) => v,
            Err(e) => { return Err(e) },
        };
        let ghost old_cache = self.texture_cache@;
        self.texture_cache.push((key, img));
        proof {
            lemma_normalize_idempotent(name@);
            assert(self.collection.spec_read(normalize(name@)) == self.collection.spec_read(
                name@,
            ));
            assert forall|x: int|
                0 <= x < self.texture_cache@.len() implies (match self.collection.spec_read(
                (#[trigger] self.texture_cache@[x]).0@,
            ) {
                Some(b) => blp_ok(b) && blp_matches(b, self.texture_cache@[x].1),
                None => false,
            }) by {
                if x < old_cache.len() {
                    assert(self.texture_cache@[x] == old_cache[x]);
                }
            }
        }
        Ok(self.texture_cache.len() - 1)
    }

    /// The cached texture a handle names.
    pub fn get_texture(&self, h: usize) -> (r: Option<&TextureImage>)
        ensures
            (r is Some <==> h < self.spec_texture_cache().len()),
            (r matches Some(img) ==> *img == self.spec_texture_cache()[h as int].1),
    {
        if h < self.texture_cache.len() {
            Some(&self.texture_cache[h].1)
        } else {
            None
        }
    }

    /// The cached model a handle names; it is well-formed and is the
    /// decode of what its cache key reads.
    pub fn get_model(&self, h: usize) -> (r: Option<&M2Asset>)
        requires
            self.wf(),
        ensures
            (r is Some <==> h < self.spec_model_cache().len()),
            (r matches Some(a) ==> *a == self.spec_model_cache()[h as int].1 && a.wf()
                && asset_matches(
                self.spec_collection(),
                self.spec_model_cache()[h as int].0@,
                self.spec_model_cache()[h as int].1,
            )),
    {
        if h < self.model_cache.len() {
            Some(&self.model_cache[h].1)
        } else {
            None
        }
    }

    /// Loads a model by name: decodes the payload, fetches and decodes
    /// every companion view (a missing view is fatal), fetches and
    /// decodes every referenced texture (a missing or undecodable texture
    /// degrades to an unbound material and a diagnostic), assembles the
    /// sub-mesh geometry and materials, and caches the result under the
    /// normalized name. The handle names a well-formed asset that is the
    /// decode of what the name reads; success is owed exactly when the
    /// model and all its views decode, or one is already cached.
    #[verifier::rlimit(100)]
    #[verifier::spinoff_prover]
    pub fn load_model(&mut self, name: &[u8]) -> (r: Result<usize, Error>)
        requires
            old(self).wf(),
        ensures
            final(self).wf(),
            final(self).spec_collection() == old(self).spec_collection(),
            (r matches Ok(h) ==> h < final(self).spec_model_cache().len()
                && final(self).spec_model_cache()[h as int].1.wf() && asset_matches(
                final(self).spec_collection(),
                normalize(name@),
                final(self).spec_model_cache()[h as int].1,
            )),
            (r is Ok <==> old(self).spec_cached_model(normalize(name@)) || model_load_ok(
                old(self).spec_collection(),
                normalize(name@),
            )),
    {
        let key = format_file_name(name);
        proof {
            lemma_normalize_idempotent(name@);
        }
        let n = self.model_cache.len();
        let mut i: usize = 0;
        while i < n
            invariant
                old(self) == self,
                old(self).wf(),
                n == self.model_cache@.len(),
                i <= n,
                key@ == normalize(name@),
                forall|j: int|
                    0 <= j < i ==> (#[trigger] self.model_cache@[j]).0@ != normalize(name@),
            decreases n - i,
        {
            if bytes_eq(self.model_cache[i].0.as_slice(), key.as_slice()) {
                proof {
                    assert(self.model_cache@[i as int].0@ == normalize(name@));
                    assert(self.spec_cached_model(normalize(name@)));
                }
                return Ok(i);
            }
            i = i + 1;
        }
        if name.len() < 3 {
            // A model path always carries an extension to strip for its
            // companion names; anything shorter cannot name views.
            return Err(Error::CorruptData);
        }
        let bytes = match self.collection.read_file(key.as_slice()) {
            Ok(b) => b,
            Err(e) => { return Err(e) },
        };
        let ghost bytes0 = bytes@;
        let m2old = match crate::m2::load(bytes.as_slice(), slice_to_vec(key.as_slice())) {
            Ok(m) => m,
            Err(e) => { return Err(e) },
        };
        let ghost ofs0 = m2_payload_ofs(bytes0)->Some_0;
        proof {
            assert(md20_matches(bytes0, ofs0, m2old.data));
        }
        // Referenced textures: an empty name binds nothing; a fetch or
        // decode failure degrades to an unbound slot plus a diagnostic.
        let n_tex = m2old.data.textures.len();
        let mut textures: Vec<Option<TextureImage>> = Vec::new();
        let mut diagnostics: Vec<Vec<u8>> = Vec::new();
        let mut ti: usize = 0;
        while ti < n_tex
            invariant
                n_tex == m2old.data.textures@.len(),
                ti <= n_tex,
                textures@.len() == ti,
                self.wf(),
                old(self) == self,
                key@ == normalize(name@),
                forall|j: int|
                    0 <= j < self.model_cache@.len() ==> (#[trigger] self.model_cache@[j]).0@
                        != normalize(name@),
                self.collection.spec_read(key@) == Some(bytes0),
                m2_load_ok(bytes0),
                ofs0 == m2_payload_ofs(bytes0)->Some_0,
                md20_matches(bytes0, ofs0, m2old.data),
                forall|t: int|
                    0 <= t < ti ==> texture_slot_matches(
                        self.collection,
                        (#[trigger] m2old.data.textures@[t]).filename@,
                        textures@[t],
                    ),
            decreases n_tex - ti,
        {
            let fname: &Vec<u8> = &m2old.data.textures[ti].filename;
            if fname.len() == 0 {
                textures.push(None);
            } else {
                match self.collection.read_file(fname.as_slice()) {
                    Ok(tb) => {
                        match blp_to_image(tb.as_slice()) {
                            Ok(img) => {
                                textures.push(Some(img));
                            },
                            Err(_) => {
                                textures.push(None);
                                diagnostics.push(slice_to_vec(fname.as_slice()));
                            },
                        }
                    },
                    Err(_) => {
                        textures.push(None);
                        diagnostics.push(slice_to_vec(fname.as_slice()));
                    },
                }
            }
            ti = ti + 1;
        }
        // Companion views: all of them are required, in order.
        let skin_names = m2old.skin_files();
        let n_skins = skin_names.len();
        proof {
            assert(n_skins == le32(bytes0, ofs0 + 68));
        }
        let mut skins: Vec<SkinAsset> = Vec::new();
        let mut meshes: Vec<Vec<M2Mesh>> = Vec::new();
        let mut materials: Vec<Vec<MaterialBinding>> = Vec::new();
        let mut si: usize = 0;
        while si < n_skins
            invariant
                n_skins == m2old.data.view_count,
                si <= n_skins,
                skins@.len() == si,
                meshes@.len() == si,
                materials@.len() == si,
                self.wf(),
                old(self) == self,
                key@ == normalize(name@),
                forall|j: int|
                    0 <= j < self.model_cache@.len() ==> (#[trigger] self.model_cache@[j]).0@
                        != normalize(name@),
                self.collection.spec_read(key@) == Some(bytes0),
                m2_load_ok(bytes0),
                ofs0 == m2_payload_ofs(bytes0)->Some_0,
                md20_matches(bytes0, ofs0, m2old.data),
                n_skins == skin_names@.len(),
                n_skins == le32(bytes0, ofs0 + 68),
                forall|s: int|
                    0 <= s < n_skins ==> (#[trigger] skin_names@[s])@ == skin_name(key@, s),
                textures@.len() == m2old.data.textures@.len(),
                forall|t: int|
                    0 <= t < textures@.len() ==> texture_slot_matches(
                        self.collection,
                        (#[trigger] m2old.data.textures@[t]).filename@,
                        textures@[t],
                    ),
                forall|s: int|
                    0 <= s < si ==> #[trigger] view_decoded(
                        self.collection,
                        key@,
                        s,
                        skins@[s].skin,
                    ),
                forall|s: int|
                    0 <= s < si ==> #[trigger] view_ok(self.collection, key@, bytes0, ofs0, s),
                forall|s: int|
                    0 <= s < si ==> (#[trigger] meshes@[s])@.len()
                        == skins@[s].skin.submeshes@.len(),
                forall|s: int, m: int|
                    0 <= s < si && 0 <= m < meshes@[s]@.len() ==> (#[trigger] meshes@[s]@[m]).indices@.len()
                        == skins@[s].skin.submeshes@[m].triangle_count,
                forall|s: int, m: int, k: int|
                    0 <= s < si && 0 <= m < meshes@[s]@.len() && 0 <= k
                        < meshes@[s]@[m].indices@.len() ==> (#[trigger] meshes@[s]@[m].indices@[k])
                        == resolved_index(
                        skins@[s].skin.triangles@,
                        skins@[s].skin.indices@,
                        skins@[s].skin.submeshes@[m],
                        k,
                    ),
                forall|s: int, m: int, k: int|
                    0 <= s < si && 0 <= m < meshes@[s]@.len() && 0 <= k
                        < meshes@[s]@[m].indices@.len() ==> (#[trigger] meshes@[s]@[m].indices@[k])
                        < m2old.data.vertice_data.vertices@.len(),
                forall|s: int, m: int|
                    0 <= s < si && 0 <= m < meshes@[s]@.len() ==> (#[trigger] meshes@[s]@[m]).material
                        == mesh_material_spec(skins@[s].skin.texture_units@, m),
                forall|s: int, j: int|
                    0 <= s < si && 0 <= j < materials@[s]@.len()
                        ==> ((#[trigger] materials@[s]@[j]).material_index as int)
                        < m2old.data.materials@.len() && materials@[s]@[j].descriptor
                        == spec_descriptor(
                        m2old.data,
                        textures@,
                        materials@[s]@[j].material_index as int,
                        materials@[s]@[j].combo_index as int,
                    ),
                forall|s: int, u: int|
                    0 <= s < si && 0 <= u < skins@[s].skin.texture_units@.len() ==> binding_exists(
                        materials@[s]@,
                        (#[trigger] skins@[s].skin.texture_units@[u]).material_index,
                        skins@[s].skin.texture_units@[u].texture_combo_index,
                    ),
                forall|s: int|
                    0 <= s < si ==> bindings_distinct((#[trigger] materials@[s])@),
            decreases n_skins - si,
        {
            let sb = match self.collection.read_file(skin_names[si].as_slice()) {
                Ok(b) => b,
                Err(e) => {
                    proof {
                        assert(!view_ok(self.collection, key@, bytes0, ofs0, si as int));
                    }
                    return Err(e);
                },
            };
            let sk = match parse_skin(sb.as_slice()) {
                Ok(k) => k,
                Err(e) => {
                    proof {
                        assert(!skin_ok(sb@));
                        assert(!view_ok(self.collection, key@, bytes0, ofs0, si as int));
                    }
                    return Err(e)
                },
            };
            let built = match build_skin_assets(&m2old.data, &sk, &textures) {
                Ok(p) => p,
                Err(e) => {
                    proof {
                        lemma_view_assembles_bridge(bytes0, ofs0, sb@, m2old.data, sk);
                        assert(!view_ok(self.collection, key@, bytes0, ofs0, si as int));
                    }
                    return Err(e)
                },
            };
            proof {
                lemma_view_assembles_bridge(bytes0, ofs0, sb@, m2old.data, sk);
                assert(view_ok(self.collection, key@, bytes0, ofs0, si as int));
                assert(view_decoded(self.collection, key@, si as int, sk));
            }
            skins.push(SkinAsset { skin: sk });
            meshes.push(built.0);
            materials.push(built.1);
            si = si + 1;
        }
        let asset = M2Asset {
            model: m2old.data,
            skins,
            meshes,
            textures,
            materials,
            diagnostics,
        };
        proof {
            assert(asset.wf());
            assert(asset_matches(self.collection, key@, asset));
            assert(model_load_ok(self.collection, normalize(name@)));
        }
        let ghost old_cache = self.model_cache@;
        self.model_cache.push((key, asset));
        proof {
            assert forall|x: int|
                0 <= x < self.model_cache@.len() implies (#[trigger] self.model_cache@[x]).1.wf()
                && asset_matches(
                self.collection,
                self.model_cache@[x].0@,
                self.model_cache@[x].1,
            ) by {
                if x < old_cache.len() {
                    assert(self.model_cache@[x] == old_cache[x]);
                }
            }
        }
        Ok(self.model_cache.len() - 1)
    }
}

} // verus!
