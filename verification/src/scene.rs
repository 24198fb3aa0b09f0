use vstd::prelude::*;
use crate::bytes::{le_bytes_of_u32s, push_u32_le};
use crate::document::{Document, document_meshes_in_range};
use crate::error::SceneError;
use crate::geometry::{BlasDescriptor, blas_models, create_blases};
use crate::instance::{
    BlasInstance, abs_at, capped, chain_product, count_primitive_refs, create_blas_instances,
    forest_count, forest_instances, forest_meshes_ok, instances_count_sum, instances_model,
    instance_models, lemma_absolute_transform_chain, lemma_forest_instances_split,
    lemma_instance_carries_absolute_transform, lemma_instances_sum_models, locals_on_path,
    node_at, node_instances, path_ok,
};
use crate::material::{
    MaterialInfo, gather_material_infos, is_default_material, material_resolved, materials_fit,
    materials_refs_ok,
};
use crate::mesh_pack::{
    MeshData, mesh_data_models, name_eq, prims_error, prims_of, process_meshes,
};
use crate::pixel::{
    DeviceImage, create_device_images, device_image_models, images_error,
};
use crate::sampler::{SamplerInfo, create_samlers, default_sampler_name, is_default_sampler, sampler_resolved};
use crate::transform::Transform;

verus! {

/// The per-instance transform records, one per emitted instance in
/// emission order, packed into one byte buffer: sixteen little-endian
/// 32-bit entries per instance, so a shader can look up an instance's
/// world transform without walking the tree.
pub open spec fn transforms_bytes(instances: Seq<BlasInstance>) -> Seq<u8>
    decreases instances.len(),
{
    if instances.len() == 0 {
        Seq::empty()
    } else {
        transforms_bytes(instances.drop_last()) + le_bytes_of_u32s(
            instances.last().transform.m@,
        )
    }
}

/// The transform buffer grows by one instance's record when one instance
/// is appended.
proof fn lemma_transforms_bytes_push(instances: Seq<BlasInstance>, b: BlasInstance)
    ensures
        transforms_bytes(instances.push(b)) == transforms_bytes(instances) + le_bytes_of_u32s(
            b.transform.m@,
        ),
{
    assert(instances.push(b).drop_last() =~= instances);
}

/// Appends one transform's sixteen entries to the buffer in
/// little-endian order.
fn append_transform(buf: &mut Vec<u8>, t: &Transform)
    ensures
        final(buf)@ == old(buf)@ + le_bytes_of_u32s(t.m@),
{
    let mut k: usize = 0;
    while k < 16
        invariant
            k <= 16,
            buf@ == old(buf)@ + le_bytes_of_u32s(t.m@.take(k as int)),
        decreases 16 - k,
    {
        push_u32_le(buf, t.m[k]);
        proof {
            crate::bytes::lemma_le_bytes_push(t.m@.take(k as int), t.m@[k as int]);
            assert(t.m@.take(k as int).push(t.m@[k as int]) =~= t.m@.take(k as int + 1));
            assert(buf@ =~= old(buf)@ + le_bytes_of_u32s(t.m@.take(k as int + 1)));
        }
        k = k + 1;
    }
    proof {
        assert(t.m@.take(16) =~= t.m@);
    }
}

/// Packs every instance's transform record into one byte buffer, in
/// emission order.
fn pack_transforms(instances: &Vec<BlasInstance>) -> (r: Vec<u8>)
    ensures
        r@ == transforms_bytes(instances@),
{
    let mut buf: Vec<u8> = Vec::new();
    let mut k: usize = 0;
    while k < instances.len()
        invariant
            k <= instances@.len(),
            buf@ == transforms_bytes(instances@.take(k as int)),
        decreases instances@.len() - k,
    {
        append_transform(&mut buf, &instances[k].transform);
        proof {
            lemma_transforms_bytes_push(instances@.take(k as int), instances@[k as int]);
            assert(instances@.take(k as int).push(instances@[k as int]) =~= instances@.take(
                k as int + 1,
            ));
        }
        k = k + 1;
    }
    proof {
        assert(instances@.take(instances@.len() as int) =~= instances@);
    }
    buf
}

/// The per-instance transform records of the whole scene, gathered into
/// one device buffer.
pub struct InstanceData {
    pub transform_buffer: Vec<u8>,
}

/// The top-level acceleration structure's build input: every emitted
/// instance record, in traversal order.
pub struct TlasDescriptor {
    pub instances: Vec<BlasInstance>,
}

/// The fatal error a whole document triggers, if any, in the order the
/// compilation stages run: mesh packing first, then image conversion,
/// then the node hierarchy's mesh references and the instance counter,
/// then the materials' sampler references.
pub open spec fn scene_error(doc: Document) -> Option<SceneError> {
    if prims_error(prims_of(doc.meshes@)) is Some {
        prims_error(prims_of(doc.meshes@))
    } else if images_error(doc.images@) is Some {
        images_error(doc.images@)
    } else if doc.meshes@.len() > 0xFFFF_FFFF {
        Some(SceneError::InvalidMeshIndex)
    } else if !document_meshes_in_range(doc) {
        Some(SceneError::InvalidMeshIndex)
    } else if forest_count(doc.roots@, doc.meshes@) > 0xFFFF_FFFF {
        Some(SceneError::PrimitiveCountOverflow)
    } else if !materials_fit(doc.materials@) {
        Some(SceneError::InvalidTextureIndex)
    } else {
        None
    }
}

/// The compiled scene: the document it was compiled from, the packed
/// stream buffers with their layout records, the converted device
/// images, the resolved sampler and material tables, the per-mesh
/// bottom-level structure inputs, the instance records aggregated for
/// one top-level structure, and the packed per-instance transforms.
/// Immutable after construction; construction is all-or-nothing.
pub struct Scene {
    pub doc: Document,
    pub mesh_data: MeshData,
    pub images: Vec<DeviceImage>,
    pub samplers: Vec<SamplerInfo>,
    pub material_infos: Vec<MaterialInfo>,
    pub blases: Vec<BlasDescriptor>,
    pub tlas: TlasDescriptor,
    pub instance_data: InstanceData,
}

/// What a compiled scene holds for its source document: every table and
/// buffer is the one its stage's contract states, and every index
/// alignment — mesh records with document meshes, bottom-level
/// structures with mesh records, device images with document images —
/// holds.
pub open spec fn scene_models(s: Scene, doc: Document) -> bool {
    &&& scene_error(doc) is None
    &&& s.doc == doc
    &&& mesh_data_models(s.mesh_data, doc.meshes@)
    &&& s.images@.len() == doc.images@.len()
    &&& forall|k: int| 0 <= k < doc.images@.len() ==> device_image_models(
        #[trigger] s.images@[k],
        doc.images@[k],
    )
    &&& s.samplers@.len() == doc.samplers@.len() + 1
    &&& is_default_sampler(s.samplers@[0])
    &&& default_sampler_name(s.samplers@[0])
    &&& forall|k: int| 1 <= k < s.samplers@.len() ==> sampler_resolved(
        doc.samplers@[k - 1],
        #[trigger] s.samplers@[k],
    )
    &&& s.material_infos@.len() == doc.materials@.len() + 1
    &&& is_default_material(s.material_infos@[0])
    &&& forall|k: int| 1 <= k < s.material_infos@.len() ==> material_resolved(
        doc.materials@[k - 1],
        #[trigger] s.material_infos@[k],
    )
    &&& s.blases@.len() == s.mesh_data.mesh_infos@.len()
    &&& forall|j: int| 0 <= j < s.blases@.len() ==> blas_models(
        #[trigger] s.blases@[j],
        s.mesh_data.mesh_infos@[j],
    )
    &&& instances_model(s.tlas.instances@, forest_instances(doc.roots@, doc.meshes@, None, 0))
    &&& s.instance_data.transform_buffer@ == transforms_bytes(s.tlas.instances@)
}

/// What `from_document` returns: a scene modelling the document exactly
/// when no stage fails, and the first stage's fatal error otherwise.
pub open spec fn scene_outcome(r: Result<Scene, SceneError>, doc: Document) -> bool {
    match r {
        Ok(s) => scene_models(s, doc),
        Err(e) => scene_error(doc) == Some(e),
    }
}

impl Scene {
    /// Compiles a document into a scene in one atomic operation: packs
    /// the meshes, converts the images, builds the bottom-level
    /// structure inputs, resolves the samplers, walks the node
    /// hierarchy into instance records with packed transforms, and
    /// resolves the materials. A fatal condition at any stage aborts
    /// the whole load: there is no partially-usable scene.
    pub fn from_document(doc: Document) -> (r: Result<Scene, SceneError>)
        ensures
            scene_outcome(r, doc),
    {
        let mesh_data = match process_meshes(&doc.meshes) {
            Ok(md) => md,
            Err(e) => {
                return Err(e);
            },
        };
        let images = match create_device_images(&doc.images) {
            Ok(ds) => ds,
            Err(e) => {
                return Err(e);
            },
        };
        let blases = create_blases(&mesh_data.mesh_infos);
        let samplers = create_samlers(&doc.samplers);
        if doc.meshes.len() > 0xFFFF_FFFFusize {
            return Err(SceneError::InvalidMeshIndex);
        }
        if !forest_meshes_ok(&doc.roots, doc.meshes.len()) {
            return Err(SceneError::InvalidMeshIndex);
        }
        let total = count_primitive_refs(&doc.roots, &doc.meshes);
        if total > 0xFFFF_FFFFu64 {
            proof {
                assert(forest_count(doc.roots@, doc.meshes@) > 0xFFFF_FFFF);
            }
            return Err(SceneError::PrimitiveCountOverflow);
        }
        proof {
            assert(capped(forest_count(doc.roots@, doc.meshes@) as int) <= 0xFFFF_FFFF);
            assert(forest_count(doc.roots@, doc.meshes@) <= 0xFFFF_FFFF);
        }
        let instances = create_blas_instances(&doc.roots, &doc.meshes);
        let transform_buffer = pack_transforms(&instances);
        if !materials_refs_ok(&doc.materials) {
            return Err(SceneError::InvalidTextureIndex);
        }
        let material_infos = gather_material_infos(&doc.materials);
        Ok(
            Scene {
                doc,
                mesh_data,
                images,
                samplers,
                material_infos,
                blases,
                tlas: TlasDescriptor { instances },
                instance_data: InstanceData { transform_buffer },
            },
        )
    }

    /// The top-level acceleration structure's build input.
    pub fn tlas(&self) -> (r: &TlasDescriptor)
        ensures
            *r == self.tlas,
    {
        &self.tlas
    }

    /// The document this scene was compiled from, for metadata such as
    /// names.
    pub fn doc(&self) -> (r: &Document)
        ensures
            *r == self.doc,
    {
        &self.doc
    }

    /// The packed index buffer: every primitive's indices as 32-bit
    /// little-endian values, at the offsets its layout record states.
    pub fn index_buffer(&self) -> (r: &Vec<u8>)
        ensures
            r@ == self.mesh_data.index_data@,
    {
        &self.mesh_data.index_data
    }

    /// The packed position buffer: three 32-bit entries per vertex.
    pub fn vertex_buffer(&self) -> (r: &Vec<u8>)
        ensures
            r@ == self.mesh_data.vertex_data@,
    {
        &self.mesh_data.vertex_data
    }

    /// The packed color buffer, present only when some primitive
    /// supplied colors — zero is a valid offset, so an empty buffer is
    /// not exposed.
    pub fn color_buffer(&self) -> (r: Option<&Vec<u8>>)
        ensures
            (r is Some) == (self.mesh_data.color_data@.len() > 0),
            (r matches Some(b) ==> b@ == self.mesh_data.color_data@),
    {
        if self.mesh_data.color_data.len() > 0 {
            Some(&self.mesh_data.color_data)
        } else {
            None
        }
    }

    /// The packed texture-coordinate buffer, present only when some
    /// primitive supplied texture coordinates.
    pub fn tex_coord_buffer(&self) -> (r: Option<&Vec<u8>>)
        ensures
            (r is Some) == (self.mesh_data.tex_coord_data@.len() > 0),
            (r matches Some(b) ==> b@ == self.mesh_data.tex_coord_data@),
    {
        if self.mesh_data.tex_coord_data.len() > 0 {
            Some(&self.mesh_data.tex_coord_data)
        } else {
            None
        }
    }

    /// The per-mesh layout records, index-aligned with the document's
    /// mesh list.
    pub fn mesh_infos(&self) -> (r: &Vec<crate::mesh_pack::MeshInfo>)
        ensures
            r@ == self.mesh_data.mesh_infos@,
    {
        &self.mesh_data.mesh_infos
    }

    /// The resolved material table, with the synthetic default at entry
    /// zero.
    pub fn material_infos(&self) -> (r: &Vec<MaterialInfo>)
        ensures
            r@ == self.material_infos@,
    {
        &self.material_infos
    }

    /// The packed per-instance transform buffer, in emission order.
    pub fn transform_buffer(&self) -> (r: &Vec<u8>)
        ensures
            r@ == self.instance_data.transform_buffer@,
    {
        &self.instance_data.transform_buffer
    }

    /// The converted device images, index-aligned with the document's
    /// image list.
    pub fn images(&self) -> (r: &Vec<DeviceImage>)
        ensures
            r@ == self.images@,
    {
        &self.images
    }

    /// The resolved sampler table, with the synthetic default at entry
    /// zero.
    pub fn samplers(&self) -> (r: &Vec<SamplerInfo>)
        ensures
            r@ == self.samplers@,
    {
        &self.samplers
    }

    /// The bottom-level acceleration structure inputs, index-aligned
    /// with the document's mesh list.
    pub fn blases(&self) -> (r: &Vec<BlasDescriptor>)
        ensures
            r@ == self.blases@,
    {
        &self.blases
    }
}

/// Whether two material entries hold the same content.
pub open spec fn material_info_eq(a: MaterialInfo, b: MaterialInfo) -> bool {
    &&& a.base_color_factor@ == b.base_color_factor@
    &&& a.base_color_texture == b.base_color_texture
    &&& a.metallic_roughness_texture == b.metallic_roughness_texture
    &&& a.metallic_factor == b.metallic_factor
    &&& a.roughness_factor == b.roughness_factor
}

/// Whether two sampler entries hold the same content.
pub open spec fn sampler_info_eq(a: SamplerInfo, b: SamplerInfo) -> bool {
    &&& name_eq(a.name, b.name)
    &&& a.mag_filter == b.mag_filter
    &&& a.min_filter == b.min_filter
    &&& a.address_mode_u == b.address_mode_u
    &&& a.address_mode_v == b.address_mode_v
}

/// Whether two mesh layout records hold the same content.
pub open spec fn mesh_info_eq(a: crate::mesh_pack::MeshInfo, b: crate::mesh_pack::MeshInfo) -> bool {
    &&& name_eq(a.name, b.name)
    &&& a.primitive_infos@ == b.primitive_infos@
}

/// Whether two instance records hold the same content.
pub open spec fn instance_eq(a: BlasInstance, b: BlasInstance) -> bool {
    &&& a.transform.m@ == b.transform.m@
    &&& a.instance_offset == b.instance_offset
    &&& a.mesh_index == b.mesh_index
}

/// Whether two device images hold the same content.
pub open spec fn device_image_eq(a: DeviceImage, b: DeviceImage) -> bool {
    &&& a.width == b.width
    &&& a.height == b.height
    &&& a.data@ == b.data@
}

/// Content-equal instance lists pack to the same transform buffer.
proof fn lemma_transforms_bytes_eq(a: Seq<BlasInstance>, b: Seq<BlasInstance>)
    requires
        a.len() == b.len(),
        forall|k: int| 0 <= k < a.len() ==> instance_eq(#[trigger] a[k], b[k]),
    ensures
        transforms_bytes(a) == transforms_bytes(b),
    decreases a.len(),
{
    if a.len() > 0 {
        assert(instance_eq(a[a.len() - 1], b[b.len() - 1]));
        assert forall|k: int| 0 <= k < a.drop_last().len() implies instance_eq(
            #[trigger] a.drop_last()[k],
            b.drop_last()[k],
        ) by {
            assert(a.drop_last()[k] == a[k]);
            assert(b.drop_last()[k] == b[k]);
        }
        lemma_transforms_bytes_eq(a.drop_last(), b.drop_last());
        assert(a.last() == a[a.len() - 1]);
        assert(b.last() == b[b.len() - 1]);
    }
}

/// Compiling the same document twice yields scenes with identical
/// buffer byte contents and identical metadata tables, entry for entry:
/// the compilation is a pure function of the document, with nothing
/// time-dependent or machine-dependent in any observable output.
pub proof fn lemma_scene_deterministic(doc: Document, s1: Scene, s2: Scene)
    requires
        scene_models(s1, doc),
        scene_models(s2, doc),
    ensures
        s1.mesh_data.index_data@ == s2.mesh_data.index_data@,
        s1.mesh_data.vertex_data@ == s2.mesh_data.vertex_data@,
        s1.mesh_data.color_data@ == s2.mesh_data.color_data@,
        s1.mesh_data.tex_coord_data@ == s2.mesh_data.tex_coord_data@,
        s1.instance_data.transform_buffer@ == s2.instance_data.transform_buffer@,
        s1.mesh_data.mesh_infos@.len() == s2.mesh_data.mesh_infos@.len(),
        forall|j: int| 0 <= j < s1.mesh_data.mesh_infos@.len() ==> mesh_info_eq(
            #[trigger] s1.mesh_data.mesh_infos@[j],
            s2.mesh_data.mesh_infos@[j],
        ),
        s1.material_infos@.len() == s2.material_infos@.len(),
        forall|k: int| 0 <= k < s1.material_infos@.len() ==> material_info_eq(
            #[trigger] s1.material_infos@[k],
            s2.material_infos@[k],
        ),
        s1.samplers@.len() == s2.samplers@.len(),
        forall|k: int| 0 <= k < s1.samplers@.len() ==> sampler_info_eq(
            #[trigger] s1.samplers@[k],
            s2.samplers@[k],
        ),
        s1.images@.len() == s2.images@.len(),
        forall|k: int| 0 <= k < s1.images@.len() ==> device_image_eq(
            #[trigger] s1.images@[k],
            s2.images@[k],
        ),
        s1.blases@.len() == s2.blases@.len(),
        forall|j: int| 0 <= j < s1.blases@.len() ==> (#[trigger] s1.blases@[j]).triangles@
            == s2.blases@[j].triangles@,
        s1.tlas.instances@.len() == s2.tlas.instances@.len(),
        forall|k: int| 0 <= k < s1.tlas.instances@.len() ==> instance_eq(
            #[trigger] s1.tlas.instances@[k],
            s2.tlas.instances@[k],
        ),
{
    assert forall|j: int| 0 <= j < s1.mesh_data.mesh_infos@.len() implies mesh_info_eq(
        #[trigger] s1.mesh_data.mesh_infos@[j],
        s2.mesh_data.mesh_infos@[j],
    ) by {
        assert(crate::mesh_pack::mesh_info_models(s1.mesh_data.mesh_infos@[j], doc.meshes@, j));
        assert(crate::mesh_pack::mesh_info_models(s2.mesh_data.mesh_infos@[j], doc.meshes@, j));
        assert(s1.mesh_data.mesh_infos@[j].primitive_infos@
            =~= s2.mesh_data.mesh_infos@[j].primitive_infos@);
    }
    assert forall|k: int| 0 <= k < s1.tlas.instances@.len() implies instance_eq(
        #[trigger] s1.tlas.instances@[k],
        s2.tlas.instances@[k],
    ) by {
        let model = forest_instances(doc.roots@, doc.meshes@, None, 0);
        assert(instance_models(s1.tlas.instances@[k], model[k]));
        assert(instance_models(s2.tlas.instances@[k], model[k]));
    }
    lemma_transforms_bytes_eq(s1.tlas.instances@, s2.tlas.instances@);
    assert forall|j: int| 0 <= j < s1.blases@.len() implies (#[trigger] s1.blases@[j]).triangles@
        == s2.blases@[j].triangles@ by {
        assert(blas_models(s1.blases@[j], s1.mesh_data.mesh_infos@[j]));
        assert(blas_models(s2.blases@[j], s2.mesh_data.mesh_infos@[j]));
        assert(mesh_info_eq(s1.mesh_data.mesh_infos@[j], s2.mesh_data.mesh_infos@[j]));
        assert(s1.blases@[j].triangles@ =~= s2.blases@[j].triangles@);
    }
}

/// The bottom-level acceleration structure inputs of a compiled scene
/// are index-aligned with the document's mesh list: the structure at
/// any index is built from exactly the layout records of the document
/// mesh at that index.
pub proof fn lemma_blas_mesh_alignment(doc: Document, s: Scene, j: int)
    requires
        scene_models(s, doc),
        0 <= j < doc.meshes@.len(),
    ensures
        s.blases@.len() == doc.meshes@.len(),
        s.mesh_data.mesh_infos@.len() == doc.meshes@.len(),
        blas_models(s.blases@[j], s.mesh_data.mesh_infos@[j]),
        s.blases@[j].triangles@.len() == doc.meshes@[j].primitives@.len(),
        crate::mesh_pack::mesh_info_models(s.mesh_data.mesh_infos@[j], doc.meshes@, j),
{
    assert(crate::mesh_pack::mesh_info_models(s.mesh_data.mesh_infos@[j], doc.meshes@, j));
    assert(blas_models(s.blases@[j], s.mesh_data.mesh_infos@[j]));
}

/// For any mesh-bearing node of the hierarchy — root `r`, then the path
/// of child positions below it — the compiled scene holds an instance
/// record whose transform is the product of that node's ancestors' local
/// matrices and its own, taken root-first in the compiler's one fixed
/// composition order.
pub proof fn lemma_scene_absolute_transforms(doc: Document, s: Scene, r: int, path: Seq<int>)
    requires
        scene_models(s, doc),
        0 <= r < doc.roots@.len(),
        path_ok(doc.roots@[r], path),
        (node_at(doc.roots@[r], path).mesh is Some),
    ensures
        exists|k: int|
            0 <= k < s.tlas.instances@.len() && (#[trigger] s.tlas.instances@[k]).transform.m@
                == chain_product(locals_on_path(doc.roots@[r], path)),
{
    let roots = doc.roots@;
    let meshes = doc.meshes@;
    let model = forest_instances(roots, meshes, None, 0);
    lemma_forest_instances_split(roots, meshes, None, 0, r);
    let before = forest_instances(roots.take(r), meshes, None, 0);
    let off_r = (0 + forest_count(roots.take(r), meshes)) as nat;
    let tail = roots.skip(r);
    assert(tail[0] == roots[r]);
    assert(tail.drop_first() =~= roots.skip(r + 1));
    let root_em = node_instances(roots[r], meshes, None, off_r);
    lemma_instance_carries_absolute_transform(roots[r], meshes, None, off_r, path);
    let k0 = choose|k0: int|
        0 <= k0 < root_em.len() && (#[trigger] root_em[k0]).transform == abs_at(
            roots[r],
            None,
            path,
        );
    let k = before.len() + k0;
    assert(model[k] == root_em[k0]);
    lemma_absolute_transform_chain(roots[r], path);
    assert(instance_models(s.tlas.instances@[k], model[k]));
    assert(s.tlas.instances@[k].transform.m@ == chain_product(locals_on_path(roots[r], path)));
}


/// After the full traversal the global primitive-instance counter has
/// reached the sum of primitive counts over every mesh referenced by at
/// least one node, counted once per node reference — summing the
/// referenced meshes' counts over the compiled scene's instance records
/// gives exactly the hierarchy's total contribution, which is where the
/// counter stands after the walk and where the next instance would start.
pub proof fn lemma_counter_totals_reference_sum(doc: Document, s: Scene)
    requires
        scene_models(s, doc),
    ensures
        instances_count_sum(s.tlas.instances@, doc.meshes@) == forest_count(
            doc.roots@,
            doc.meshes@,
        ),
{
    let model = forest_instances(doc.roots@, doc.meshes@, None, 0);
    lemma_instances_sum_models(s.tlas.instances@, model, doc.meshes@);
    crate::instance::lemma_forest_reference_sum(doc.roots@, doc.meshes@, None, 0);
}

} // verus!
