use vstd::prelude::*;
use crate::mesh_pack::{MeshInfo, PrimitiveInfo};

verus! {

/// One triangle-geometry descriptor of a bottom-level acceleration
/// structure: a view into the shared packed buffers, never a copy. The
/// index view reads 32-bit indices at `index_offset`; the vertex view
/// reads three-float positions at `vertex_offset` with a fixed
/// twelve-byte stride.
#[derive(Clone, Copy, Debug, PartialEq, Eq, Structural)]
pub struct TriangleGeometryDesc {
    pub index_offset: u64,
    pub index_count: u64,
    pub vertex_offset: u64,
    pub vertex_count: u64,
    pub vertex_stride: u64,
}

/// The build input of one mesh's bottom-level acceleration structure:
/// one triangle-geometry descriptor per primitive, in the mesh's
/// primitive order.
#[derive(Clone, Debug, PartialEq, Eq)]
pub struct BlasDescriptor {
    pub triangles: Vec<TriangleGeometryDesc>,
}

/// The triangle-geometry descriptor of one packed primitive: its offsets
/// and counts carried over, with the fixed twelve-byte vertex stride
/// (three 32-bit floats).
pub open spec fn geometry_of(info: PrimitiveInfo) -> TriangleGeometryDesc {
    TriangleGeometryDesc {
        index_offset: info.index_offset,
        index_count: info.index_count,
        vertex_offset: info.vertex_offset,
        vertex_count: info.vertex_count,
        vertex_stride: 12u64,
    }
}

/// Whether a descriptor holds one triangle geometry per primitive of a
/// mesh's layout record, each as `geometry_of` states it.
pub open spec fn blas_models(b: BlasDescriptor, mi: MeshInfo) -> bool {
    &&& b.triangles@.len() == mi.primitive_infos@.len()
    &&& forall|i: int| 0 <= i < b.triangles@.len() ==> (#[trigger] b.triangles@[i]) == geometry_of(
        mi.primitive_infos@[i],
    )
}

/// Builds the bottom-level acceleration structure inputs, one per mesh in
/// mesh-index order — the list is index-aligned with the mesh layout
/// records, and through them with the document's mesh list. That
/// alignment is the addressing scheme node-to-mesh lookups rely on.
pub fn create_blases(mesh_infos: &Vec<MeshInfo>) -> (r: Vec<BlasDescriptor>)
    ensures
        r@.len() == mesh_infos@.len(),
        forall|j: int| 0 <= j < r@.len() ==> blas_models(#[trigger] r@[j], mesh_infos@[j]),
{
    let mut blases: Vec<BlasDescriptor> = Vec::new();
    let mut j: usize = 0;
    while j < mesh_infos.len()
        invariant
            j <= mesh_infos@.len(),
            blases@.len() == j,
            forall|j2: int| 0 <= j2 < j ==> blas_models(#[trigger] blases@[j2], mesh_infos@[j2]),
        decreases mesh_infos@.len() - j,
    {
        let mi = &mesh_infos[j];
        let mut triangles: Vec<TriangleGeometryDesc> = Vec::new();
        let mut i: usize = 0;
        while i < mi.primitive_infos.len()
            invariant
                j < mesh_infos@.len(),
                *mi == mesh_infos@[j as int],
                i <= mi.primitive_infos@.len(),
                triangles@.len() == i,
                forall|i2: int| 0 <= i2 < i ==> (#[trigger] triangles@[i2]) == geometry_of(
                    mesh_infos@[j as int].primitive_infos@[i2],
                ),
                blases@.len() == j,
                forall|j2: int| 0 <= j2 < j ==> blas_models(
                    #[trigger] blases@[j2],
                    mesh_infos@[j2],
                ),
            decreases mi.primitive_infos@.len() - i,
        {
            let info = &mi.primitive_infos[i];
            triangles.push(TriangleGeometryDesc {
                index_offset: info.index_offset,
                index_count: info.index_count,
                vertex_offset: info.vertex_offset,
                vertex_count: info.vertex_count,
                vertex_stride: 12,
            });
            i = i + 1;
        }
        blases.push(BlasDescriptor { triangles });
        j = j + 1;
    }
    blases
}

} // verus!
