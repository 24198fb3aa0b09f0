use vstd::prelude::*;
use crate::bytes::{append_u16s_widened_le, append_u32s_le, le_bytes_of_u32s, widened_u16s, widened_u8s};
use crate::document::{IndexStream, Mesh, Primitive};
use crate::error::SceneError;

verus! {

/// The recorded layout of one packed primitive: byte offsets into the
/// shared stream buffers, element counts, and the shifted material index
/// (`0` means "no material assigned"; a real material `i` is stored as
/// `i + 1`). The optional offsets are `None` exactly when the primitive
/// supplies no such stream; zero is a valid real offset, so absence is not
/// encoded as zero.
#[derive(Clone, Copy, Debug, PartialEq, Eq)]
pub struct PrimitiveInfo {
    pub index_offset: u64,
    pub vertex_offset: u64,
    pub index_count: u64,
    pub vertex_count: u64,
    pub material_index: u64,
    pub color_offset: Option<u64>,
    pub tex_coord_offset: Option<u64>,
}

/// One mesh's name and the layout records of its primitives, in document
/// order. The list of `MeshInfo` produced by the packer is index-aligned
/// with the document's mesh list.
#[derive(Clone, Debug, PartialEq, Eq)]
pub struct MeshInfo {
    pub name: Option<String>,
    pub primitive_infos: Vec<PrimitiveInfo>,
}

/// The packer's output: one growing byte buffer per stream type, and the
/// per-mesh layout records that index into them.
pub struct MeshData {
    pub index_data: Vec<u8>,
    pub vertex_data: Vec<u8>,
    pub color_data: Vec<u8>,
    pub tex_coord_data: Vec<u8>,
    pub mesh_infos: Vec<MeshInfo>,
}

/// A primitive's index elements, widened to the uniform 32-bit width that
/// the packed index buffer holds.
pub open spec fn index_elems(s: IndexStream) -> Seq<u32> {
    match s {
        IndexStream::U8(v) => widened_u8s(v@),
        IndexStream::U16(v) => widened_u16s(v@),
        IndexStream::U32(v) => v@,
    }
}

/// The fatal error a primitive triggers in the packer, if any: it must
/// carry an index stream of 16-bit or 32-bit width and a position stream
/// of three components per vertex.
pub open spec fn prim_error(p: Primitive) -> Option<SceneError> {
    match p.indices {
        None => Some(SceneError::MissingIndices),
        Some(s) => if s is U8 {
            Some(SceneError::UnsupportedIndexWidth)
        } else {
            match p.positions {
                None => Some(SceneError::MissingPositions),
                Some(ps) => if ps.components != 3 {
                    Some(SceneError::UnsupportedPositionLayout)
                } else {
                    None
                },
            }
        },
    }
}

/// Whether the packer accepts a primitive.
pub open spec fn prim_ok(p: Primitive) -> bool {
    prim_error(p) is None
}

/// The first error among a sequence of primitives, in packing order.
pub open spec fn prims_error(ps: Seq<Primitive>) -> Option<SceneError>
    decreases ps.len(),
{
    if ps.len() == 0 {
        None
    } else {
        match prim_error(ps.first()) {
            Some(e) => Some(e),
            None => prims_error(ps.drop_first()),
        }
    }
}

/// The bytes a primitive contributes to the packed index buffer.
pub open spec fn prim_index_bytes(p: Primitive) -> Seq<u8> {
    match p.indices {
        Some(s) => le_bytes_of_u32s(index_elems(s)),
        None => Seq::empty(),
    }
}

/// The bytes a primitive contributes to the packed position buffer.
pub open spec fn prim_vertex_bytes(p: Primitive) -> Seq<u8> {
    match p.positions {
        Some(ps) => le_bytes_of_u32s(ps.data@),
        None => Seq::empty(),
    }
}

/// The bytes a primitive contributes to the packed color buffer.
pub open spec fn prim_color_bytes(p: Primitive) -> Seq<u8> {
    match p.colors {
        Some(c) => le_bytes_of_u32s(c@),
        None => Seq::empty(),
    }
}

/// The bytes a primitive contributes to the packed texture-coordinate
/// buffer.
pub open spec fn prim_tex_coord_bytes(p: Primitive) -> Seq<u8> {
    match p.tex_coords {
        Some(t) => le_bytes_of_u32s(t@),
        None => Seq::empty(),
    }
}

/// A primitive's index element count.
pub open spec fn prim_index_count(p: Primitive) -> nat {
    match p.indices {
        Some(s) => index_elems(s).len(),
        None => 0,
    }
}

/// A primitive's vertex count: its position stream holds three components
/// per vertex.
pub open spec fn prim_vertex_count(p: Primitive) -> nat {
    match p.positions {
        Some(ps) => ps.data@.len() / 3,
        None => 0,
    }
}

/// All primitives of a mesh list, flattened in packing order: meshes in
/// document order, primitives within a mesh in document order.
pub open spec fn prims_of(meshes: Seq<Mesh>) -> Seq<Primitive>
    decreases meshes.len(),
{
    if meshes.len() == 0 {
        Seq::empty()
    } else {
        prims_of(meshes.drop_last()) + meshes.last().primitives@
    }
}

/// The packed index buffer of a primitive sequence: each primitive's index
/// bytes concatenated in packing order.
pub open spec fn index_bytes_of(ps: Seq<Primitive>) -> Seq<u8>
    decreases ps.len(),
{
    if ps.len() == 0 {
        Seq::empty()
    } else {
        index_bytes_of(ps.drop_last()) + prim_index_bytes(ps.last())
    }
}

/// The packed position buffer of a primitive sequence.
pub open spec fn vertex_bytes_of(ps: Seq<Primitive>) -> Seq<u8>
    decreases ps.len(),
{
    if ps.len() == 0 {
        Seq::empty()
    } else {
        vertex_bytes_of(ps.drop_last()) + prim_vertex_bytes(ps.last())
    }
}

/// The packed color buffer of a primitive sequence.
pub open spec fn color_bytes_of(ps: Seq<Primitive>) -> Seq<u8>
    decreases ps.len(),
{
    if ps.len() == 0 {
        Seq::empty()
    } else {
        color_bytes_of(ps.drop_last()) + prim_color_bytes(ps.last())
    }
}

/// The packed texture-coordinate buffer of a primitive sequence.
pub open spec fn tex_coord_bytes_of(ps: Seq<Primitive>) -> Seq<u8>
    decreases ps.len(),
{
    if ps.len() == 0 {
        Seq::empty()
    } else {
        tex_coord_bytes_of(ps.drop_last()) + prim_tex_coord_bytes(ps.last())
    }
}

/// The layout record of a primitive `p` packed after the primitives of
/// `prefix`: every offset is the byte length the corresponding buffer had
/// accumulated before `p` was appended.
pub open spec fn prim_info_at(prefix: Seq<Primitive>, p: Primitive) -> PrimitiveInfo {
    PrimitiveInfo {
        index_offset: index_bytes_of(prefix).len() as u64,
        vertex_offset: vertex_bytes_of(prefix).len() as u64,
        index_count: prim_index_count(p) as u64,
        vertex_count: prim_vertex_count(p) as u64,
        material_index: match p.material {
            Some(i) => (i + 1) as u64,
            None => 0u64,
        },
        color_offset: match p.colors {
            Some(_) => Some(color_bytes_of(prefix).len() as u64),
            None => None,
        },
        tex_coord_offset: match p.tex_coords {
            Some(_) => Some(tex_coord_bytes_of(prefix).len() as u64),
            None => None,
        },
    }
}

/// The primitives packed before primitive `i` of mesh `j`: all primitives
/// of the meshes before `j`, then the first `i` primitives of mesh `j`.
pub open spec fn flat_prefix(meshes: Seq<Mesh>, j: int, i: int) -> Seq<Primitive> {
    prims_of(meshes.take(j)) + meshes[j].primitives@.take(i)
}

/// Whether two optional names hold the same text.
pub open spec fn name_eq(a: Option<String>, b: Option<String>) -> bool {
    match (a, b) {
        (Option::None, Option::None) => true,
        (Option::Some(x), Option::Some(y)) => x@ == y@,
        _ => false,
    }
}

/// Whether every primitive of a sequence packs cleanly.
pub open spec fn all_prims_ok(ps: Seq<Primitive>) -> bool {
    forall|k: int| 0 <= k < ps.len() ==> prim_ok(#[trigger] ps[k])
}

/// Whether four byte buffers hold exactly the packed streams of a
/// primitive sequence.
pub open spec fn buffers_hold(ib: Seq<u8>, vb: Seq<u8>, cb: Seq<u8>, tb: Seq<u8>, ps: Seq<Primitive>) -> bool {
    &&& ib == index_bytes_of(ps)
    &&& vb == vertex_bytes_of(ps)
    &&& cb == color_bytes_of(ps)
    &&& tb == tex_coord_bytes_of(ps)
}

/// Whether a mesh's layout record models mesh `j` of the mesh list: same
/// name, one layout record per primitive, and each record as
/// `prim_info_at` describes it at its packing position.
pub open spec fn mesh_info_models(mi: MeshInfo, meshes: Seq<Mesh>, j: int) -> bool {
    &&& name_eq(mi.name, meshes[j].name)
    &&& mi.primitive_infos@.len() == meshes[j].primitives@.len()
    &&& forall|i: int|
        0 <= i < meshes[j].primitives@.len() ==> (#[trigger] mi.primitive_infos@[i])
            == prim_info_at(flat_prefix(meshes, j, i), meshes[j].primitives@[i])
}

/// Whether the first `j` layout records model the first `j` meshes.
pub open spec fn mesh_infos_upto(infos: Seq<MeshInfo>, meshes: Seq<Mesh>, j: int) -> bool {
    &&& infos.len() == j
    &&& forall|j2: int| 0 <= j2 < j ==> mesh_info_models(#[trigger] infos[j2], meshes, j2)
}

/// Whether the first `i` primitive records of mesh `j` are as packing
/// places them.
pub open spec fn prim_infos_upto(infos: Seq<PrimitiveInfo>, meshes: Seq<Mesh>, j: int, i: int) -> bool {
    &&& infos.len() == i
    &&& forall|i2: int|
        0 <= i2 < i ==> (#[trigger] infos[i2]) == prim_info_at(
            flat_prefix(meshes, j, i2),
            meshes[j].primitives@[i2],
        )
}

/// What the packer guarantees of its output for a given mesh list: the
/// four buffers hold exactly the primitives' streams concatenated in
/// packing order, the layout records are index-aligned with the mesh list,
/// and each record holds the buffer lengths accumulated before its
/// primitive together with its counts and shifted material index.
pub open spec fn mesh_data_models(md: MeshData, meshes: Seq<Mesh>) -> bool {
    &&& buffers_hold(
        md.index_data@,
        md.vertex_data@,
        md.color_data@,
        md.tex_coord_data@,
        prims_of(meshes),
    )
    &&& mesh_infos_upto(md.mesh_infos@, meshes, meshes.len() as int)
}

/// Each packed buffer distributes over concatenation of primitive
/// sequences.
proof fn lemma_bytes_concat(a: Seq<Primitive>, b: Seq<Primitive>)
    ensures
        index_bytes_of(a + b) == index_bytes_of(a) + index_bytes_of(b),
        vertex_bytes_of(a + b) == vertex_bytes_of(a) + vertex_bytes_of(b),
        color_bytes_of(a + b) == color_bytes_of(a) + color_bytes_of(b),
        tex_coord_bytes_of(a + b) == tex_coord_bytes_of(a) + tex_coord_bytes_of(b),
    decreases b.len(),
{
    if b.len() == 0 {
        assert(a + b =~= a);
        assert(index_bytes_of(a) + index_bytes_of(b) =~= index_bytes_of(a));
        assert(vertex_bytes_of(a) + vertex_bytes_of(b) =~= vertex_bytes_of(a));
        assert(color_bytes_of(a) + color_bytes_of(b) =~= color_bytes_of(a));
        assert(tex_coord_bytes_of(a) + tex_coord_bytes_of(b) =~= tex_coord_bytes_of(a));
    } else {
        lemma_bytes_concat(a, b.drop_last());
        assert((a + b).drop_last() =~= a + b.drop_last());
        assert((a + b).last() == b.last());
        assert(index_bytes_of(a) + index_bytes_of(b.drop_last()) + prim_index_bytes(b.last())
            =~= index_bytes_of(a) + index_bytes_of(b));
        assert(vertex_bytes_of(a) + vertex_bytes_of(b.drop_last()) + prim_vertex_bytes(b.last())
            =~= vertex_bytes_of(a) + vertex_bytes_of(b));
        assert(color_bytes_of(a) + color_bytes_of(b.drop_last()) + prim_color_bytes(b.last())
            =~= color_bytes_of(a) + color_bytes_of(b));
        assert(tex_coord_bytes_of(a) + tex_coord_bytes_of(b.drop_last()) + prim_tex_coord_bytes(
            b.last(),
        ) =~= tex_coord_bytes_of(a) + tex_coord_bytes_of(b));
    }
}

/// Each packed buffer grows by exactly one primitive's bytes when one
/// primitive is appended.
proof fn lemma_bytes_push(ps: Seq<Primitive>, p: Primitive)
    ensures
        index_bytes_of(ps.push(p)) == index_bytes_of(ps) + prim_index_bytes(p),
        vertex_bytes_of(ps.push(p)) == vertex_bytes_of(ps) + prim_vertex_bytes(p),
        color_bytes_of(ps.push(p)) == color_bytes_of(ps) + prim_color_bytes(p),
        tex_coord_bytes_of(ps.push(p)) == tex_coord_bytes_of(ps) + prim_tex_coord_bytes(p),
{
    assert(ps.push(p).drop_last() =~= ps);
}

/// The flattened primitive sequence splits at any mesh boundary.
proof fn lemma_prims_split(meshes: Seq<Mesh>, t: int)
    requires
        0 <= t <= meshes.len(),
    ensures
        prims_of(meshes) == prims_of(meshes.take(t)) + prims_of(meshes.skip(t)),
    decreases meshes.len(),
{
    if t == meshes.len() {
        assert(meshes.take(t) =~= meshes);
        assert(prims_of(meshes.skip(t)) =~= Seq::empty());
        assert(prims_of(meshes) =~= prims_of(meshes.take(t)) + prims_of(meshes.skip(t)));
    } else {
        let front = meshes.drop_last();
        lemma_prims_split(front, t);
        assert(front.take(t) =~= meshes.take(t));
        assert(meshes.skip(t).drop_last() =~= front.skip(t));
        assert(meshes.skip(t).last() == meshes.last());
        assert(prims_of(meshes) =~= prims_of(meshes.take(t)) + prims_of(meshes.skip(t)));
    }
}

/// One mesh's primitives stand between the flattened primitives of the
/// meshes before it and those of the meshes after it.
proof fn lemma_prims_at(meshes: Seq<Mesh>, j: int)
    requires
        0 <= j < meshes.len(),
    ensures
        prims_of(meshes) == prims_of(meshes.take(j)) + meshes[j].primitives@ + prims_of(
            meshes.skip(j + 1),
        ),
{
    lemma_prims_split(meshes, j);
    let tail = meshes.skip(j);
    lemma_prims_split(tail, 1);
    let single = tail.take(1);
    assert(single.len() == 1);
    assert(single.last() == meshes[j]);
    assert(single.drop_last() =~= Seq::<Mesh>::empty());
    assert(prims_of(Seq::<Mesh>::empty()) =~= Seq::<Primitive>::empty());
    assert(prims_of(single) =~= meshes[j].primitives@);
    assert(tail.skip(1) =~= meshes.skip(j + 1));
    assert(prims_of(meshes) =~= prims_of(meshes.take(j)) + meshes[j].primitives@ + prims_of(
        meshes.skip(j + 1),
    ));
}

/// If every primitive before position `k` packs cleanly and the one at
/// `k` does not, the first packing error is the one at `k`.
proof fn lemma_prims_error_at(ps: Seq<Primitive>, k: int)
    requires
        0 <= k < ps.len(),
        forall|j: int| 0 <= j < k ==> prim_ok(#[trigger] ps[j]),
        !prim_ok(ps[k]),
    ensures
        prims_error(ps) == prim_error(ps[k]),
    decreases k,
{
    if k > 0 {
        lemma_prims_error_at(ps.drop_first(), k - 1);
    }
}

/// If every primitive packs cleanly there is no packing error.
proof fn lemma_prims_error_none(ps: Seq<Primitive>)
    requires
        all_prims_ok(ps),
    ensures
        prims_error(ps) is None,
    decreases ps.len(),
{
    if ps.len() > 0 {
        assert(prim_ok(ps[0]));
        assert forall|j: int| 0 <= j < ps.drop_first().len() implies prim_ok(
            #[trigger] ps.drop_first()[j],
        ) by {
            assert(ps.drop_first()[j] == ps[j + 1]);
        }
        lemma_prims_error_none(ps.drop_first());
    }
}

/// If the primitives packed so far are clean and the one at position `i`
/// of mesh `j` is not, its error is the first packing error of the whole
/// mesh list.
proof fn lemma_error_return(meshes: Seq<Mesh>, j: int, i: int)
    requires
        0 <= j < meshes.len(),
        0 <= i < meshes[j].primitives@.len(),
        all_prims_ok(flat_prefix(meshes, j, i)),
        !prim_ok(meshes[j].primitives@[i]),
    ensures
        prims_error(prims_of(meshes)) == prim_error(meshes[j].primitives@[i]),
{
    lemma_prims_at(meshes, j);
    let full = prims_of(meshes);
    let fp = flat_prefix(meshes, j, i);
    let pos = fp.len() as int;
    assert(meshes[j].primitives@.take(i).len() == i);
    assert(full[pos] == meshes[j].primitives@[i]);
    assert(pos < full.len());
    assert forall|k: int| 0 <= k < pos implies prim_ok(#[trigger] full[k]) by {
        assert(full[k] == fp[k]);
    }
    lemma_prims_error_at(full, pos);
}

/// What `process_meshes` returns for a given mesh list: the packed data
/// modelling the list exactly when no primitive triggers a fatal error,
/// and the first fatal error in packing order otherwise.
pub open spec fn pack_outcome(r: Result<MeshData, SceneError>, meshes: Seq<Mesh>) -> bool {
    match r {
        Ok(md) => (prims_error(prims_of(meshes)) is None) && mesh_data_models(md, meshes),
        Err(e) => prims_error(prims_of(meshes)) == Some(e),
    }
}

/// Packs every mesh's primitives into the four shared stream buffers:
/// meshes in document order, primitives within a mesh in document order.
/// Each primitive's offsets are the byte lengths the buffers had before
/// its streams were appended; 16-bit index streams are widened to the
/// uniform 32-bit width. Packing fails fatally on the first primitive
/// without a usable index or position stream, and succeeds on every
/// document whose primitives all carry both.
pub fn process_meshes(meshes: &Vec<Mesh>) -> (r: Result<MeshData, SceneError>)
    ensures
        pack_outcome(r, meshes@),
{
    let mut index_data: Vec<u8> = Vec::new();
    let mut vertex_data: Vec<u8> = Vec::new();
    let mut color_data: Vec<u8> = Vec::new();
    let mut tex_coord_data: Vec<u8> = Vec::new();
    let mut mesh_infos: Vec<MeshInfo> = Vec::new();
    let mut j: usize = 0;
    while j < meshes.len()
        invariant
            j <= meshes@.len(),
            buffers_hold(
                index_data@,
                vertex_data@,
                color_data@,
                tex_coord_data@,
                prims_of(meshes@.take(j as int)),
            ),
            mesh_infos_upto(mesh_infos@, meshes@, j as int),
            all_prims_ok(prims_of(meshes@.take(j as int))),
        decreases meshes@.len() - j,
    {
        let mesh = &meshes[j];
        let mut primitive_infos: Vec<PrimitiveInfo> = Vec::new();
        let mut i: usize = 0;
        while i < mesh.primitives.len()
            invariant
                j < meshes@.len(),
                *mesh == meshes@[j as int],
                i <= mesh.primitives@.len(),
                buffers_hold(
                    index_data@,
                    vertex_data@,
                    color_data@,
                    tex_coord_data@,
                    flat_prefix(meshes@, j as int, i as int),
                ),
                prim_infos_upto(primitive_infos@, meshes@, j as int, i as int),
                all_prims_ok(flat_prefix(meshes@, j as int, i as int)),
                mesh_infos_upto(mesh_infos@, meshes@, j as int),
            decreases mesh.primitives@.len() - i,
        {
            let p = &mesh.primitives[i];
            let stream = match &p.indices {
                Some(s) => s,
                None => {
                    proof {
                        lemma_error_return(meshes@, j as int, i as int);
                    }
                    return Err(SceneError::MissingIndices);
                },
            };
            if let IndexStream::U8(_) = stream {
                proof {
                    lemma_error_return(meshes@, j as int, i as int);
                }
                return Err(SceneError::UnsupportedIndexWidth);
            }
            let pos_stream = match &p.positions {
                Some(ps) => ps,
                None => {
                    proof {
                        lemma_error_return(meshes@, j as int, i as int);
                    }
                    return Err(SceneError::MissingPositions);
                },
            };
            if pos_stream.components != 3 {
                proof {
                    lemma_error_return(meshes@, j as int, i as int);
                }
                return Err(SceneError::UnsupportedPositionLayout);
            }
            let index_count: u64 = (match stream {
                IndexStream::U8(v) => v.len(),
                IndexStream::U16(v) => v.len(),
                IndexStream::U32(v) => v.len(),
            }) as u64;
            let info = PrimitiveInfo {
                index_offset: index_data.len() as u64,
                vertex_offset: vertex_data.len() as u64,
                index_count,
                vertex_count: (pos_stream.data.len() / 3) as u64,
                material_index: match p.material {
                    Some(mi) => mi as u64 + 1,
                    None => 0,
                },
                color_offset: match &p.colors {
                    Some(_) => Some(color_data.len() as u64),
                    None => None,
                },
                tex_coord_offset: match &p.tex_coords {
                    Some(_) => Some(tex_coord_data.len() as u64),
                    None => None,
                },
            };
            match stream {
                IndexStream::U16(v) => append_u16s_widened_le(&mut index_data, v),
                IndexStream::U32(v) => append_u32s_le(&mut index_data, v),
                IndexStream::U8(_) => {
                    proof {
                        assert(false);
                    }
                },
            }
            append_u32s_le(&mut vertex_data, &pos_stream.data);
            if let Some(c) = &p.colors {
                append_u32s_le(&mut color_data, c);
            }
            if let Some(t) = &p.tex_coords {
                append_u32s_le(&mut tex_coord_data, t);
            }
            proof {
                let ms = meshes@;
                let jj = j as int;
                let ii = i as int;
                let fp = flat_prefix(ms, jj, ii);
                let pv = ms[jj].primitives@[ii];
                assert(prim_ok(pv));
                assert(info == prim_info_at(fp, pv));
                lemma_bytes_push(fp, pv);
                assert(ms[jj].primitives@.take(ii + 1) =~= ms[jj].primitives@.take(ii).push(pv));
                assert(flat_prefix(ms, jj, ii + 1) =~= fp.push(pv));
                assert(index_data@ == index_bytes_of(flat_prefix(ms, jj, ii + 1)));
                assert(vertex_data@ == vertex_bytes_of(flat_prefix(ms, jj, ii + 1)));
                assert(color_data@ == color_bytes_of(flat_prefix(ms, jj, ii + 1)));
                assert(tex_coord_data@ == tex_coord_bytes_of(flat_prefix(ms, jj, ii + 1)));
                assert forall|k: int|
                    0 <= k < flat_prefix(ms, jj, ii + 1).len() implies prim_ok(
                    #[trigger] flat_prefix(ms, jj, ii + 1)[k],
                ) by {
                    if k < fp.len() {
                        assert(flat_prefix(ms, jj, ii + 1)[k] == fp[k]);
                    } else {
                        assert(flat_prefix(ms, jj, ii + 1)[k] == pv);
                    }
                }
            }
            primitive_infos.push(info);
            i = i + 1;
        }
        let name = match &mesh.name {
            Some(s) => Some(s.clone()),
            None => None,
        };
        proof {
            let ms = meshes@;
            let jj = j as int;
            assert(ms[jj].primitives@.take(ms[jj].primitives@.len() as int) =~= ms[jj].primitives@);
            assert(ms.take(jj + 1).drop_last() =~= ms.take(jj));
            assert(ms.take(jj + 1).last() == ms[jj]);
            assert(prims_of(ms.take(jj + 1)) =~= prims_of(ms.take(jj)) + ms[jj].primitives@);
            assert(flat_prefix(ms, jj, ms[jj].primitives@.len() as int) == prims_of(
                ms.take(jj + 1),
            ));
        }
        mesh_infos.push(MeshInfo { name, primitive_infos });
        j = j + 1;
    }
    proof {
        assert(meshes@.take(meshes@.len() as int) =~= meshes@);
        lemma_prims_error_none(prims_of(meshes@));
    }
    Ok(MeshData { index_data, vertex_data, color_data, tex_coord_data, mesh_infos })
}

/// The layout record of primitive `i` of mesh `j` in packed data.
pub open spec fn packed_info(md: MeshData, j: int, i: int) -> PrimitiveInfo {
    md.mesh_infos@[j].primitive_infos@[i]
}

/// The packed index buffer's byte length.
pub open spec fn index_buffer_len(md: MeshData) -> int {
    md.index_data@.len() as int
}

/// The packed position buffer's byte length.
pub open spec fn vertex_buffer_len(md: MeshData) -> int {
    md.vertex_data@.len() as int
}

/// One past the last index-buffer byte that a primitive's record covers:
/// its index offset plus four bytes per index element.
pub open spec fn info_index_end(md: MeshData, j: int, i: int) -> int {
    packed_info(md, j, i).index_offset + 4 * packed_info(md, j, i).index_count
}

/// One past the last position-buffer byte that a primitive's counted
/// vertices cover: its vertex offset plus twelve bytes per vertex.
pub open spec fn info_vertex_end(md: MeshData, j: int, i: int) -> int {
    packed_info(md, j, i).vertex_offset + 12 * packed_info(md, j, i).vertex_count
}

/// A primitive's index bytes are four per index element, and its position
/// bytes cover at least twelve bytes per counted vertex.
pub proof fn lemma_prim_bytes_len(p: Primitive)
    ensures
        prim_index_bytes(p).len() == 4 * prim_index_count(p),
        prim_vertex_bytes(p).len() >= 12 * prim_vertex_count(p),
{
    match p.indices {
        Some(s) => {
            crate::bytes::lemma_le_bytes_len(index_elems(s));
        },
        None => {},
    }
    match p.positions {
        Some(st) => {
            crate::bytes::lemma_le_bytes_len(st.data@);
            assert(3 * (st.data@.len() / 3) <= st.data@.len());
        },
        None => {},
    }
}

/// The bytes packed before primitive `i1` of mesh `j`, plus that
/// primitive's own bytes, all lie before the bytes packed for any later
/// position `i2` of the same mesh.
proof fn lemma_flat_prefix_mono(meshes: Seq<Mesh>, j: int, i1: int, i2: int)
    requires
        0 <= j < meshes.len(),
        0 <= i1 < i2 <= meshes[j].primitives@.len(),
    ensures
        index_bytes_of(flat_prefix(meshes, j, i2)).len() >= index_bytes_of(
            flat_prefix(meshes, j, i1),
        ).len() + prim_index_bytes(meshes[j].primitives@[i1]).len(),
        vertex_bytes_of(flat_prefix(meshes, j, i2)).len() >= vertex_bytes_of(
            flat_prefix(meshes, j, i1),
        ).len() + prim_vertex_bytes(meshes[j].primitives@[i1]).len(),
{
    let b = meshes[j].primitives@;
    let p1 = b[i1];
    let fp1 = flat_prefix(meshes, j, i1);
    let fpn = flat_prefix(meshes, j, i1 + 1);
    let fp2 = flat_prefix(meshes, j, i2);
    assert(b.take(i1 + 1) =~= b.take(i1).push(p1));
    assert(fpn =~= fp1.push(p1));
    lemma_bytes_push(fp1, p1);
    assert(fp2 =~= fpn + b.subrange(i1 + 1, i2));
    lemma_bytes_concat(fpn, b.subrange(i1 + 1, i2));
}

/// The bytes packed before primitive `i` of mesh `j`, plus that
/// primitive's own bytes, fit inside the whole packed buffers.
proof fn lemma_flat_decompose(meshes: Seq<Mesh>, j: int, i: int)
    requires
        0 <= j < meshes.len(),
        0 <= i < meshes[j].primitives@.len(),
    ensures
        index_bytes_of(prims_of(meshes)).len() >= index_bytes_of(
            flat_prefix(meshes, j, i),
        ).len() + prim_index_bytes(meshes[j].primitives@[i]).len(),
        vertex_bytes_of(prims_of(meshes)).len() >= vertex_bytes_of(
            flat_prefix(meshes, j, i),
        ).len() + prim_vertex_bytes(meshes[j].primitives@[i]).len(),
{
    let ps = prims_of(meshes);
    let b = meshes[j].primitives@;
    let p = b[i];
    let fp = flat_prefix(meshes, j, i);
    let fpn = flat_prefix(meshes, j, i + 1);
    assert(b.take(i + 1) =~= b.take(i).push(p));
    assert(fpn =~= fp.push(p));
    lemma_bytes_push(fp, p);
    lemma_prims_at(meshes, j);
    let rest = b.skip(i + 1) + prims_of(meshes.skip(j + 1));
    assert(ps =~= fpn + rest);
    lemma_bytes_concat(fpn, rest);
}

/// Within one mesh, layout offsets never decrease across the packing
/// order: a later primitive's recorded index offset lies at or past the
/// end of an earlier primitive's index bytes, and likewise for position
/// bytes — so offsets are strictly increasing wherever the earlier
/// primitive's counts are nonzero.
pub proof fn lemma_offsets_monotonic(md: MeshData, meshes: Seq<Mesh>, j: int, i1: int, i2: int)
    requires
        mesh_data_models(md, meshes),
        0 <= j < meshes.len(),
        0 <= i1 < i2 < meshes[j].primitives@.len(),
    ensures
        info_index_end(md, j, i1) <= packed_info(md, j, i2).index_offset,
        info_vertex_end(md, j, i1) <= packed_info(md, j, i2).vertex_offset,
{
    let b = meshes[j].primitives@;
    let p1 = b[i1];
    let p2 = b[i2];
    let fp1 = flat_prefix(meshes, j, i1);
    let fp2 = flat_prefix(meshes, j, i2);
    assert(mesh_info_models(md.mesh_infos@[j], meshes, j));
    assert(packed_info(md, j, i1) == prim_info_at(fp1, p1));
    assert(packed_info(md, j, i2) == prim_info_at(fp2, p2));
    lemma_flat_prefix_mono(meshes, j, i1, i2);
    lemma_flat_decompose(meshes, j, i2);
    lemma_prim_bytes_len(p1);
    assert(md.index_data.len() == md.index_data@.len());
    assert(md.vertex_data.len() == md.vertex_data@.len());
}

/// No primitive's recorded bytes reach past the end of the final packed
/// buffers: its index offset plus four bytes per index element stays
/// within the index buffer, and its vertex offset plus twelve bytes per
/// counted vertex stays within the position buffer.
pub proof fn lemma_offsets_bounded(md: MeshData, meshes: Seq<Mesh>, j: int, i: int)
    requires
        mesh_data_models(md, meshes),
        0 <= j < meshes.len(),
        0 <= i < meshes[j].primitives@.len(),
    ensures
        info_index_end(md, j, i) <= index_buffer_len(md),
        info_vertex_end(md, j, i) <= vertex_buffer_len(md),
{
    let b = meshes[j].primitives@;
    let p = b[i];
    let fp = flat_prefix(meshes, j, i);
    assert(mesh_info_models(md.mesh_infos@[j], meshes, j));
    assert(packed_info(md, j, i) == prim_info_at(fp, p));
    lemma_flat_decompose(meshes, j, i);
    lemma_prim_bytes_len(p);
    assert(md.index_data.len() == md.index_data@.len());
    assert(md.vertex_data.len() == md.vertex_data@.len());
}

} // verus!
