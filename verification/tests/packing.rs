use gltf_scene::{
    Document, IndexStream, LocalTransform, Mesh, Node, PositionStream, Primitive, PrimitiveInfo,
    Scene, SceneError,
};

fn identity_bits() -> [u32; 16] {
    glam::Mat4::IDENTITY.to_cols_array().map(f32::to_bits)
}

fn triangle_positions() -> Vec<u32> {
    let floats: [f32; 9] = [0.0, 0.0, 0.0, 1.0, 0.0, 0.0, 0.0, 1.0, 0.0];
    floats.iter().map(|v| v.to_bits()).collect()
}

fn one_triangle_primitive() -> Primitive {
    Primitive {
        indices: Some(IndexStream::U32(vec![0, 1, 2])),
        positions: Some(PositionStream { components: 3, data: triangle_positions() }),
        colors: None,
        tex_coords: None,
        material: None,
    }
}

fn single_triangle_document() -> Document {
    Document {
        roots: vec![Node {
            transform: LocalTransform::Matrix { m: identity_bits() },
            mesh: Some(0),
            children: vec![],
        }],
        meshes: vec![Mesh { name: None, primitives: vec![one_triangle_primitive()] }],
        materials: vec![],
        samplers: vec![],
        images: vec![],
    }
}

#[test]
fn single_triangle_round_trip() {
    let scene = Scene::from_document(single_triangle_document()).unwrap();
    assert_eq!(scene.tlas.instances.len(), 1);
    let instance = &scene.tlas.instances[0];
    assert_eq!(instance.transform.m, identity_bits());
    assert_eq!(instance.instance_offset, 0);
    assert_eq!(instance.mesh_index, 0);
    assert_eq!(scene.mesh_data.mesh_infos.len(), 1);
    let infos = &scene.mesh_data.mesh_infos[0];
    assert_eq!(infos.primitive_infos.len(), 1);
    assert_eq!(
        infos.primitive_infos[0],
        PrimitiveInfo {
            index_offset: 0,
            vertex_offset: 0,
            index_count: 3,
            vertex_count: 3,
            material_index: 0,
            color_offset: None,
            tex_coord_offset: None,
        }
    );
}

#[test]
fn index_buffer_holds_little_endian_u32() {
    let scene = Scene::from_document(single_triangle_document()).unwrap();
    let mut expected = Vec::new();
    for i in [0u32, 1, 2] {
        expected.extend_from_slice(&i.to_le_bytes());
    }
    assert_eq!(scene.index_buffer(), &expected);
    let mut vertex_expected = Vec::new();
    for bits in triangle_positions() {
        vertex_expected.extend_from_slice(&bits.to_le_bytes());
    }
    assert_eq!(scene.vertex_buffer(), &vertex_expected);
}

#[test]
fn u16_indices_widen_to_u32() {
    let mut doc = single_triangle_document();
    doc.meshes[0].primitives[0].indices = Some(IndexStream::U16(vec![2, 258, 65535]));
    let scene = Scene::from_document(doc).unwrap();
    let mut expected = Vec::new();
    for i in [2u32, 258, 65535] {
        expected.extend_from_slice(&i.to_le_bytes());
    }
    assert_eq!(scene.index_buffer(), &expected);
    assert_eq!(scene.mesh_data.mesh_infos[0].primitive_infos[0].index_count, 3);
}

#[test]
fn offsets_record_lengths_before_appending() {
    let mut doc = single_triangle_document();
    let second = Primitive {
        indices: Some(IndexStream::U32(vec![0, 2, 1])),
        positions: Some(PositionStream { components: 3, data: triangle_positions() }),
        colors: Some(vec![0x3F80_0000; 12]),
        tex_coords: None,
        material: None,
    };
    doc.meshes[0].primitives.push(second);
    let scene = Scene::from_document(doc).unwrap();
    let infos = &scene.mesh_data.mesh_infos[0].primitive_infos;
    assert_eq!(infos[0].index_offset, 0);
    assert_eq!(infos[0].vertex_offset, 0);
    assert_eq!(infos[1].index_offset, 12);
    assert_eq!(infos[1].vertex_offset, 36);
    // the first primitive supplies no colors, the second one does, and its
    // color offset is a real zero, distinct from "no offset"
    assert_eq!(infos[0].color_offset, None);
    assert_eq!(infos[1].color_offset, Some(0));
    assert_eq!(
        infos[1].index_offset + 4 * infos[1].index_count,
        scene.index_buffer().len() as u64
    );
}

#[test]
fn missing_indices_is_fatal() {
    let mut doc = single_triangle_document();
    doc.meshes[0].primitives[0].indices = None;
    assert!(matches!(Scene::from_document(doc), Err(SceneError::MissingIndices)));
}

#[test]
fn missing_positions_is_fatal() {
    let mut doc = single_triangle_document();
    doc.meshes[0].primitives[0].positions = None;
    assert!(matches!(Scene::from_document(doc), Err(SceneError::MissingPositions)));
}

#[test]
fn eight_bit_indices_are_rejected() {
    let mut doc = single_triangle_document();
    doc.meshes[0].primitives[0].indices = Some(IndexStream::U8(vec![0, 1, 2]));
    assert!(matches!(Scene::from_document(doc), Err(SceneError::UnsupportedIndexWidth)));
}

#[test]
fn non_vec3_positions_are_rejected() {
    let mut doc = single_triangle_document();
    doc.meshes[0].primitives[0].positions =
        Some(PositionStream { components: 2, data: vec![0; 6] });
    assert!(matches!(Scene::from_document(doc), Err(SceneError::UnsupportedPositionLayout)));
}

#[test]
fn mesh_reference_out_of_range_is_fatal() {
    let mut doc = single_triangle_document();
    doc.roots[0].mesh = Some(3);
    assert!(matches!(Scene::from_document(doc), Err(SceneError::InvalidMeshIndex)));
}

#[test]
fn optional_buffers_absent_without_streams() {
    let scene = Scene::from_document(single_triangle_document()).unwrap();
    assert!(scene.color_buffer().is_none());
    assert!(scene.tex_coord_buffer().is_none());
}

#[test]
fn optional_buffers_present_with_streams() {
    let mut doc = single_triangle_document();
    doc.meshes[0].primitives[0].colors = Some(vec![0x3F80_0000; 12]);
    doc.meshes[0].primitives[0].tex_coords = Some(vec![0; 6]);
    let scene = Scene::from_document(doc).unwrap();
    assert_eq!(scene.color_buffer().unwrap().len(), 48);
    assert_eq!(scene.tex_coord_buffer().unwrap().len(), 24);
    let info = &scene.mesh_data.mesh_infos[0].primitive_infos[0];
    assert_eq!(info.color_offset, Some(0));
    assert_eq!(info.tex_coord_offset, Some(0));
}
