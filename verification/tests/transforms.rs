use gltf_scene::{
    Document, IndexStream, LocalTransform, Mesh, Node, PositionStream, Primitive, Scene,
};

fn bits_of(m: glam::Mat4) -> [u32; 16] {
    m.to_cols_array().map(f32::to_bits)
}

fn rotation_z_quarter() -> glam::Mat4 {
    glam::Mat4::from_rotation_z(std::f32::consts::FRAC_PI_2)
}

fn translation_xyz() -> glam::Mat4 {
    glam::Mat4::from_translation(glam::Vec3::new(1.5, -2.0, 3.25))
}

fn one_triangle_primitive() -> Primitive {
    let floats: [f32; 9] = [0.0, 0.0, 0.0, 1.0, 0.0, 0.0, 0.0, 1.0, 0.0];
    Primitive {
        indices: Some(IndexStream::U32(vec![0, 1, 2])),
        positions: Some(PositionStream {
            components: 3,
            data: floats.iter().map(|v| v.to_bits()).collect(),
        }),
        colors: None,
        tex_coords: None,
        material: None,
    }
}

#[test]
fn decomposed_transform_matches_reference_matrix() {
    let translation = [1.0f32, 2.0, 3.0];
    let rotation = [0.0f32, 0.0, std::f32::consts::FRAC_1_SQRT_2, std::f32::consts::FRAC_1_SQRT_2];
    let scale = [2.0f32, 2.0, 2.0];
    let doc = Document {
        roots: vec![Node {
            transform: LocalTransform::Decomposed {
                translation: translation.map(f32::to_bits),
                rotation: rotation.map(f32::to_bits),
                scale: scale.map(f32::to_bits),
            },
            mesh: Some(0),
            children: vec![],
        }],
        meshes: vec![Mesh { name: None, primitives: vec![one_triangle_primitive()] }],
        materials: vec![],
        samplers: vec![],
        images: vec![],
    };
    let scene = Scene::from_document(doc).unwrap();
    let expected = gltf::scene::Transform::Decomposed { translation, rotation, scale }.matrix();
    let mut expected_bits = [0u32; 16];
    for (c, col) in expected.iter().enumerate() {
        for (r, v) in col.iter().enumerate() {
            expected_bits[c * 4 + r] = v.to_bits();
        }
    }
    assert_eq!(scene.tlas.instances[0].transform.m, expected_bits);
}

#[test]
fn nested_nodes_compose_parent_before_local() {
    let parent_local = rotation_z_quarter();
    let child_local = translation_xyz();
    let doc = Document {
        roots: vec![Node {
            transform: LocalTransform::Matrix { m: bits_of(parent_local) },
            mesh: None,
            children: vec![Node {
                transform: LocalTransform::Matrix { m: bits_of(child_local) },
                mesh: Some(0),
                children: vec![],
            }],
        }],
        meshes: vec![Mesh { name: None, primitives: vec![one_triangle_primitive()] }],
        materials: vec![],
        samplers: vec![],
        images: vec![],
    };
    let scene = Scene::from_document(doc).unwrap();
    assert_eq!(scene.tlas.instances.len(), 1);
    assert_eq!(scene.tlas.instances[0].transform.m, bits_of(parent_local * child_local));
    // composition is order-sensitive, and the result differs from both inputs
    assert_ne!(bits_of(parent_local * child_local), bits_of(child_local * parent_local));
    assert_ne!(scene.tlas.instances[0].transform.m, bits_of(parent_local));
    assert_ne!(scene.tlas.instances[0].transform.m, bits_of(child_local));
}

#[test]
fn identity_transform_matches_reference_identity() {
    let t = gltf_scene::transform::identity_transform();
    assert_eq!(t.m, bits_of(glam::Mat4::IDENTITY));
}

#[test]
fn root_absolute_transform_is_its_local() {
    let local = rotation_z_quarter();
    let doc = Document {
        roots: vec![Node {
            transform: LocalTransform::Matrix { m: bits_of(local) },
            mesh: Some(0),
            children: vec![],
        }],
        meshes: vec![Mesh { name: None, primitives: vec![one_triangle_primitive()] }],
        materials: vec![],
        samplers: vec![],
        images: vec![],
    };
    let scene = Scene::from_document(doc).unwrap();
    assert_eq!(scene.tlas.instances[0].transform.m, bits_of(local));
}

#[test]
fn transform_buffer_packs_instance_transforms() {
    let local = translation_xyz();
    let doc = Document {
        roots: vec![Node {
            transform: LocalTransform::Matrix { m: bits_of(local) },
            mesh: Some(0),
            children: vec![],
        }],
        meshes: vec![Mesh { name: None, primitives: vec![one_triangle_primitive()] }],
        materials: vec![],
        samplers: vec![],
        images: vec![],
    };
    let scene = Scene::from_document(doc).unwrap();
    let mut expected = Vec::new();
    for bits in bits_of(local) {
        expected.extend_from_slice(&bits.to_le_bytes());
    }
    assert_eq!(scene.transform_buffer(), &expected);
}

#[test]
fn counter_advances_by_primitive_counts() {
    // two meshes: the first with two primitives, the second with one;
    // three nodes reference them, the second mesh twice
    let two_prims = Mesh {
        name: None,
        primitives: vec![one_triangle_primitive(), one_triangle_primitive()],
    };
    let one_prim = Mesh { name: None, primitives: vec![one_triangle_primitive()] };
    let node = |mesh: usize| Node {
        transform: LocalTransform::Matrix { m: bits_of(glam::Mat4::IDENTITY) },
        mesh: Some(mesh),
        children: vec![],
    };
    let doc = Document {
        roots: vec![node(0), node(1), node(1)],
        meshes: vec![two_prims, one_prim],
        materials: vec![],
        samplers: vec![],
        images: vec![],
    };
    let scene = Scene::from_document(doc).unwrap();
    let offsets: Vec<u32> = scene.tlas.instances.iter().map(|i| i.instance_offset).collect();
    // 2 primitives, then 1, then 1: offsets 0, 2, 3; total 4
    assert_eq!(offsets, vec![0, 2, 3]);
    let mesh_indices: Vec<u32> = scene.tlas.instances.iter().map(|i| i.mesh_index).collect();
    assert_eq!(mesh_indices, vec![0, 1, 1]);
}

#[test]
fn traversal_is_depth_first_pre_order() {
    let ident = bits_of(glam::Mat4::IDENTITY);
    let leaf = |mesh: usize| Node {
        transform: LocalTransform::Matrix { m: ident },
        mesh: Some(mesh),
        children: vec![],
    };
    // root(mesh 0) -> [child(mesh 1) -> [grandchild(mesh 2)], child(mesh 3)]
    let doc = Document {
        roots: vec![Node {
            transform: LocalTransform::Matrix { m: ident },
            mesh: Some(0),
            children: vec![
                Node {
                    transform: LocalTransform::Matrix { m: ident },
                    mesh: Some(1),
                    children: vec![leaf(2)],
                },
                leaf(3),
            ],
        }],
        meshes: vec![
            Mesh { name: None, primitives: vec![one_triangle_primitive()] },
            Mesh { name: None, primitives: vec![one_triangle_primitive()] },
            Mesh { name: None, primitives: vec![one_triangle_primitive()] },
            Mesh { name: None, primitives: vec![one_triangle_primitive()] },
        ],
        materials: vec![],
        samplers: vec![],
        images: vec![],
    };
    let scene = Scene::from_document(doc).unwrap();
    let mesh_indices: Vec<u32> = scene.tlas.instances.iter().map(|i| i.mesh_index).collect();
    assert_eq!(mesh_indices, vec![0, 1, 2, 3]);
    let offsets: Vec<u32> = scene.tlas.instances.iter().map(|i| i.instance_offset).collect();
    assert_eq!(offsets, vec![0, 1, 2, 3]);
}
