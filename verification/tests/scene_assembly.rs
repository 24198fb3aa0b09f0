use gltf_scene::{
    Document, ImageData, IndexStream, LocalTransform, MagFilter, Material, Mesh, MinFilter, Node,
    PixelFormat, PositionStream, Primitive, SamplerDesc, Scene, TextureRef, WrappingMode,
};

fn triangle(material: Option<u32>) -> Primitive {
    let floats: [f32; 9] = [0.0, 0.0, 0.0, 1.0, 0.0, 0.0, 0.0, 1.0, 0.0];
    Primitive {
        indices: Some(IndexStream::U16(vec![0, 1, 2])),
        positions: Some(PositionStream {
            components: 3,
            data: floats.iter().map(|v| v.to_bits()).collect(),
        }),
        colors: None,
        tex_coords: Some(vec![0u32; 6]),
        material,
    }
}

fn full_document() -> Document {
    let identity = glam::Mat4::IDENTITY.to_cols_array().map(f32::to_bits);
    let shifted = glam::Mat4::from_translation(glam::Vec3::new(1.0, 2.0, 3.0))
        .to_cols_array()
        .map(f32::to_bits);
    Document {
        roots: vec![Node {
            transform: LocalTransform::Matrix { m: identity },
            mesh: Some(0),
            children: vec![Node {
                transform: LocalTransform::Matrix { m: shifted },
                mesh: Some(1),
                children: vec![],
            }],
        }],
        meshes: vec![
            Mesh { name: Some("first".to_string()), primitives: vec![triangle(Some(0))] },
            Mesh { name: None, primitives: vec![triangle(None), triangle(Some(0))] },
        ],
        materials: vec![Material {
            base_color_factor: [0.5f32, 0.5, 0.5, 1.0].map(f32::to_bits),
            base_color_texture: Some(TextureRef { sampler: Some(0), image: 0 }),
            metallic_roughness_texture: None,
            metallic_factor: 0.3f32.to_bits(),
            roughness_factor: 0.7f32.to_bits(),
        }],
        samplers: vec![SamplerDesc {
            name: Some("nearest".to_string()),
            mag_filter: Some(MagFilter::Nearest),
            min_filter: Some(MinFilter::Nearest),
            wrap_s: WrappingMode::Repeat,
            wrap_t: WrappingMode::Repeat,
        }],
        images: vec![ImageData {
            width: 1,
            height: 1,
            format: PixelFormat::R8G8B8A8,
            pixels: vec![1, 2, 3, 4],
        }],
    }
}

#[test]
fn loading_twice_is_identical() {
    let s1 = Scene::from_document(full_document()).unwrap();
    let s2 = Scene::from_document(full_document()).unwrap();
    assert_eq!(s1.index_buffer(), s2.index_buffer());
    assert_eq!(s1.vertex_buffer(), s2.vertex_buffer());
    assert_eq!(s1.tex_coord_buffer(), s2.tex_coord_buffer());
    assert_eq!(s1.transform_buffer(), s2.transform_buffer());
    assert_eq!(s1.mesh_infos(), s2.mesh_infos());
    assert_eq!(s1.material_infos(), s2.material_infos());
    assert_eq!(s1.samplers(), s2.samplers());
    assert_eq!(s1.images(), s2.images());
    assert_eq!(s1.blases(), s2.blases());
    assert_eq!(s1.tlas.instances, s2.tlas.instances);
}

#[test]
fn blas_list_aligns_with_meshes() {
    let scene = Scene::from_document(full_document()).unwrap();
    assert_eq!(scene.blases().len(), 2);
    assert_eq!(scene.blases()[0].triangles.len(), 1);
    assert_eq!(scene.blases()[1].triangles.len(), 2);
    let info = &scene.mesh_infos()[1].primitive_infos[1];
    let geo = &scene.blases()[1].triangles[1];
    assert_eq!(geo.index_offset, info.index_offset);
    assert_eq!(geo.index_count, info.index_count);
    assert_eq!(geo.vertex_offset, info.vertex_offset);
    assert_eq!(geo.vertex_count, info.vertex_count);
    assert_eq!(geo.vertex_stride, 12);
}

#[test]
fn material_index_shifts_by_one() {
    let scene = Scene::from_document(full_document()).unwrap();
    let first = &scene.mesh_infos()[0].primitive_infos[0];
    assert_eq!(first.material_index, 1);
    let unassigned = &scene.mesh_infos()[1].primitive_infos[0];
    assert_eq!(unassigned.material_index, 0);
}

#[test]
fn mesh_names_carry_over() {
    let scene = Scene::from_document(full_document()).unwrap();
    assert_eq!(scene.mesh_infos()[0].name.as_deref(), Some("first"));
    assert_eq!(scene.mesh_infos()[1].name, None);
}

#[test]
fn device_images_are_converted() {
    let scene = Scene::from_document(full_document()).unwrap();
    assert_eq!(scene.images().len(), 1);
    assert_eq!(scene.images()[0].width, 1);
    assert_eq!(scene.images()[0].height, 1);
    assert_eq!(scene.images()[0].data, vec![3, 2, 1, 4]);
}

#[test]
fn samplers_include_default_then_real() {
    let scene = Scene::from_document(full_document()).unwrap();
    assert_eq!(scene.samplers().len(), 2);
    assert_eq!(scene.samplers()[1].name.as_deref(), Some("nearest"));
    // the material's sampler reference 0 addresses slot 1 after the shift
    let tex = scene.material_infos()[1].base_color_texture.unwrap();
    assert_eq!(tex.sampler_index, 1);
    assert_eq!(tex.image_index, 0);
}

#[test]
fn doc_is_kept_for_metadata() {
    let scene = Scene::from_document(full_document()).unwrap();
    assert_eq!(scene.doc().meshes.len(), 2);
    assert_eq!(scene.doc().meshes[0].name.as_deref(), Some("first"));
}

#[test]
fn empty_document_compiles_to_empty_scene() {
    let doc = Document {
        roots: vec![],
        meshes: vec![],
        materials: vec![],
        samplers: vec![],
        images: vec![],
    };
    let scene = Scene::from_document(doc).unwrap();
    assert!(scene.index_buffer().is_empty());
    assert!(scene.vertex_buffer().is_empty());
    assert!(scene.tlas.instances.is_empty());
    assert!(scene.mesh_infos().is_empty());
    // even an empty document keeps its synthetic defaults
    assert_eq!(scene.material_infos().len(), 1);
    assert_eq!(scene.samplers().len(), 1);
}

#[test]
fn oversized_sampler_reference_is_fatal() {
    let mut doc = full_document();
    doc.materials[0].base_color_texture = Some(TextureRef { sampler: Some(u32::MAX), image: 0 });
    assert!(matches!(Scene::from_document(doc), Err(gltf_scene::SceneError::InvalidTextureIndex)));
}

#[test]
fn primitive_count_overflow_is_fatal() {
    // one mesh of 100000 empty primitives referenced by 43000 nodes:
    // 4.3 billion primitive references overflow the 32-bit counter
    let empty_prim = || Primitive {
        indices: Some(IndexStream::U32(vec![])),
        positions: Some(PositionStream { components: 3, data: vec![] }),
        colors: None,
        tex_coords: None,
        material: None,
    };
    let mesh = Mesh { name: None, primitives: (0..100_000).map(|_| empty_prim()).collect() };
    let identity = glam::Mat4::IDENTITY.to_cols_array().map(f32::to_bits);
    let roots = (0..43_000)
        .map(|_| Node {
            transform: LocalTransform::Matrix { m: identity },
            mesh: Some(0),
            children: vec![],
        })
        .collect();
    let doc = Document {
        roots,
        meshes: vec![mesh],
        materials: vec![],
        samplers: vec![],
        images: vec![],
    };
    assert!(matches!(
        Scene::from_document(doc),
        Err(gltf_scene::SceneError::PrimitiveCountOverflow)
    ));
}

#[test]
fn error_messages_name_their_condition() {
    let mut doc = full_document();
    doc.meshes[0].primitives[0].indices = None;
    let err = match Scene::from_document(doc) {
        Ok(_) => panic!("load should have failed"),
        Err(e) => e,
    };
    assert_eq!(err.message(), "primitive lacks a required index stream");
}
