use gltf_scene::material::gather_material_infos;
use gltf_scene::sampler::create_samlers;
use gltf_scene::{
    AddressMode, Filter, MagFilter, Material, MinFilter, SamplerDesc, TextureRef, WrappingMode,
};

fn plain_material() -> Material {
    Material {
        base_color_factor: [0.25f32, 0.5, 0.75, 1.0].map(f32::to_bits),
        base_color_texture: None,
        metallic_roughness_texture: None,
        metallic_factor: 0.1f32.to_bits(),
        roughness_factor: 0.9f32.to_bits(),
    }
}

#[test]
fn default_material_is_neutral() {
    let infos = gather_material_infos(&vec![plain_material()]);
    assert_eq!(infos.len(), 2);
    let default = &infos[0];
    assert_eq!(default.base_color_factor, [1.0f32; 4].map(f32::to_bits));
    assert!(default.base_color_texture.is_none());
    assert!(default.metallic_roughness_texture.is_none());
    assert_eq!(default.metallic_factor, 1.0f32.to_bits());
    assert_eq!(default.roughness_factor, 1.0f32.to_bits());
}

#[test]
fn default_material_ignores_document_content() {
    let loud = Material {
        base_color_factor: [0.0f32; 4].map(f32::to_bits),
        base_color_texture: Some(TextureRef { sampler: Some(4), image: 7 }),
        metallic_roughness_texture: Some(TextureRef { sampler: None, image: 1 }),
        metallic_factor: 0.0f32.to_bits(),
        roughness_factor: 0.0f32.to_bits(),
    };
    let with_loud = gather_material_infos(&vec![loud]);
    let with_none = gather_material_infos(&vec![]);
    assert_eq!(with_loud[0], with_none[0]);
}

#[test]
fn material_factors_survive_bit_for_bit() {
    let infos = gather_material_infos(&vec![plain_material()]);
    let m = &infos[1];
    assert_eq!(m.base_color_factor, [0.25f32, 0.5, 0.75, 1.0].map(f32::to_bits));
    assert_eq!(m.metallic_factor, 0.1f32.to_bits());
    assert_eq!(m.roughness_factor, 0.9f32.to_bits());
    assert!(m.base_color_texture.is_none());
}

#[test]
fn sampler_references_shift_by_one() {
    let mut m = plain_material();
    m.base_color_texture = Some(TextureRef { sampler: Some(2), image: 5 });
    m.metallic_roughness_texture = Some(TextureRef { sampler: None, image: 9 });
    let infos = gather_material_infos(&vec![m]);
    let base = infos[1].base_color_texture.unwrap();
    // a real sampler index shifts by one; the image index stays unshifted
    assert_eq!(base.sampler_index, 3);
    assert_eq!(base.image_index, 5);
    let mr = infos[1].metallic_roughness_texture.unwrap();
    // no sampler resolves to the default slot zero
    assert_eq!(mr.sampler_index, 0);
    assert_eq!(mr.image_index, 9);
}

#[test]
fn default_sampler_is_linear_clamping() {
    let infos = create_samlers(&vec![]);
    assert_eq!(infos.len(), 1);
    let d = &infos[0];
    assert_eq!(d.mag_filter, Filter::Linear);
    assert_eq!(d.min_filter, Filter::Linear);
    assert_eq!(d.address_mode_u, AddressMode::ClampToEdge);
    assert_eq!(d.address_mode_v, AddressMode::ClampToEdge);
    assert_eq!(d.name.as_deref(), Some("default sampler"));
}

#[test]
fn default_sampler_ignores_document_content() {
    let loud = SamplerDesc {
        name: Some("loud".to_string()),
        mag_filter: Some(MagFilter::Nearest),
        min_filter: Some(MinFilter::NearestMipmapNearest),
        wrap_s: WrappingMode::Repeat,
        wrap_t: WrappingMode::MirroredRepeat,
    };
    let with_loud = create_samlers(&vec![loud]);
    let with_none = create_samlers(&vec![]);
    assert_eq!(with_loud[0], with_none[0]);
}

#[test]
fn sampler_filters_and_wraps_resolve() {
    let d = SamplerDesc {
        name: Some("s".to_string()),
        mag_filter: Some(MagFilter::Nearest),
        min_filter: Some(MinFilter::LinearMipmapNearest),
        wrap_s: WrappingMode::Repeat,
        wrap_t: WrappingMode::MirroredRepeat,
    };
    let infos = create_samlers(&vec![d]);
    assert_eq!(infos.len(), 2);
    let s = &infos[1];
    assert_eq!(s.name.as_deref(), Some("s"));
    assert_eq!(s.mag_filter, Filter::Nearest);
    // a mipmap variant keeps only its texel-filter half
    assert_eq!(s.min_filter, Filter::Linear);
    assert_eq!(s.address_mode_u, AddressMode::Repeat);
    assert_eq!(s.address_mode_v, AddressMode::MirroredRepeat);
}

#[test]
fn absent_filters_resolve_to_linear() {
    let d = SamplerDesc {
        name: None,
        mag_filter: None,
        min_filter: None,
        wrap_s: WrappingMode::ClampToEdge,
        wrap_t: WrappingMode::ClampToEdge,
    };
    let infos = create_samlers(&vec![d]);
    assert_eq!(infos[1].mag_filter, Filter::Linear);
    assert_eq!(infos[1].min_filter, Filter::Linear);
}
