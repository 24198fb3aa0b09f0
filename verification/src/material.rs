use vstd::prelude::*;
use crate::document::{Material, TextureRef};

verus! {

/// A resolved texture binding: a sampler slot and an image slot. Sampler
/// slot `0` is the synthetic default sampler, so a real sampler `i` is
/// stored as `i + 1`; image slots are the document's image indices
/// unshifted, since the image list has no default entry.
#[derive(Clone, Copy, Debug, PartialEq, Eq, Structural)]
pub struct Texture {
    pub sampler_index: u32,
    pub image_index: u32,
}

/// Per-material metadata, ready for a flat GPU table. Factors are 32-bit
/// float bit patterns. Entry `0` of the resolved list is a synthetic
/// neutral default — opaque white, no textures, full metallic and
/// roughness — so a primitive's `material_index` of `0` ("no material")
/// addresses it directly.
#[derive(Clone, Copy, Debug, PartialEq, Eq)]
pub struct MaterialInfo {
    pub base_color_factor: [u32; 4],
    pub base_color_texture: Option<Texture>,
    pub metallic_roughness_texture: Option<Texture>,
    pub metallic_factor: u32,
    pub roughness_factor: u32,
}

/// The resolved form of a texture reference: absent sampler means slot
/// `0`, a real sampler `i` becomes slot `i + 1`, and the image index is
/// kept unshifted.
pub open spec fn resolve_texture(t: TextureRef) -> Texture {
    Texture {
        sampler_index: match t.sampler {
            Some(i) => (i + 1) as u32,
            None => 0u32,
        },
        image_index: t.image,
    }
}

/// Whether a texture reference's sampler index leaves room for the `+ 1`
/// shift into a 32-bit slot.
pub open spec fn texture_ref_fits(t: TextureRef) -> bool {
    match t.sampler {
        Some(i) => i < 0xFFFF_FFFFu32,
        None => true,
    }
}

/// Whether both of a material's texture references fit the shifted
/// encoding.
pub open spec fn material_refs_fit(m: Material) -> bool {
    &&& match m.base_color_texture {
        Some(t) => texture_ref_fits(t),
        None => true,
    }
    &&& match m.metallic_roughness_texture {
        Some(t) => texture_ref_fits(t),
        None => true,
    }
}

/// Whether every material's texture references fit the shifted encoding.
pub open spec fn materials_fit(ms: Seq<Material>) -> bool {
    forall|k: int| 0 <= k < ms.len() ==> material_refs_fit(#[trigger] ms[k])
}

/// The bit pattern of `1.0` as a 32-bit float.
pub open spec fn one_bits() -> u32 {
    0x3F80_0000u32
}

/// Whether a metadata entry is the synthetic neutral default material:
/// opaque white base color, no textures, metallic and roughness factors
/// of one.
pub open spec fn is_default_material(m: MaterialInfo) -> bool {
    &&& m.base_color_factor@ == seq![one_bits(), one_bits(), one_bits(), one_bits()]
    &&& m.base_color_texture is None
    &&& m.metallic_roughness_texture is None
    &&& m.metallic_factor == one_bits()
    &&& m.roughness_factor == one_bits()
}

/// Whether a metadata entry resolves a document material: factors kept
/// bit for bit, each texture reference resolved by `resolve_texture`, and
/// absent textures kept absent.
pub open spec fn material_resolved(m: Material, info: MaterialInfo) -> bool {
    &&& info.base_color_factor@ == m.base_color_factor@
    &&& match (m.base_color_texture, info.base_color_texture) {
        (Option::None, Option::None) => true,
        (Option::Some(t), Option::Some(x)) => x == resolve_texture(t),
        _ => false,
    }
    &&& match (m.metallic_roughness_texture, info.metallic_roughness_texture) {
        (Option::None, Option::None) => true,
        (Option::Some(t), Option::Some(x)) => x == resolve_texture(t),
        _ => false,
    }
    &&& info.metallic_factor == m.metallic_factor
    &&& info.roughness_factor == m.roughness_factor
}

/// Resolves one texture reference into its slot pair.
fn resolve_texture_ref(t: &TextureRef) -> (r: Texture)
    requires
        texture_ref_fits(*t),
    ensures
        r == resolve_texture(*t),
{
    Texture {
        sampler_index: match t.sampler {
            Some(i) => i + 1,
            None => 0,
        },
        image_index: t.image,
    }
}

/// Resolves the document's materials into the flat metadata list: the
/// synthetic neutral default at entry `0`, then one resolved entry per
/// document material in document order. Materials and textures are
/// optional everywhere by convention, so this never fails.
pub fn gather_material_infos(materials: &Vec<Material>) -> (r: Vec<MaterialInfo>)
    requires
        materials_fit(materials@),
    ensures
        r@.len() == materials@.len() + 1,
        is_default_material(r@[0]),
        forall|k: int| 1 <= k < r@.len() ==> material_resolved(materials@[k - 1], #[trigger] r@[k]),
{
    let mut material_infos: Vec<MaterialInfo> = Vec::new();
    let default = MaterialInfo {
        base_color_factor: [0x3F80_0000u32, 0x3F80_0000u32, 0x3F80_0000u32, 0x3F80_0000u32],
        base_color_texture: None,
        metallic_roughness_texture: None,
        metallic_factor: 0x3F80_0000u32,
        roughness_factor: 0x3F80_0000u32,
    };
    proof {
        assert(default.base_color_factor@ =~= seq![one_bits(), one_bits(), one_bits(), one_bits()]);
    }
    material_infos.push(default);
    let mut k: usize = 0;
    while k < materials.len()
        invariant
            k <= materials@.len(),
            materials_fit(materials@),
            material_infos@.len() == k + 1,
            is_default_material(material_infos@[0]),
            forall|k2: int| 1 <= k2 < k + 1 ==> material_resolved(
                materials@[k2 - 1],
                #[trigger] material_infos@[k2],
            ),
        decreases materials@.len() - k,
    {
        let m = &materials[k];
        let base_color_texture = match &m.base_color_texture {
            Some(t) => Some(resolve_texture_ref(t)),
            None => None,
        };
        let metallic_roughness_texture = match &m.metallic_roughness_texture {
            Some(t) => Some(resolve_texture_ref(t)),
            None => None,
        };
        material_infos.push(MaterialInfo {
            base_color_factor: m.base_color_factor,
            base_color_texture,
            metallic_roughness_texture,
            metallic_factor: m.metallic_factor,
            roughness_factor: m.roughness_factor,
        });
        k = k + 1;
    }
    material_infos
}

/// Checks that every material's texture references fit the shifted
/// encoding.
pub fn materials_refs_ok(materials: &Vec<Material>) -> (b: bool)
    ensures
        b == materials_fit(materials@),
{
    let mut k: usize = 0;
    while k < materials.len()
        invariant
            k <= materials@.len(),
            forall|k2: int| 0 <= k2 < k ==> material_refs_fit(#[trigger] materials@[k2]),
        decreases materials@.len() - k,
    {
        let m = &materials[k];
        let base_ok = match &m.base_color_texture {
            Some(t) => match t.sampler {
                Some(i) => i < 0xFFFF_FFFFu32,
                None => true,
            },
            None => true,
        };
        let mr_ok = match &m.metallic_roughness_texture {
            Some(t) => match t.sampler {
                Some(i) => i < 0xFFFF_FFFFu32,
                None => true,
            },
            None => true,
        };
        if !(base_ok && mr_ok) {
            proof {
                assert(!material_refs_fit(materials@[k as int]));
                assert(!materials_fit(materials@));
            }
            return false;
        }
        k = k + 1;
    }
    true
}

} // verus!
