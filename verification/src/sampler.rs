use vstd::prelude::*;
use crate::document::{MagFilter, MinFilter, SamplerDesc, WrappingMode};
use crate::mesh_pack::name_eq;

verus! {

/// A device-level texel filter. Mipmap selection is collapsed away: a
/// minification filter keeps only its texel-filter half.
#[derive(Clone, Copy, Debug, PartialEq, Eq, Structural)]
pub enum Filter {
    Nearest,
    Linear,
}

/// A device-level wrapping mode along one texture axis.
#[derive(Clone, Copy, Debug, PartialEq, Eq, Structural)]
pub enum AddressMode {
    ClampToEdge,
    MirroredRepeat,
    Repeat,
}

/// One resolved sampler, ready for device creation. Entry `0` of the
/// resolved list is a synthetic default — linear filtering, clamp to edge
/// on both axes — so a texture's `sampler_index` of `0` ("no sampler")
/// addresses it directly.
#[derive(Clone, Debug, PartialEq, Eq)]
pub struct SamplerInfo {
    pub name: Option<String>,
    pub mag_filter: Filter,
    pub min_filter: Filter,
    pub address_mode_u: AddressMode,
    pub address_mode_v: AddressMode,
}

/// The resolved magnification filter: absent means linear.
pub open spec fn mag_filter_resolved(f: Option<MagFilter>) -> Filter {
    match f {
        Some(MagFilter::Nearest) => Filter::Nearest,
        Some(MagFilter::Linear) => Filter::Linear,
        None => Filter::Linear,
    }
}

/// The resolved minification filter: absent means linear, and mipmap
/// variants keep their texel-filter half.
pub open spec fn min_filter_resolved(f: Option<MinFilter>) -> Filter {
    match f {
        Some(MinFilter::Nearest) => Filter::Nearest,
        Some(MinFilter::Linear) => Filter::Linear,
        Some(MinFilter::NearestMipmapNearest) => Filter::Nearest,
        Some(MinFilter::LinearMipmapNearest) => Filter::Linear,
        Some(MinFilter::NearestMipmapLinear) => Filter::Nearest,
        Some(MinFilter::LinearMipmapLinear) => Filter::Linear,
        None => Filter::Linear,
    }
}

/// The resolved wrapping mode of one axis.
pub open spec fn address_mode_resolved(w: WrappingMode) -> AddressMode {
    match w {
        WrappingMode::ClampToEdge => AddressMode::ClampToEdge,
        WrappingMode::MirroredRepeat => AddressMode::MirroredRepeat,
        WrappingMode::Repeat => AddressMode::Repeat,
    }
}

/// Whether a sampler entry carries the default sampler's label.
pub open spec fn default_sampler_name(s: SamplerInfo) -> bool {
    s.name matches Some(n) && n@ == "default sampler"@
}

/// Whether a resolved sampler filters linearly and clamps to edge on both
/// axes, as the synthetic default sampler always does.
pub open spec fn is_default_sampler(s: SamplerInfo) -> bool {
    &&& s.mag_filter == Filter::Linear
    &&& s.min_filter == Filter::Linear
    &&& s.address_mode_u == AddressMode::ClampToEdge
    &&& s.address_mode_v == AddressMode::ClampToEdge
}

/// Whether a resolved sampler resolves a document sampler: name kept,
/// filters and wrapping modes mapped as the resolution functions state.
pub open spec fn sampler_resolved(d: SamplerDesc, s: SamplerInfo) -> bool {
    &&& name_eq(s.name, d.name)
    &&& s.mag_filter == mag_filter_resolved(d.mag_filter)
    &&& s.min_filter == min_filter_resolved(d.min_filter)
    &&& s.address_mode_u == address_mode_resolved(d.wrap_s)
    &&& s.address_mode_v == address_mode_resolved(d.wrap_t)
}

/// Resolves the document's samplers: the synthetic default sampler at
/// entry `0` — linear filtering, clamp to edge, independent of document
/// content — then one resolved entry per document sampler in document
/// order. Samplers are optional by convention, so this never fails.
pub fn create_samlers(samplers: &Vec<SamplerDesc>) -> (r: Vec<SamplerInfo>)
    ensures
        r@.len() == samplers@.len() + 1,
        is_default_sampler(r@[0]),
        default_sampler_name(r@[0]),
        forall|k: int| 1 <= k < r@.len() ==> sampler_resolved(samplers@[k - 1], #[trigger] r@[k]),
{
    let mut infos: Vec<SamplerInfo> = Vec::new();
    infos.push(SamplerInfo {
        name: Some("default sampler".to_owned()),
        mag_filter: Filter::Linear,
        min_filter: Filter::Linear,
        address_mode_u: AddressMode::ClampToEdge,
        address_mode_v: AddressMode::ClampToEdge,
    });
    let mut k: usize = 0;
    while k < samplers.len()
        invariant
            k <= samplers@.len(),
            infos@.len() == k + 1,
            is_default_sampler(infos@[0]),
            default_sampler_name(infos@[0]),
            forall|k2: int| 1 <= k2 < k + 1 ==> sampler_resolved(
                samplers@[k2 - 1],
                #[trigger] infos@[k2],
            ),
        decreases samplers@.len() - k,
    {
        let d = &samplers[k];
        let name = match &d.name {
            Some(s) => Some(s.clone()),
            None => None,
        };
        let mag_filter = match d.mag_filter {
            Some(MagFilter::Nearest) => Filter::Nearest,
            Some(MagFilter::Linear) => Filter::Linear,
            None => Filter::Linear,
        };
        let min_filter = match d.min_filter {
            Some(MinFilter::Nearest) => Filter::Nearest,
            Some(MinFilter::Linear) => Filter::Linear,
            Some(MinFilter::NearestMipmapNearest) => Filter::Nearest,
            Some(MinFilter::LinearMipmapNearest) => Filter::Linear,
            Some(MinFilter::NearestMipmapLinear) => Filter::Nearest,
            Some(MinFilter::LinearMipmapLinear) => Filter::Linear,
            None => Filter::Linear,
        };
        let address_mode_u = match d.wrap_s {
            WrappingMode::ClampToEdge => AddressMode::ClampToEdge,
            WrappingMode::MirroredRepeat => AddressMode::MirroredRepeat,
            WrappingMode::Repeat => AddressMode::Repeat,
        };
        let address_mode_v = match d.wrap_t {
            WrappingMode::ClampToEdge => AddressMode::ClampToEdge,
            WrappingMode::MirroredRepeat => AddressMode::MirroredRepeat,
            WrappingMode::Repeat => AddressMode::Repeat,
        };
        infos.push(SamplerInfo { name, mag_filter, min_filter, address_mode_u, address_mode_v });
        k = k + 1;
    }
    infos
}

} // verus!
