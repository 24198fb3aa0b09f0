use vstd::prelude::*;
use crate::transform::LocalTransform;

verus! {

/// An index stream of a primitive, as the document declares it. Only the
/// 16-bit and 32-bit widths are supported by the packer; an 8-bit stream is
/// rejected as a fatal error.
#[derive(Clone, Debug, PartialEq, Eq)]
pub enum IndexStream {
    U8(Vec<u8>),
    U16(Vec<u16>),
    U32(Vec<u32>),
}

/// A per-vertex position stream: `components` values per vertex, each a
/// 32-bit float given as its bit pattern. The packer accepts only
/// three-component layouts.
#[derive(Clone, Debug, PartialEq, Eq)]
pub struct PositionStream {
    pub components: usize,
    pub data: Vec<u32>,
}

/// One primitive of a mesh. Index and position streams are required for
/// packing; colors (four floats per vertex) and texture coordinates (two
/// floats per vertex) are optional, and their absence is not an error.
/// All float values are carried as bit patterns.
#[derive(Clone, Debug, PartialEq, Eq)]
pub struct Primitive {
    pub indices: Option<IndexStream>,
    pub positions: Option<PositionStream>,
    pub colors: Option<Vec<u32>>,
    pub tex_coords: Option<Vec<u32>>,
    pub material: Option<u32>,
}

/// One mesh of the document: a name and its primitives in document order.
#[derive(Clone, Debug, PartialEq, Eq)]
pub struct Mesh {
    pub name: Option<String>,
    pub primitives: Vec<Primitive>,
}

/// One node of the hierarchy: a local transform, an optional reference
/// into the document's mesh list, and child nodes. The document guarantees
/// the hierarchy is a forest (each node has one parent); nodes are owned
/// by their parent here, so that holds by construction.
pub struct Node {
    pub transform: LocalTransform,
    pub mesh: Option<usize>,
    pub children: Vec<Node>,
}

/// A reference from a material to a texture: an optional sampler index
/// (absence means the default sampler) and an image index into the
/// document's image list.
#[derive(Clone, Copy, Debug, PartialEq, Eq, Structural)]
pub struct TextureRef {
    pub sampler: Option<u32>,
    pub image: u32,
}

/// One material of the document, in the metallic-roughness model. Factors
/// are 32-bit floats carried as bit patterns.
#[derive(Clone, Copy, Debug, PartialEq, Eq)]
pub struct Material {
    pub base_color_factor: [u32; 4],
    pub base_color_texture: Option<TextureRef>,
    pub metallic_roughness_texture: Option<TextureRef>,
    pub metallic_factor: u32,
    pub roughness_factor: u32,
}

/// A document sampler's magnification filter.
#[derive(Clone, Copy, Debug, PartialEq, Eq, Structural)]
pub enum MagFilter {
    Nearest,
    Linear,
}

/// A document sampler's minification filter, including mipmap variants.
#[derive(Clone, Copy, Debug, PartialEq, Eq, Structural)]
pub enum MinFilter {
    Nearest,
    Linear,
    NearestMipmapNearest,
    LinearMipmapNearest,
    NearestMipmapLinear,
    LinearMipmapLinear,
}

/// A document sampler's wrapping mode along one axis.
#[derive(Clone, Copy, Debug, PartialEq, Eq, Structural)]
pub enum WrappingMode {
    ClampToEdge,
    MirroredRepeat,
    Repeat,
}

/// One sampler of the document. Absent filters resolve to linear
/// filtering.
#[derive(Clone, Debug, PartialEq, Eq)]
pub struct SamplerDesc {
    pub name: Option<String>,
    pub mag_filter: Option<MagFilter>,
    pub min_filter: Option<MinFilter>,
    pub wrap_s: WrappingMode,
    pub wrap_t: WrappingMode,
}

/// The pixel layout of a decoded document image. Only the 8-bit layouts
/// are supported by the converter; `Other` stands for any layout outside
/// them and is rejected as a fatal error.
#[derive(Clone, Copy, Debug, PartialEq, Eq, Structural)]
pub enum PixelFormat {
    R8,
    R8G8,
    R8G8B8,
    R8G8B8A8,
    B8G8R8,
    B8G8R8A8,
    Other,
}

/// One decoded image of the document: dimensions, pixel layout, and the
/// raw pixel bytes in that layout.
#[derive(Clone, Debug, PartialEq, Eq)]
pub struct ImageData {
    pub width: u32,
    pub height: u32,
    pub format: PixelFormat,
    pub pixels: Vec<u8>,
}

/// The document to compile: the root nodes of its default scene and its
/// mesh, material, sampler and image lists, all in document order. This is
/// everything the compiler reads of the source format.
pub struct Document {
    pub roots: Vec<Node>,
    pub meshes: Vec<Mesh>,
    pub materials: Vec<Material>,
    pub samplers: Vec<SamplerDesc>,
    pub images: Vec<ImageData>,
}

/// Whether every mesh reference in the subtree rooted at `n` lies inside a
/// mesh list of length `n_meshes`.
pub open spec fn node_meshes_in_range(n: Node, n_meshes: int) -> bool
    decreases n,
{
    &&& match n.mesh {
        Some(i) => i < n_meshes,
        None => true,
    }
    &&& forest_meshes_in_range(n.children@, n_meshes)
}

/// Whether every mesh reference in a forest of subtrees lies in range.
pub open spec fn forest_meshes_in_range(s: Seq<Node>, n_meshes: int) -> bool
    decreases s,
{
    forall|k: int| 0 <= k < s.len() ==> node_meshes_in_range(#[trigger] s[k], n_meshes)
}

/// Whether every mesh reference of the document's node hierarchy lies
/// inside its mesh list.
pub open spec fn document_meshes_in_range(doc: Document) -> bool {
    forest_meshes_in_range(doc.roots@, doc.meshes@.len() as int)
}

} // verus!
