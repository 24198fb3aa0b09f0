//! Compiles a scene description (a document of nodes, meshes, materials,
//! images and samplers linked by indices) into a flat, GPU-ready resource
//! set: packed index/vertex/attribute byte buffers, per-mesh geometry
//! descriptors for bottom-level acceleration structures, instance records
//! carrying composed transforms, and per-material metadata tables.
//!
//! The crate holds the layout compiler itself: transform composition over
//! the node hierarchy, buffer packing with offset bookkeeping, material and
//! sampler index resolution with default-entry conventions, and pixel-format
//! normalisation. Reading a file and uploading the results to a device are
//! left to the embedding application.

pub mod bytes;
pub mod document;
pub mod error;
pub mod geometry;
pub mod instance;
pub mod material;
pub mod mesh_pack;
pub mod pixel;
pub mod sampler;
pub mod scene;
pub mod transform;

pub use document::{
    Document, ImageData, IndexStream, MagFilter, Material, Mesh, MinFilter, Node, PixelFormat,
    PositionStream, Primitive, SamplerDesc, TextureRef, WrappingMode,
};
pub use error::SceneError;
pub use geometry::{BlasDescriptor, TriangleGeometryDesc};
pub use instance::BlasInstance;
pub use material::{MaterialInfo, Texture};
pub use mesh_pack::{MeshData, MeshInfo, PrimitiveInfo};
pub use pixel::DeviceImage;
pub use sampler::{AddressMode, Filter, SamplerInfo};
pub use scene::{InstanceData, Scene, TlasDescriptor};
pub use transform::{LocalTransform, Transform};
