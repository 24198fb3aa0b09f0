use vstd::prelude::*;

verus! {

/// The fatal conditions that abort a whole load. Missing materials,
/// textures, samplers or optional attribute streams are not errors: they
/// resolve to documented defaults instead.
#[derive(Clone, Copy, Debug, PartialEq, Eq, Structural)]
pub enum SceneError {
    /// A primitive has no index stream; geometry without indices cannot be
    /// rendered or ray-traced.
    MissingIndices,
    /// A primitive has no position stream.
    MissingPositions,
    /// A primitive's index stream is narrower than 16 bits; only 16-bit and
    /// 32-bit unsigned indices are supported.
    UnsupportedIndexWidth,
    /// A primitive's position stream is not laid out as three components
    /// per vertex.
    UnsupportedPositionLayout,
    /// An image's pixel format is not one of the supported 8-bit layouts.
    UnsupportedPixelFormat,
    /// An image's pixel byte length does not match its declared width,
    /// height and format.
    ImageSizeMismatch,
    /// A node references a mesh index outside the document's mesh list,
    /// or the mesh list itself is too long for the 32-bit mesh slot that
    /// instance records carry.
    InvalidMeshIndex,
    /// A texture's sampler reference cannot be shifted into the 32-bit
    /// sampler slot encoding.
    InvalidTextureIndex,
    /// The total number of primitive references over the whole node
    /// hierarchy does not fit the 32-bit instance offset counter.
    PrimitiveCountOverflow,
}

impl SceneError {
    /// A short human-readable description of the error.
    pub fn message(&self) -> (m: &'static str) {
        match self {
            SceneError::MissingIndices => "primitive lacks a required index stream",
            SceneError::MissingPositions => "primitive lacks a required position stream",
            SceneError::UnsupportedIndexWidth => "index stream is narrower than 16 bits",
            SceneError::UnsupportedPositionLayout => "position stream is not three components per vertex",
            SceneError::UnsupportedPixelFormat => "unsupported pixel format",
            SceneError::ImageSizeMismatch => "image byte length does not match its dimensions",
            SceneError::InvalidMeshIndex => "node references a mesh index out of range",
            SceneError::InvalidTextureIndex => "sampler reference does not fit the shifted slot encoding",
            SceneError::PrimitiveCountOverflow => "too many primitive references for the instance counter",
        }
    }
}

} // verus!
