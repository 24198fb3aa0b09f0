use vstd::prelude::*;

verus! {

/// A 4x4 affine transform, stored as the IEEE-754 bit patterns of its
/// `f32` entries in column-major order. Holding bit patterns keeps the
/// matrix entries exact while they are carried through the compiler; all
/// floating-point arithmetic on them is delegated to the `glam` crate.
#[derive(Clone, Copy, Debug, PartialEq, Eq)]
pub struct Transform {
    pub m: [u32; 16],
}

/// A node's local transform as the document states it: either a full
/// column-major 4x4 matrix, or decomposed translation / rotation / scale
/// parts (the rotation is an `[x, y, z, w]` quaternion). All entries are
/// `f32` bit patterns.
#[derive(Clone, Copy, Debug, PartialEq, Eq)]
pub enum LocalTransform {
    Matrix { m: [u32; 16] },
    Decomposed { translation: [u32; 3], rotation: [u32; 4], scale: [u32; 3] },
}

/// The bit patterns of the composed matrix `a * b`, for column-major
/// matrices `a` and `b` given as bit patterns.
pub uninterp spec fn mat_product(a: Seq<u32>, b: Seq<u32>) -> Seq<u32>;

/// The bit patterns of the matrix `translation * rotation * scale` derived
/// from decomposed transform parts.
pub uninterp spec fn trs_matrix(translation: Seq<u32>, rotation: Seq<u32>, scale: Seq<u32>) -> Seq<u32>;

/// The bit patterns of the identity matrix (`1.0f32` is `0x3F80_0000`).
pub open spec fn identity_bits() -> Seq<u32> {
    seq![
        0x3F80_0000u32, 0u32, 0u32, 0u32,
        0u32, 0x3F80_0000u32, 0u32, 0u32,
        0u32, 0u32, 0x3F80_0000u32, 0u32,
        0u32, 0u32, 0u32, 0x3F80_0000u32,
    ]
}

/// The identity transform.
pub fn identity_transform() -> (t: Transform)
    ensures
        t.m@ == identity_bits(),
{
    let t = Transform {
        m: [
            0x3F80_0000u32, 0, 0, 0,
            0, 0x3F80_0000u32, 0, 0,
            0, 0, 0x3F80_0000u32, 0,
            0, 0, 0, 0x3F80_0000u32,
        ],
    };
    proof {
        assert(t.m@ =~= identity_bits());
    }
    t
}

/// Relies on `glam::Mat4`: `from_cols_array` and `to_cols_array` convert
/// between a column-major 16-entry array and a matrix without reordering,
/// and `Mul` composes the two matrices. The product is a pure function of
/// the two operands' bit patterns. Relies on `bytemuck::cast` only to
/// reinterpret the arrays' bit patterns between entry types.
#[verifier::external_body]
pub(crate) fn mat_mul(a: &Transform, b: &Transform) -> (r: Transform)
    ensures
        r.m@ == mat_product(a.m@, b.m@),
{
    let ma = glam::Mat4::from_cols_array(&bytemuck::cast(a.m));
    let mb = glam::Mat4::from_cols_array(&bytemuck::cast(b.m));
    Transform { m: bytemuck::cast((ma * mb).to_cols_array()) }
}

/// Relies on `gltf::scene::Transform::matrix`: for the `Matrix` variant it
/// returns the stored matrix unchanged, and for the `Decomposed` variant it
/// computes `translation * rotation * scale`, a pure function of the three
/// parts' bit patterns. Relies on `bytemuck::cast` only to reinterpret the
/// arrays' bit patterns between entry types.
#[verifier::external_body]
pub(crate) fn local_matrix(t: &LocalTransform) -> (r: Transform)
    ensures
        match t {
            LocalTransform::Matrix { m } => r.m@ == m@,
            LocalTransform::Decomposed { translation, rotation, scale } =>
                r.m@ == trs_matrix(translation@, rotation@, scale@),
        },
{
    let g = match t {
        LocalTransform::Matrix { m } => gltf::scene::Transform::Matrix {
            matrix: bytemuck::cast(*m),
        },
        LocalTransform::Decomposed { translation, rotation, scale } => {
            gltf::scene::Transform::Decomposed {
                translation: bytemuck::cast(*translation),
                rotation: bytemuck::cast(*rotation),
                scale: bytemuck::cast(*scale),
            }
        },
    };
    Transform { m: bytemuck::cast(g.matrix()) }
}

/// The bit patterns of a local transform's matrix form, as `local_matrix`
/// yields them.
pub open spec fn local_matrix_bits(t: LocalTransform) -> Seq<u32> {
    match t {
        LocalTransform::Matrix { m } => m@,
        LocalTransform::Decomposed { translation, rotation, scale } =>
            trs_matrix(translation@, rotation@, scale@),
    }
}

} // verus!
