use vstd::prelude::*;
use glam::Mat4;

verus! {

/// glam's 4x4 matrix, carried through as an opaque value.
#[verifier::external_type_specification]
#[verifier::external_body]
pub struct ExMat4(Mat4);

/// The identity matrix.
///
/// Trusted: returns glam's `Mat4::IDENTITY` constant. The matrix is opaque
/// here, so nothing is claimed of its entries.
#[verifier::external_body]
pub fn identity_matrix() -> Mat4 {
    Mat4::IDENTITY
}

} // verus!
