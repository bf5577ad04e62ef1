use vstd::prelude::*;
use glam::Mat4;
use crate::engine::linear::identity_matrix;

verus! {

/// A placed object: its model transform.
pub struct Object3D {
    pub matrix: Mat4,
}

impl Object3D {
    /// An object at the identity transform.
    pub fn new() -> Self {
        Object3D { matrix: identity_matrix() }
    }
}

} // verus!
