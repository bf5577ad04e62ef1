use vstd::prelude::*;
use glam::Mat4;
use crate::engine::linear::identity_matrix;

verus! {

/// The projection and view transforms a scene is drawn with.
pub struct Camera {
    pub projection: Mat4,
    pub view: Mat4,
}

impl Camera {
    /// A camera with identity projection and view: both transforms are the
    /// same matrix.
    pub fn new() -> (r: Self)
        ensures
            r.projection == r.view,
    {
        let identity = identity_matrix();
        Camera { projection: identity, view: identity }
    }
}

} // verus!
