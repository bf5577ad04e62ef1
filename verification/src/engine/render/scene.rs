use vstd::prelude::*;
use glam::Mat4;
use crate::engine::linear::identity_matrix;
use crate::engine::render::mesh::Mesh;

verus! {

/// Maximum number of meshes allowed in a scene.
pub const MAX_MESHES: usize = 1_000;

/// The meshes to draw, under a common transform.
pub struct Scene<S> {
    pub matrix: Mat4,
    pub meshes: Vec<Mesh<S>>,
}

impl<S: Copy> Scene<S> {
    /// An empty scene at the identity transform.
    pub fn new() -> (r: Self)
        ensures
            r.meshes@.len() == 0,
    {
        Scene { matrix: identity_matrix(), meshes: Vec::new() }
    }

    /// Adds `mesh` unless the scene already holds `MAX_MESHES` meshes;
    /// tells whether it was added.
    pub fn add_mesh(&mut self, mesh: Mesh<S>) -> (added: bool)
        ensures
            added == (old(self).meshes@.len() < MAX_MESHES),
            added ==> final(self).meshes@ == old(self).meshes@.push(mesh),
            !added ==> final(self).meshes@ == old(self).meshes@,
            final(self).matrix == old(self).matrix,
            old(self).meshes@.len() <= MAX_MESHES ==> final(self).meshes@.len() <= MAX_MESHES,
    {
        if self.meshes.len() >= MAX_MESHES {
            return false;
        }
        self.meshes.push(mesh);
        true
    }
}

impl<S: Copy> Default for Scene<S> {
    fn default() -> (r: Self)
        ensures
            r.meshes@.len() == 0,
    {
        Self::new()
    }
}

} // verus!
