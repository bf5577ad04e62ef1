use vstd::prelude::*;
use glam::Mat4;
use crate::engine::linear::identity_matrix;
use crate::engine::raster::Vertex;
use crate::engine::render::geometry::Geometry;
use crate::engine::render::material::Material;

verus! {

/// A drawable: geometry, material and model transform, with an optional
/// morph target for vertex animation.
pub struct Mesh<S> {
    pub matrix: Mat4,
    pub geometry: Geometry<Vertex<S>>,
    pub material: Material<S>,
    /// Optional morph target for vertex animation.
    pub morph_target: Option<Geometry<Vertex<S>>>,
    /// Base geometry (stored for blending back from the morph).
    pub base_geometry: Option<Geometry<Vertex<S>>>,
}

/// The attributes of each vertex of a mesh, in order.
pub open spec fn vertex_data<S>(g: Geometry<Vertex<S>>) -> Seq<Seq<S>> {
    g.vertices@.map_values(|v: Vertex<S>| v.data@)
}

/// A geometry with the same vertex attributes and indices, in its own storage.
fn copy_geometry<S: Copy>(g: &Geometry<Vertex<S>>) -> (r: Geometry<Vertex<S>>)
    ensures
        vertex_data(r) == vertex_data(*g),
        r.indices@ == g.indices@,
{
    let mut vertices: Vec<Vertex<S>> = Vec::new();
    let mut i: usize = 0;
    while i < g.vertices.len()
        invariant
            i <= g.vertices@.len(),
            vertices@.len() == i,
            forall|k: int| 0 <= k < i ==> (#[trigger] vertices@[k]).data@ == g.vertices@[k].data@,
        decreases g.vertices@.len() - i,
    {
        vertices.push(g.vertices[i].duplicate());
        i = i + 1;
    }
    let mut indices: Vec<usize> = Vec::new();
    let mut j: usize = 0;
    while j < g.indices.len()
        invariant
            j <= g.indices@.len(),
            indices@ == g.indices@.take(j as int),
        decreases g.indices@.len() - j,
    {
        indices.push(g.indices[j]);
        assert(indices@ =~= g.indices@.take(j + 1));
        j = j + 1;
    }
    assert(indices@ =~= g.indices@);
    let r = Geometry { vertices, indices };
    assert(vertex_data(r) =~= vertex_data(*g));
    r
}

impl<S: Copy> Mesh<S> {
    /// A mesh at the identity transform, without a morph target.
    pub fn new(geometry: Geometry<Vertex<S>>, material: Material<S>) -> (r: Self)
        ensures
            r.geometry == geometry,
            r.material == material,
            r.morph_target is None,
            r.base_geometry is None,
    {
        Mesh {
            matrix: identity_matrix(),
            geometry,
            material,
            morph_target: None,
            base_geometry: None,
        }
    }

    /// Sets a morph target, saving a copy of the current geometry as the
    /// base to blend from.
    pub fn set_morph_target(&mut self, target: Geometry<Vertex<S>>)
        ensures
            final(self).morph_target == Some(target),
            final(self).base_geometry matches Some(b) && vertex_data(b) == vertex_data(
                old(self).geometry,
            ) && b.indices@ == old(self).geometry.indices@,
            final(self).geometry == old(self).geometry,
            final(self).material == old(self).material,
            final(self).matrix == old(self).matrix,
    {
        let base = copy_geometry(&self.geometry);
        self.base_geometry = Some(base);
        self.morph_target = Some(target);
    }
}

} // verus!
