use vstd::prelude::*;

verus! {

/// Maximum number of vertices allowed per geometry to prevent unbounded allocation.
pub const MAX_VERTICES: usize = 100_000;

/// Maximum number of triangle indices allowed per geometry.
pub const MAX_INDICES: usize = 300_000;

/// A triangle mesh: vertices, and three indices into them per triangle.
pub struct Geometry<V> {
    pub vertices: Vec<V>,
    pub indices: Vec<usize>,
}

/// Why `Geometry::with_limits` refused a mesh.
#[derive(Clone, Copy, Debug, PartialEq, Eq, Structural)]
pub enum GeometryError {
    /// More than `MAX_VERTICES` vertices.
    TooManyVertices { count: usize },
    /// More than `MAX_INDICES` indices.
    TooManyIndices { count: usize },
    /// The index at `position` names no vertex; it is the first such one.
    IndexOutOfBounds { position: usize, index: usize, vertex_count: usize },
}

/// Every index names one of `n` vertices.
pub open spec fn indices_valid(indices: Seq<usize>, n: nat) -> bool {
    forall|i: int| 0 <= i < indices.len() ==> #[trigger] indices[i] < n
}

/// The indices of the triangles `t < count` whose `keep` flag is set, in order.
pub open spec fn kept_indices(indices: Seq<usize>, keep: Seq<bool>, count: nat) -> Seq<usize>
    decreases count,
{
    if count == 0 {
        Seq::empty()
    } else {
        let t = count - 1;
        let before = kept_indices(indices, keep, t as nat);
        if keep[t] {
            before + seq![indices[3 * t], indices[3 * t + 1], indices[3 * t + 2]]
        } else {
            before
        }
    }
}

/// The number of set flags among the first `count`.
pub open spec fn count_kept(keep: Seq<bool>, count: nat) -> nat
    decreases count,
{
    if count == 0 {
        0
    } else if keep[count - 1] {
        count_kept(keep, (count - 1) as nat) + 1
    } else {
        count_kept(keep, (count - 1) as nat)
    }
}

impl<V> Geometry<V> {
    /// An empty mesh.
    pub fn new() -> (r: Self)
        ensures
            r.vertices@.len() == 0,
            r.indices@.len() == 0,
    {
        Geometry { vertices: Vec::new(), indices: Vec::new() }
    }

    /// Builds a mesh after checking its resource limits and its indices:
    /// refused with the first limit exceeded (vertices, then indices), or
    /// else with the first index that names no vertex.
    pub fn with_limits(vertices: Vec<V>, indices: Vec<usize>) -> (r: Result<Self, GeometryError>)
        ensures
            vertices@.len() > MAX_VERTICES ==> r == Err::<Self, GeometryError>(
                GeometryError::TooManyVertices { count: vertices@.len() as usize },
            ),
            vertices@.len() <= MAX_VERTICES && indices@.len() > MAX_INDICES ==> r == Err::<
                Self,
                GeometryError,
            >(GeometryError::TooManyIndices { count: indices@.len() as usize }),
            vertices@.len() <= MAX_VERTICES && indices@.len() <= MAX_INDICES && indices_valid(
                indices@,
                vertices@.len(),
            ) ==> (r matches Ok(g) && g.vertices@ == vertices@ && g.indices@ == indices@),
            vertices@.len() <= MAX_VERTICES && indices@.len() <= MAX_INDICES && !indices_valid(
                indices@,
                vertices@.len(),
            ) ==> (r matches Err(GeometryError::IndexOutOfBounds { position, index, vertex_count }) && {
                &&& position < indices@.len()
                &&& index == indices@[position as int]
                &&& vertex_count == vertices@.len()
                &&& index >= vertex_count
                &&& indices_valid(indices@.take(position as int), vertices@.len())
            }),
    {
        if vertices.len() > MAX_VERTICES {
            return Err(GeometryError::TooManyVertices { count: vertices.len() });
        }
        if indices.len() > MAX_INDICES {
            return Err(GeometryError::TooManyIndices { count: indices.len() });
        }
        let n: usize = vertices.len();
        let mut i: usize = 0;
        while i < indices.len()
            invariant
                i <= indices@.len(),
                n == vertices@.len(),
                vertices@.len() <= MAX_VERTICES,
                indices@.len() <= MAX_INDICES,
                indices_valid(indices@.take(i as int), n as nat),
            decreases indices@.len() - i,
        {
            let idx: usize = indices[i];
            if idx >= n {
                return Err(GeometryError::IndexOutOfBounds { position: i, index: idx, vertex_count: n });
            }
            assert(indices@.take(i + 1) =~= indices@.take(i as int).push(idx));
            i = i + 1;
        }
        assert(indices@.take(i as int) =~= indices@);
        Ok(Geometry { vertices, indices })
    }

    /// The number of whole triangles.
    pub fn triangle_count(&self) -> (r: usize)
        ensures
            r == self.indices@.len() / 3,
    {
        self.indices.len() / 3
    }

    /// The number of vertices.
    pub fn vertex_count(&self) -> (r: usize)
        ensures
            r == self.vertices@.len(),
    {
        self.vertices.len()
    }

    /// Keeps the triangles whose flag in `keep` is set, in order; the
    /// vertices stay as they are.
    pub fn retain_triangles(self, keep: &Vec<bool>) -> (r: Self)
        requires
            keep@.len() == self.indices@.len() / 3,
        ensures
            r.vertices@ == self.vertices@,
            r.indices@ == kept_indices(self.indices@, keep@, keep@.len()),
    {
        let count: usize = keep.len();
        let len: usize = self.indices.len();
        let mut out: Vec<usize> = Vec::new();
        let mut t: usize = 0;
        while t < count
            invariant
                t <= count,
                count == keep@.len(),
                count == self.indices@.len() / 3,
                len == self.indices@.len(),
                out@ == kept_indices(self.indices@, keep@, t as nat),
            decreases count - t,
        {
            assert(3 * t + 3 <= self.indices@.len()) by (nonlinear_arith)
                requires
                    t < count,
                    count == self.indices@.len() / 3,
            ;
            if keep[t] {
                let i: usize = t * 3;
                out.push(self.indices[i]);
                out.push(self.indices[i + 1]);
                out.push(self.indices[i + 2]);
            }
            t = t + 1;
        }
        Geometry { vertices: self.vertices, indices: out }
    }
}

impl<V> Default for Geometry<V> {
    fn default() -> (r: Self)
        ensures
            r.vertices@.len() == 0,
            r.indices@.len() == 0,
    {
        Self::new()
    }
}

/// Keeping triangles keeps whole triangles, as many as there are set flags,
/// and keeps indices valid: a kept index is one of the original ones.
pub proof fn lemma_kept_indices(indices: Seq<usize>, keep: Seq<bool>, count: nat, n: nat)
    requires
        count <= keep.len(),
        3 * count <= indices.len(),
    ensures
        kept_indices(indices, keep, count).len() == 3 * count_kept(keep, count),
        count_kept(keep, count) <= count,
        indices_valid(indices, n) ==> indices_valid(kept_indices(indices, keep, count), n),
    decreases count,
{
    if count > 0 {
        let t = (count - 1) as nat;
        lemma_kept_indices(indices, keep, t, n);
        let before = kept_indices(indices, keep, t);
        let cur = kept_indices(indices, keep, count);
        if indices_valid(indices, n) {
            assert forall|i: int| 0 <= i < cur.len() implies #[trigger] cur[i] < n by {
                if i < before.len() {
                    assert(cur[i] == before[i]);
                } else {
                    assert(cur[i] == indices[3 * t + (i - before.len())]);
                }
            }
        }
    }
}

/// The triangle `t` of an index list, if its flag is set: its three indices,
/// else nothing.
pub open spec fn kept_triangle(indices: Seq<usize>, keep: Seq<bool>, t: int) -> Seq<usize> {
    if keep[t] {
        seq![indices[3 * t], indices[3 * t + 1], indices[3 * t + 2]]
    } else {
        Seq::empty()
    }
}

/// Keeping triangles walks the first `count` triangles in order and keeps
/// exactly those whose flag is set, each with its three indices as they were.
pub proof fn lemma_kept_indices_are_flagged_triangles(indices: Seq<usize>, keep: Seq<bool>, count: nat)
    ensures
        kept_indices(indices, keep, count) == Seq::new(count, |t: int| kept_triangle(indices, keep, t)).flatten(),
    decreases count,
{
    let f = |t: int| kept_triangle(indices, keep, t);
    if count == 0 {
        assert(Seq::new(count, f) =~= Seq::<Seq<usize>>::empty());
    } else {
        let c1 = (count - 1) as nat;
        lemma_kept_indices_are_flagged_triangles(indices, keep, c1);
        assert(Seq::new(count, f) =~= Seq::new(c1, f).push(f(c1 as int)));
        Seq::new(c1, f).lemma_flatten_push(f(c1 as int));
        if keep[c1 as int] {
            assert(kept_indices(indices, keep, count) == kept_indices(indices, keep, c1) + f(c1 as int));
        } else {
            assert(f(c1 as int) =~= Seq::<usize>::empty());
            assert(kept_indices(indices, keep, c1) + f(c1 as int) =~= kept_indices(indices, keep, c1));
        }
    }
}

} // verus!
