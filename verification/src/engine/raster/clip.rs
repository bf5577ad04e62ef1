use vstd::prelude::*;

verus! {

/// One vertex that the near-plane clip of a triangle emits: a corner of the
/// triangle kept as it is, or the point where the edge from corner `.0` to
/// corner `.1` crosses the near plane.
#[derive(Clone, Copy, Debug, PartialEq, Eq, Structural)]
pub enum ClipEmit {
    Corner(usize),
    Crossing(usize, usize),
}

/// Compact storage for clipped polygon vertices (max 4 from a single plane clip).
pub struct SmallVec<T> {
    data: [Option<T>; 4],
    len: usize,
}

impl<T> SmallVec<T> {
    /// The stored vertices, in order.
    pub closed spec fn items(&self) -> Seq<T> {
        Seq::new(self.len as nat, |i: int| self.data@[i]->0)
    }

    /// At most four vertices, each slot below the length filled.
    pub closed spec fn wf(&self) -> bool {
        &&& self.len <= 4
        &&& forall|i: int| 0 <= i < self.len ==> (#[trigger] self.data@[i]) is Some
    }

    /// A well-formed list holds at most four vertices.
    pub proof fn lemma_capacity(&self)
        requires
            self.wf(),
        ensures
            self.items().len() <= 4,
    {
    }

    /// No vertices.
    pub fn new() -> (r: Self)
        ensures
            r.wf(),
            r.items() == Seq::<T>::empty(),
    {
        let r = SmallVec { data: [None, None, None, None], len: 0 };
        assert(r.items() =~= Seq::<T>::empty());
        r
    }

    /// Appends `v` while there is room for it; a fifth vertex is dropped.
    pub fn push(&mut self, v: T)
        requires
            old(self).wf(),
        ensures
            final(self).wf(),
            old(self).items().len() < 4 ==> final(self).items() == old(self).items().push(v),
            old(self).items().len() >= 4 ==> final(self).items() == old(self).items(),
    {
        if self.len < 4 {
            let ghost before = self.items();
            let i: usize = self.len;
            self.data[i] = Some(v);
            self.len = i + 1;
            assert(self.items() =~= before.push(v));
        }
    }

    /// The number of stored vertices: at most four.
    pub fn len(&self) -> (r: usize)
        requires
            self.wf(),
        ensures
            r == self.items().len(),
            r <= 4,
    {
        self.len
    }

    pub fn is_empty(&self) -> (r: bool)
        requires
            self.wf(),
        ensures
            r == (self.items().len() == 0),
    {
        self.len == 0
    }

    /// The vertex at `index`.
    pub fn get(&self, index: usize) -> (r: &T)
        requires
            self.wf(),
            index < self.items().len(),
        ensures
            *r == self.items()[index as int],
    {
        match &self.data[index] {
            Some(v) => v,
            None => vstd::pervasive::unreached(),
        }
    }

    /// The triangles of the fan from vertex 0 over the polygon: for 3
    /// vertices `(0, 1, 2)`, for 4 also `(0, 2, 3)`.
    pub fn triangles(&self) -> (r: TriangleIter)
        requires
            self.wf(),
        ensures
            r.position() == 0,
            r.total() == if self.items().len() >= 3 {
                self.items().len() - 2
            } else {
                0
            },
            r.total() <= 2,
    {
        TriangleIter { count: if self.len >= 3 { self.len - 2 } else { 0 }, current: 0 }
    }
}

/// Walks the triangles of a fan from vertex 0.
pub struct TriangleIter {
    count: usize,
    current: usize,
}

impl TriangleIter {
    /// How many triangles the fan has.
    pub closed spec fn total(&self) -> nat {
        self.count as nat
    }

    /// How many triangles have been handed out.
    pub closed spec fn position(&self) -> nat {
        self.current as nat
    }

    /// The next triangle `(0, k + 1, k + 2)`, for the `k`-th call, while
    /// there are triangles left.
    pub fn next(&mut self) -> (r: Option<(usize, usize, usize)>)
        requires
            old(self).position() <= old(self).total(),
            old(self).total() < usize::MAX - 2,
        ensures
            final(self).total() == old(self).total(),
            final(self).position() <= final(self).total(),
            old(self).position() < old(self).total() ==> {
                &&& r == Some(
                    (0usize, (old(self).position() + 1) as usize, (old(self).position() + 2) as usize),
                )
                &&& final(self).position() == old(self).position() + 1
            },
            old(self).position() >= old(self).total() ==> r is None && final(self).position()
                == old(self).position(),
    {
        if self.current < self.count {
            let tri = (0, self.current + 1, self.current + 2);
            self.current = self.current + 1;
            Some(tri)
        } else {
            None
        }
    }

    /// The number of triangles left to hand out.
    pub fn count(self) -> (r: usize)
        requires
            self.position() <= self.total(),
        ensures
            r == self.total() - self.position(),
    {
        self.count - self.current
    }
}

/// What Sutherland-Hodgman emits for the edge from corner `i` to the next
/// corner, given which corners lie inside the near plane.
pub open spec fn edge_emits(inside: Seq<bool>, i: int) -> Seq<ClipEmit> {
    let j = (i + 1) % 3;
    if inside[i] && inside[j] {
        seq![ClipEmit::Corner(j as usize)]
    } else if inside[i] && !inside[j] {
        seq![ClipEmit::Crossing(i as usize, j as usize)]
    } else if !inside[i] && inside[j] {
        seq![ClipEmit::Crossing(i as usize, j as usize), ClipEmit::Corner(j as usize)]
    } else {
        Seq::empty()
    }
}

/// The polygon that clipping a triangle against the near plane leaves, as
/// the vertices emitted along its three edges in turn.
pub open spec fn near_plane_emits(inside: Seq<bool>) -> Seq<ClipEmit> {
    edge_emits(inside, 0) + edge_emits(inside, 1) + edge_emits(inside, 2)
}

/// The number of corners inside.
pub open spec fn inside_count(inside: Seq<bool>) -> int {
    (if inside[0] { 1int } else { 0 }) + (if inside[1] { 1int } else { 0 }) + (if inside[2] {
        1int
    } else {
        0
    })
}

/// Clips a triangle against the near plane (Sutherland-Hodgman), given for
/// each corner whether it lies inside (`w + z >= 0` in clip space): the
/// vertices of the clipped polygon, in order.
pub fn near_plane_clip(inside: [bool; 3]) -> (r: SmallVec<ClipEmit>)
    ensures
        r.wf(),
        r.items() == near_plane_emits(inside@),
        forall|k: int|
            0 <= k < r.items().len() - 1 ==> boundary_position(#[trigger] r.items()[k]) < boundary_position(
                r.items()[k + 1],
            ),
{
    let mut out: SmallVec<ClipEmit> = SmallVec::new();
    let mut i: usize = 0;
    while i < 3
        invariant
            i <= 3,
            out.wf(),
            out.items().len() <= 2 * i,
            out.items().len() <= 4 || i == 3,
            i == 0 ==> out.items() == Seq::<ClipEmit>::empty(),
            i == 1 ==> out.items() == edge_emits(inside@, 0),
            i == 2 ==> out.items() == edge_emits(inside@, 0) + edge_emits(inside@, 1),
            i == 3 ==> out.items() == near_plane_emits(inside@),
        decreases 3 - i,
    {
        let ghost before = out.items();
        let j: usize = (i + 1) % 3;
        let cur = inside[i];
        let nxt = inside[j];
        if cur && nxt {
            out.push(ClipEmit::Corner(j));
        } else if cur && !nxt {
            out.push(ClipEmit::Crossing(i, j));
        } else if !cur && nxt {
            out.push(ClipEmit::Crossing(i, j));
            out.push(ClipEmit::Corner(j));
        }
        assert(out.items() =~= before + edge_emits(inside@, i as int));
        i = i + 1;
    }
    proof {
        lemma_near_plane_clip_walk(inside@);
    }
    out
}

/// A clipped triangle is empty, a triangle or a quad: nothing when no corner
/// is inside, four vertices when exactly two are, three otherwise; and every
/// crossing joins a corner inside to one outside.
pub proof fn lemma_near_plane_clip_shape(inside: Seq<bool>)
    requires
        inside.len() == 3,
    ensures
        inside_count(inside) == 0 ==> near_plane_emits(inside).len() == 0,
        inside_count(inside) == 1 ==> near_plane_emits(inside).len() == 3,
        inside_count(inside) == 2 ==> near_plane_emits(inside).len() == 4,
        inside_count(inside) == 3 ==> near_plane_emits(inside).len() == 3,
        forall|k: int|
            0 <= k < near_plane_emits(inside).len() ==> match #[trigger] near_plane_emits(inside)[k] {
                ClipEmit::Crossing(a, b) => a < 3 && b < 3 && inside[a as int] != inside[b as int],
                ClipEmit::Corner(a) => a < 3 && inside[a as int],
            },
{
    let e = near_plane_emits(inside);
    let e0 = edge_emits(inside, 0);
    let e1 = edge_emits(inside, 1);
    let e2 = edge_emits(inside, 2);
    assert forall|k: int| 0 <= k < e.len() implies match #[trigger] e[k] {
        ClipEmit::Crossing(a, b) => a < 3 && b < 3 && inside[a as int] != inside[b as int],
        ClipEmit::Corner(a) => a < 3 && inside[a as int],
    } by {
        if k < e0.len() {
            assert(e[k] == e0[k]);
        } else if k < e0.len() + e1.len() {
            assert(e[k] == e1[k - e0.len()]);
        } else {
            assert(e[k] == e2[k - e0.len() - e1.len()]);
        }
    }
}

/// Where a clip vertex lies on the triangle's boundary walked `0 -> 1 -> 2
/// -> 0`, starting just past corner 0: corner `a` at `2 a` (corner 0, where
/// the walk ends, at 6), a crossing on the edge leaving corner `a` at `2 a + 1`.
pub open spec fn boundary_position(e: ClipEmit) -> int {
    match e {
        ClipEmit::Corner(a) => if a == 0 {
            6
        } else {
            2 * a
        },
        ClipEmit::Crossing(a, _) => 2 * a + 1,
    }
}

/// The clipped polygon is the inside part of the triangle's boundary, in
/// boundary order: its vertices lie at strictly increasing positions along
/// the walk `0 -> 1 -> 2 -> 0`; it holds every corner that is inside and only
/// those, and the crossing of every edge whose ends lie on opposite sides and
/// only those, each crossing on the edge from a corner to the next one.
pub proof fn lemma_near_plane_clip_walk(inside: Seq<bool>)
    requires
        inside.len() == 3,
    ensures
        forall|k: int|
            0 <= k < near_plane_emits(inside).len() - 1 ==> boundary_position(
                #[trigger] near_plane_emits(inside)[k],
            ) < boundary_position(near_plane_emits(inside)[k + 1]),
        forall|k: int|
            0 <= k < near_plane_emits(inside).len() ==> match #[trigger] near_plane_emits(inside)[k] {
                ClipEmit::Crossing(a, b) => a < 3 && b == (a + 1) % 3 && inside[a as int] != inside[b as int],
                ClipEmit::Corner(a) => a < 3 && inside[a as int],
            },
        forall|a: int|
            0 <= a < 3 && #[trigger] inside[a] ==> near_plane_emits(inside).contains(
                ClipEmit::Corner(a as usize),
            ),
        forall|a: int|
            0 <= a < 3 && #[trigger] inside[a] != inside[(a + 1) % 3] ==> near_plane_emits(inside).contains(
                ClipEmit::Crossing(a as usize, ((a + 1) % 3) as usize),
            ),
{
    let e = near_plane_emits(inside);
    let c0 = ClipEmit::Corner(0);
    let c1 = ClipEmit::Corner(1);
    let c2 = ClipEmit::Corner(2);
    let x01 = ClipEmit::Crossing(0, 1);
    let x12 = ClipEmit::Crossing(1, 2);
    let x20 = ClipEmit::Crossing(2, 0);
    let (i0, i1, i2) = (inside[0], inside[1], inside[2]);
    if i0 && i1 && i2 {
        assert(e =~= seq![c1, c2, c0]);
    } else if i0 && i1 && !i2 {
        assert(e =~= seq![c1, x12, x20, c0]);
    } else if i0 && !i1 && i2 {
        assert(e =~= seq![x01, x12, c2, c0]);
    } else if i0 && !i1 && !i2 {
        assert(e =~= seq![x01, x20, c0]);
    } else if !i0 && i1 && i2 {
        assert(e =~= seq![x01, c1, c2, x20]);
    } else if !i0 && i1 && !i2 {
        assert(e =~= seq![x01, c1, x12]);
    } else if !i0 && !i1 && i2 {
        assert(e =~= seq![x12, c2, x20]);
    } else {
        assert(e =~= Seq::<ClipEmit>::empty());
    }
    assert forall|a: int| 0 <= a < 3 && #[trigger] inside[a] implies e.contains(ClipEmit::Corner(a as usize)) by {
        if a == 0 {
            assert(e[e.len() - 1] == c0 || e[2] == c0 || e[3] == c0);
        } else if a == 1 {
            assert(e[0] == c1 || e[1] == c1);
        } else {
            assert(e[1] == c2 || e[2] == c2);
        }
    }
    assert forall|a: int| 0 <= a < 3 && #[trigger] inside[a] != inside[(a + 1) % 3] implies e.contains(
        ClipEmit::Crossing(a as usize, ((a + 1) % 3) as usize),
    ) by {
        if a == 0 {
            assert(e[0] == x01);
        } else if a == 1 {
            assert(e[0] == x12 || e[1] == x12 || e[2] == x12);
        } else {
            assert(e[1] == x20 || e[2] == x20 || e[3] == x20);
        }
    }
}

} // verus!
