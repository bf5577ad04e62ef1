use vstd::prelude::*;
use crate::engine::storage;

verus! {

/// Depth buffer for Z-buffering: one depth value per pixel, row-major.
///
/// `far` is the depth that an empty pixel holds (the renderer uses
/// positive infinity); `clear` and `resize` fill with it.
pub struct DepthBuffer<D> {
    width: usize,
    height: usize,
    far: D,
    buffer: Vec<D>,
}

impl<D: Copy> DepthBuffer<D> {
    /// Width in pixels.
    pub closed spec fn spec_width(&self) -> nat {
        self.width as nat
    }

    /// Height in pixels.
    pub closed spec fn spec_height(&self) -> nat {
        self.height as nat
    }

    /// The depth of an empty pixel.
    pub closed spec fn far(&self) -> D {
        self.far
    }

    /// All depths, row by row.
    pub closed spec fn cells(&self) -> Seq<D> {
        self.buffer@
    }

    /// The storage holds exactly one depth per pixel.
    pub closed spec fn wf(&self) -> bool {
        &&& self.width * self.height <= usize::MAX
        &&& self.buffer@.len() == self.width * self.height
    }

    /// The depth stored for pixel `(x, y)`.
    pub open spec fn depth_at(&self, x: int, y: int) -> D {
        self.cells()[storage::cell_index(self.spec_width(), x, y)]
    }

    /// A `width` by `height` buffer with every pixel at `far`.
    pub fn new(width: usize, height: usize, far: D) -> (r: Self)
        requires
            width * height <= usize::MAX,
        ensures
            r.wf(),
            r.spec_width() == width,
            r.spec_height() == height,
            r.far() == far,
            r.cells() == storage::filled((width * height) as nat, far),
    {
        DepthBuffer { width, height, far, buffer: storage::filled_vec(width * height, far) }
    }

    /// Width in pixels.
    pub fn width(&self) -> (r: usize)
        ensures
            r == self.spec_width(),
    {
        self.width
    }

    /// Height in pixels.
    pub fn height(&self) -> (r: usize)
        ensures
            r == self.spec_height(),
    {
        self.height
    }

    /// The depth at pixel `(x, y)`.
    pub fn get(&self, x: usize, y: usize) -> (r: D)
        requires
            self.wf(),
            x < self.spec_width(),
            y < self.spec_height(),
        ensures
            r == self.depth_at(x as int, y as int),
    {
        proof {
            storage::lemma_cell_in_grid(self.width as nat, self.height as nat, x as int, y as int);
        }
        self.buffer[y * self.width + x]
    }

    /// Stores `depth` at pixel `(x, y)`; every other pixel keeps its depth.
    pub fn set(&mut self, x: usize, y: usize, depth: D)
        requires
            old(self).wf(),
            x < old(self).spec_width(),
            y < old(self).spec_height(),
        ensures
            final(self).wf(),
            final(self).spec_width() == old(self).spec_width(),
            final(self).spec_height() == old(self).spec_height(),
            final(self).far() == old(self).far(),
            final(self).cells() == old(self).cells().update(
                storage::cell_index(old(self).spec_width(), x as int, y as int),
                depth,
            ),
            final(self).depth_at(x as int, y as int) == depth,
            forall|x2: int, y2: int|
                0 <= x2 < old(self).spec_width() && 0 <= y2 < old(self).spec_height() && (x2 != x
                    || y2 != y) ==> #[trigger] final(self).depth_at(x2, y2) == old(self).depth_at(
                    x2,
                    y2,
                ),
    {
        proof {
            storage::lemma_cell_in_grid(self.width as nat, self.height as nat, x as int, y as int);
        }
        let i = y * self.width + x;
        self.buffer.set(i, depth);
        proof {
            assert forall|x2: int, y2: int|
                0 <= x2 < old(self).spec_width() && 0 <= y2 < old(self).spec_height() && (x2 != x
                    || y2 != y) implies #[trigger] self.depth_at(x2, y2) == old(self).depth_at(
                x2,
                y2,
            ) by {
                storage::lemma_cell_in_grid(self.width as nat, self.height as nat, x2, y2);
                if storage::cell_index(self.width as nat, x2, y2) == storage::cell_index(
                    self.width as nat,
                    x as int,
                    y as int,
                ) {
                    storage::lemma_cell_index_injective(self.width as nat, x2, y2, x as int, y as int);
                }
            }
        }
    }

    /// Resets every pixel to `far`.
    pub fn clear(&mut self)
        requires
            old(self).wf(),
        ensures
            final(self).wf(),
            final(self).spec_width() == old(self).spec_width(),
            final(self).spec_height() == old(self).spec_height(),
            final(self).far() == old(self).far(),
            final(self).cells() == storage::filled(old(self).cells().len(), old(self).far()),
            forall|x: int, y: int|
                0 <= x < old(self).spec_width() && 0 <= y < old(self).spec_height()
                    ==> #[trigger] final(self).depth_at(x, y) == old(self).far(),
    {
        let far = self.far;
        storage::fill_all(&mut self.buffer, far);
        proof {
            assert forall|x: int, y: int|
                0 <= x < old(self).spec_width() && 0 <= y < old(self).spec_height() implies #[trigger] self.depth_at(
                x,
                y,
            ) == old(self).far() by {
                storage::lemma_cell_in_grid(self.width as nat, self.height as nat, x, y);
            }
        }
    }

    /// Changes the dimensions. When they differ from the current ones the
    /// storage is cut down or extended with `far` to the new pixel count,
    /// the way `Vec::resize` does; otherwise nothing changes.
    pub fn resize(&mut self, width: usize, height: usize)
        requires
            old(self).wf(),
            width * height <= usize::MAX,
        ensures
            final(self).wf(),
            final(self).far() == old(self).far(),
            final(self).spec_width() == width,
            final(self).spec_height() == height,
            (width == old(self).spec_width() && height == old(self).spec_height()) ==> final(self).cells()
                == old(self).cells(),
            (width != old(self).spec_width() || height != old(self).spec_height()) ==> final(self).cells()
                == storage::resized(old(self).cells(), (width * height) as nat, old(self).far()),
    {
        if self.width != width || self.height != height {
            self.width = width;
            self.height = height;
            let far = self.far;
            storage::resize_with(&mut self.buffer, width * height, far);
        }
    }
}

} // verus!
