use vstd::prelude::*;
use crate::engine::storage;

verus! {

/// An RGBA color buffer or texture: four channels per pixel, interleaved,
/// pixels row by row.
pub struct Texture<S> {
    width: usize,
    height: usize,
    data: Vec<S>,
}

/// The four channels of pixel number `p` in interleaved storage.
pub open spec fn pixel_channels<S>(cells: Seq<S>, p: int) -> Seq<S> {
    cells.subrange(4 * p, 4 * p + 4)
}

/// `cells` with the four channels of pixel number `p` replaced by `color`.
pub open spec fn with_pixel<S>(cells: Seq<S>, p: int, color: Seq<S>) -> Seq<S> {
    cells.update(4 * p, color[0]).update(4 * p + 1, color[1]).update(4 * p + 2, color[2]).update(
        4 * p + 3,
        color[3],
    )
}

/// `n` channels cycling through `color`.
pub open spec fn painted<S>(n: nat, color: Seq<S>) -> Seq<S> {
    Seq::new(n, |k: int| color[k % 4])
}

proof fn lemma_pixel_in_storage(width: nat, height: nat, x: int, y: int)
    requires
        0 <= x < width,
        0 <= y < height,
    ensures
        0 <= 4 * storage::cell_index(width, x, y),
        4 * storage::cell_index(width, x, y) + 4 <= width * height * 4,
{
    storage::lemma_cell_in_grid(width, height, x, y);
    assert(width * height * 4 == 4 * (width * height)) by (nonlinear_arith);
}

impl<S: Copy + Default> Texture<S> {
    /// Width in pixels.
    pub closed spec fn spec_width(&self) -> nat {
        self.width as nat
    }

    /// Height in pixels.
    pub closed spec fn spec_height(&self) -> nat {
        self.height as nat
    }

    /// All channels, pixel by pixel, row by row.
    pub closed spec fn cells(&self) -> Seq<S> {
        self.data@
    }

    /// The storage holds exactly four channels per pixel.
    pub closed spec fn wf(&self) -> bool {
        &&& self.width * self.height * 4 <= usize::MAX
        &&& self.data@.len() == self.width * self.height * 4
    }

    /// The channels of pixel `(x, y)`.
    pub open spec fn pixel(&self, x: int, y: int) -> Seq<S> {
        pixel_channels(self.cells(), storage::cell_index(self.spec_width(), x, y))
    }

    /// A `width` by `height` texture with every channel at `S::default()`
    /// (transparent black for floats).
    pub fn new(width: usize, height: usize) -> (r: Self)
        requires
            width * height * 4 <= usize::MAX,
        ensures
            r.wf(),
            r.spec_width() == width,
            r.spec_height() == height,
            exists|z: S| call_ensures(S::default, (), z) && r.cells() == storage::filled(
                (width * height * 4) as nat,
                z,
            ),
    {
        let z = S::default();
        Texture { width, height, data: storage::filled_vec(width * height * 4, z) }
    }

    /// A texture over given channel data: four interleaved channels per
    /// pixel, pixels row by row.
    pub fn from_data(width: usize, height: usize, data: Vec<S>) -> (r: Self)
        requires
            width * height * 4 <= usize::MAX,
            data@.len() == width * height * 4,
        ensures
            r.wf(),
            r.spec_width() == width,
            r.spec_height() == height,
            r.cells() == data@,
    {
        Texture { width, height, data }
    }

    pub fn width(&self) -> (r: usize)
        ensures
            r == self.spec_width(),
    {
        self.width
    }

    pub fn height(&self) -> (r: usize)
        ensures
            r == self.spec_height(),
    {
        self.height
    }

    /// The channels of pixel `(x, y)`.
    pub fn get(&self, x: usize, y: usize) -> (r: [S; 4])
        requires
            self.wf(),
            x < self.spec_width(),
            y < self.spec_height(),
        ensures
            r@ == self.pixel(x as int, y as int),
    {
        proof {
            lemma_pixel_in_storage(self.width as nat, self.height as nat, x as int, y as int);
        }
        let idx: usize = (y * self.width + x) * 4;
        let r = [self.data[idx], self.data[idx + 1], self.data[idx + 2], self.data[idx + 3]];
        assert(r@ =~= self.pixel(x as int, y as int));
        r
    }

    /// Writes `color` to pixel `(x, y)`; every other pixel keeps its channels.
    pub fn set(&mut self, x: usize, y: usize, color: [S; 4])
        requires
            old(self).wf(),
            x < old(self).spec_width(),
            y < old(self).spec_height(),
        ensures
            final(self).wf(),
            final(self).spec_width() == old(self).spec_width(),
            final(self).spec_height() == old(self).spec_height(),
            final(self).cells() == with_pixel(
                old(self).cells(),
                storage::cell_index(old(self).spec_width(), x as int, y as int),
                color@,
            ),
            final(self).pixel(x as int, y as int) == color@,
            forall|x2: int, y2: int|
                0 <= x2 < old(self).spec_width() && 0 <= y2 < old(self).spec_height() && (x2 != x
                    || y2 != y) ==> #[trigger] final(self).pixel(x2, y2) == old(self).pixel(x2, y2),
    {
        proof {
            lemma_pixel_in_storage(self.width as nat, self.height as nat, x as int, y as int);
        }
        let idx: usize = (y * self.width + x) * 4;
        self.data.set(idx, color[0]);
        self.data.set(idx + 1, color[1]);
        self.data.set(idx + 2, color[2]);
        self.data.set(idx + 3, color[3]);
        assert(self.pixel(x as int, y as int) =~= color@);
        proof {
            assert forall|x2: int, y2: int|
                0 <= x2 < old(self).spec_width() && 0 <= y2 < old(self).spec_height() && (x2 != x
                    || y2 != y) implies #[trigger] self.pixel(x2, y2) == old(self).pixel(x2, y2) by {
                lemma_pixel_in_storage(self.width as nat, self.height as nat, x2, y2);
                let p2 = storage::cell_index(self.width as nat, x2, y2);
                let p = storage::cell_index(self.width as nat, x as int, y as int);
                if p2 == p {
                    storage::lemma_cell_index_injective(self.width as nat, x2, y2, x as int, y as int);
                }
                assert(self.pixel(x2, y2) =~= old(self).pixel(x2, y2));
            }
        }
    }

    /// The channels of pixel `(x % width, y % height)`: coordinates wrap around.
    pub fn fast_get(&self, x: usize, y: usize) -> (r: [S; 4])
        requires
            self.wf(),
            self.spec_width() > 0,
            self.spec_height() > 0,
        ensures
            r@ == self.pixel((x as int) % (self.spec_width() as int), (y as int) % (self.spec_height() as int)),
    {
        self.get(x % self.width, y % self.height)
    }

    /// Sets every pixel to `color`.
    pub fn clear(&mut self, color: [S; 4])
        requires
            old(self).wf(),
        ensures
            final(self).wf(),
            final(self).spec_width() == old(self).spec_width(),
            final(self).spec_height() == old(self).spec_height(),
            final(self).cells() == painted(old(self).cells().len(), color@),
            forall|x: int, y: int|
                0 <= x < old(self).spec_width() && 0 <= y < old(self).spec_height()
                    ==> #[trigger] final(self).pixel(x, y) == color@,
    {
        let n: usize = self.data.len();
        let mut k: usize = 0;
        while k < n
            invariant
                k <= n,
                n == self.data@.len(),
                n == old(self).data@.len(),
                self.width == old(self).width,
                self.height == old(self).height,
                forall|j: int| 0 <= j < k ==> #[trigger] self.data@[j] == color@[j % 4],
            decreases n - k,
        {
            let c = color[k % 4];
            self.data.set(k, c);
            k = k + 1;
        }
        assert(self.data@ =~= painted(old(self).cells().len(), color@));
        proof {
            assert forall|x: int, y: int|
                0 <= x < old(self).spec_width() && 0 <= y < old(self).spec_height() implies #[trigger] self.pixel(
                x,
                y,
            ) == color@ by {
                lemma_pixel_in_storage(self.width as nat, self.height as nat, x, y);
                let p = storage::cell_index(self.width as nat, x, y);
                assert forall|j: int| 0 <= j < 4 implies #[trigger] self.pixel(x, y)[j] == color@[j] by {
                    assert((4 * p + j) % 4 == j) by (nonlinear_arith)
                        requires 0 <= j < 4, 0 <= p;
                }
                assert(self.pixel(x, y) =~= color@);
            }
        }
    }

    /// Changes the dimensions. When they differ from the current ones the
    /// channel storage is cut down or extended with `S::default()` to the
    /// new size, the way `Vec::resize` does; otherwise nothing changes.
    pub fn resize(&mut self, width: usize, height: usize)
        requires
            old(self).wf(),
            width * height * 4 <= usize::MAX,
        ensures
            final(self).wf(),
            final(self).spec_width() == width,
            final(self).spec_height() == height,
            (width == old(self).spec_width() && height == old(self).spec_height()) ==> final(self).cells()
                == old(self).cells(),
            (width != old(self).spec_width() || height != old(self).spec_height()) ==> exists|z: S|
                call_ensures(S::default, (), z) && final(self).cells() == storage::resized(
                    old(self).cells(),
                    (width * height * 4) as nat,
                    z,
                ),
    {
        if self.width != width || self.height != height {
            self.width = width;
            self.height = height;
            let z = S::default();
            storage::resize_with(&mut self.data, width * height * 4, z);
        }
    }
}

} // verus!
