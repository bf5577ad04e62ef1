use vstd::prelude::*;
use crate::engine::raster::DepthBuffer;
use crate::engine::storage;
use crate::engine::render::texture::Texture;

verus! {

/// The depth and color buffers a frame is drawn into, both of the same size.
pub struct Renderer<S> {
    pub depth_buffer: DepthBuffer<S>,
    pub color_buffer: Texture<S>,
    width: usize,
    height: usize,
}

impl<S: Copy + Default> Renderer<S> {
    /// Width in pixels.
    pub closed spec fn spec_width(&self) -> nat {
        self.width as nat
    }

    /// Height in pixels.
    pub closed spec fn spec_height(&self) -> nat {
        self.height as nat
    }

    /// The depth buffer.
    pub closed spec fn depth(&self) -> DepthBuffer<S> {
        self.depth_buffer
    }

    /// The color buffer.
    pub closed spec fn color(&self) -> Texture<S> {
        self.color_buffer
    }

    /// Both buffers are well formed and have the renderer's size.
    pub closed spec fn wf(&self) -> bool {
        &&& self.depth_buffer.wf()
        &&& self.color_buffer.wf()
        &&& self.depth_buffer.spec_width() == self.spec_width()
        &&& self.depth_buffer.spec_height() == self.spec_height()
        &&& self.color_buffer.spec_width() == self.spec_width()
        &&& self.color_buffer.spec_height() == self.spec_height()
    }

    /// An 8 by 8 renderer: every depth is `far` and every color channel is
    /// `S::default()`.
    pub fn new(far: S) -> (r: Self)
        ensures
            r.wf(),
            r.spec_width() == 8,
            r.spec_height() == 8,
            r.depth().far() == far,
            r.depth().cells() == storage::filled(64, far),
            exists|z: S| call_ensures(S::default, (), z) && r.color().cells() == storage::filled(256, z),
    {
        let width: usize = 8;
        let height: usize = 8;
        Renderer {
            depth_buffer: DepthBuffer::new(width, height, far),
            color_buffer: Texture::new(width, height),
            width,
            height,
        }
    }

    /// Resizes both buffers when the size changes: their contents are cut
    /// down or extended, with depth `far` and color `S::default()`, the way
    /// `Vec::resize` does.
    pub fn resize(&mut self, width: usize, height: usize)
        requires
            old(self).wf(),
            width * height * 4 <= usize::MAX,
        ensures
            final(self).wf(),
            final(self).spec_width() == width,
            final(self).spec_height() == height,
            final(self).depth().far() == old(self).depth().far(),
            (width == old(self).spec_width() && height == old(self).spec_height())
                ==> final(self).depth().cells() == old(self).depth().cells(),
            (width == old(self).spec_width() && height == old(self).spec_height())
                ==> final(self).color().cells() == old(self).color().cells(),
            (width != old(self).spec_width() || height != old(self).spec_height())
                ==> final(self).depth().cells() == storage::resized(
                old(self).depth().cells(),
                (width * height) as nat,
                old(self).depth().far(),
            ),
            (width != old(self).spec_width() || height != old(self).spec_height()) ==> exists|z: S|
                call_ensures(S::default, (), z) && final(self).color().cells() == storage::resized(
                    old(self).color().cells(),
                    (width * height * 4) as nat,
                    z,
                ),
    {
        if self.width != width || self.height != height {
            self.width = width;
            self.height = height;
            self.depth_buffer.resize(width, height);
            self.color_buffer.resize(width, height);
        }
    }

    /// Fills the color buffer with `color` and resets every depth to far.
    pub fn clear(&mut self, color: [S; 4])
        requires
            old(self).wf(),
        ensures
            final(self).wf(),
            final(self).spec_width() == old(self).spec_width(),
            final(self).spec_height() == old(self).spec_height(),
            final(self).depth().far() == old(self).depth().far(),
            forall|x: int, y: int|
                0 <= x < old(self).spec_width() && 0 <= y < old(self).spec_height() ==> {
                    &&& #[trigger] final(self).color().pixel(x, y) == color@
                    &&& final(self).depth().depth_at(x, y) == old(self).depth().far()
                },
    {
        self.color_buffer.clear(color);
        self.depth_buffer.clear();
    }
}

} // verus!
