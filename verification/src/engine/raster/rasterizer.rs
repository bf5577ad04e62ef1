use vstd::prelude::*;

verus! {

/// The triangle rasterizer: programmable vertex and fragment shading,
/// near-plane clipping, and bounding-box edge-function scan conversion with
/// depth testing.
#[derive(Clone, Copy, Debug)]
pub struct Raster;

} // verus!
