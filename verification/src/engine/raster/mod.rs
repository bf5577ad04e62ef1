pub mod clip;
mod depth;
mod rasterizer;
mod vertex;

pub use depth::DepthBuffer;
pub use rasterizer::Raster;
pub use vertex::Vertex;
