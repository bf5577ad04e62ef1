pub mod animation;
pub mod linear;
pub mod storage;
pub mod raster;
pub mod render;
pub mod terminal;
