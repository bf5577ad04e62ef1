//! A software rasterizer for the terminal: the verified core.
//!
//! The float arithmetic of shading, projection and interpolation lives with
//! the program around this library; what stands here is the structure that
//! decides: pixel storage and indexing, triangle clipping decisions, mesh
//! validation and decimation, the Wavefront OBJ grammar, and terminal
//! escape-sequence assembly, and the viewer's keyboard decisions. Pixel and
//! attribute storage is generic over the scalar type, so the same verified
//! code holds `f32` data at run time.
pub mod controls;
pub mod engine;
pub mod loader;
