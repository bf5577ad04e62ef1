use vstd::prelude::*;

verus! {

/// Basic vertex shader: transforms positions to clip space and normals to
/// world space.
#[derive(Clone, Copy, Debug)]
pub struct BasicVertexShader;

/// Basic fragment shader: Lambertian diffuse under a directional light.
#[derive(Clone, Copy, Debug)]
pub struct BasicFragmentShader;

/// Gold metallic fragment shader: diffuse plus specular highlights.
#[derive(Clone, Copy, Debug)]
pub struct GoldFragmentShader;

/// Vertex shader for textured rendering.
#[derive(Clone, Copy, Debug)]
pub struct TexturedVertexShader;

/// Fragment shader that samples a texture and applies directional lighting.
#[derive(Clone, Copy, Debug)]
pub struct TexturedFragmentShader;

} // verus!
