use vstd::prelude::*;
use crate::engine::render::shaders::{
    BasicFragmentShader, BasicVertexShader, GoldFragmentShader, TexturedFragmentShader,
    TexturedVertexShader,
};
use crate::engine::render::texture::Texture;

verus! {

/// Which shader pair a material draws with.
#[derive(Clone, Copy, Debug, PartialEq, Eq, Structural)]
pub enum ShaderType {
    Basic,
    Gold,
    Textured,
}

/// The shaders of a mesh and, for textured drawing, its texture.
pub struct Material<S> {
    pub vertex_program: BasicVertexShader,
    pub fragment_program_basic: BasicFragmentShader,
    pub fragment_program_gold: GoldFragmentShader,
    pub textured_vertex_program: TexturedVertexShader,
    pub textured_fragment_program: TexturedFragmentShader,
    pub shader_type: ShaderType,
    pub texture: Option<Texture<S>>,
}

impl<S> Material<S> {
    /// A plain diffuse material without a texture.
    pub fn new() -> (r: Self)
        ensures
            r.shader_type == ShaderType::Basic,
            r.texture is None,
    {
        Material {
            vertex_program: BasicVertexShader,
            fragment_program_basic: BasicFragmentShader,
            fragment_program_gold: GoldFragmentShader,
            textured_vertex_program: TexturedVertexShader,
            textured_fragment_program: TexturedFragmentShader,
            shader_type: ShaderType::Basic,
            texture: None,
        }
    }

    /// A gold metallic material without a texture.
    pub fn gold() -> (r: Self)
        ensures
            r.shader_type == ShaderType::Gold,
            r.texture is None,
    {
        Material { shader_type: ShaderType::Gold, ..Self::new() }
    }

    /// A material that draws with `texture`.
    pub fn textured(texture: Texture<S>) -> (r: Self)
        ensures
            r.shader_type == ShaderType::Textured,
            r.texture == Some(texture),
    {
        Material { shader_type: ShaderType::Textured, texture: Some(texture), ..Self::new() }
    }
}

impl<S> Default for Material<S> {
    fn default() -> (r: Self)
        ensures
            r.shader_type == ShaderType::Basic,
            r.texture is None,
    {
        Self::new()
    }
}

} // verus!
