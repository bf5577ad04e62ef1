pub mod camera;
pub mod geometry;
pub mod material;
pub mod mesh;
pub mod object;
pub mod renderer;
pub mod scene;
pub mod shaders;
pub mod texture;

pub use camera::Camera;
pub use geometry::{Geometry, GeometryError, MAX_INDICES, MAX_VERTICES};
pub use material::{Material, ShaderType};
pub use mesh::Mesh;
pub use object::Object3D;
pub use renderer::Renderer;
pub use scene::{Scene, MAX_MESHES};
pub use texture::Texture;
