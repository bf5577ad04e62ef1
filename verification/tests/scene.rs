use rasterm::engine::raster::Vertex;
use rasterm::engine::render::{
    Camera, Geometry, Material, Mesh, Object3D, Renderer, Scene, ShaderType, Texture, MAX_MESHES,
};

#[test]
fn test_renderer_resize() {
    let mut renderer = Renderer::new(f32::INFINITY);
    renderer.resize(100, 50);
    renderer.clear([0.0, 0.0, 0.0, 1.0]);
    // Should not panic
    renderer.resize(200, 100);
    renderer.clear([1.0, 1.0, 1.0, 1.0]);
}

#[test]
fn renderer_clear_fills_both_buffers() {
    let mut renderer = Renderer::new(f32::INFINITY);
    renderer.depth_buffer.set(3, 4, 0.25);
    renderer.clear([0.5, 0.25, 0.0, 1.0]);
    assert_eq!(renderer.color_buffer.get(3, 4), [0.5, 0.25, 0.0, 1.0]);
    assert_eq!(renderer.depth_buffer.get(3, 4), f32::INFINITY);
    renderer.resize(10, 6);
    assert_eq!(renderer.color_buffer.width(), 10);
    assert_eq!(renderer.color_buffer.height(), 6);
    renderer.depth_buffer.set(9, 5, 1.0);
    assert_eq!(renderer.depth_buffer.get(9, 5), 1.0);
}

#[test]
fn test_scene_mesh_limit() {
    let mut scene = Scene::<f32>::new();
    // Should accept meshes up to limit
    let ok = scene.add_mesh(Mesh::new(Geometry::new(), Material::new()));
    assert!(ok);
}

#[test]
fn scene_refuses_meshes_beyond_limit() {
    let mut scene = Scene::<f32>::new();
    for _ in 0..MAX_MESHES {
        assert!(scene.add_mesh(Mesh::new(Geometry::new(), Material::new())));
    }
    assert!(!scene.add_mesh(Mesh::new(Geometry::new(), Material::new())));
    assert_eq!(scene.meshes.len(), MAX_MESHES);
}

#[test]
fn materials_pick_their_shaders() {
    assert!(Material::<f32>::new().shader_type == ShaderType::Basic);
    assert!(Material::<f32>::gold().shader_type == ShaderType::Gold);
    let m = Material::textured(Texture::<f32>::new(2, 2));
    assert!(m.shader_type == ShaderType::Textured);
    assert_eq!(m.texture.unwrap().width(), 2);
    assert!(Material::<f32>::new().texture.is_none());
}

#[test]
fn morph_target_saves_a_copy_of_the_base() {
    let base = Geometry {
        vertices: vec![Vertex::from_data(vec![1.0f32, 2.0]), Vertex::from_data(vec![3.0, 4.0])],
        indices: vec![0, 1, 0],
    };
    let target = Geometry { vertices: vec![Vertex::from_data(vec![5.0f32, 6.0])], indices: vec![] };
    let mut mesh = Mesh::new(base, Material::new());
    assert!(mesh.morph_target.is_none());
    assert!(mesh.base_geometry.is_none());
    mesh.set_morph_target(target);
    let saved = mesh.base_geometry.as_ref().unwrap();
    assert_eq!(saved.vertices[1].data, vec![3.0, 4.0]);
    assert_eq!(saved.indices, vec![0, 1, 0]);
    assert_eq!(mesh.morph_target.as_ref().unwrap().vertices[0].data, vec![5.0, 6.0]);
    assert_eq!(mesh.geometry.vertices[0].data, vec![1.0, 2.0]);
}

#[test]
fn camera_and_object_start_at_identity() {
    let camera = Camera::new();
    assert_eq!(camera.projection, glam::Mat4::IDENTITY);
    assert_eq!(camera.view, glam::Mat4::IDENTITY);
    assert_eq!(Object3D::new().matrix, glam::Mat4::IDENTITY);
}

#[test]
fn renderer_resize_keeps_storage_prefix_and_fills_the_rest() {
    let mut renderer = Renderer::new(f32::INFINITY);
    renderer.depth_buffer.set(1, 0, 0.5);
    renderer.color_buffer.set(1, 0, [0.1, 0.2, 0.3, 0.4]);
    renderer.resize(16, 8);
    // Storage is kept in order, so cell 1 is still (1, 0) at the new width.
    assert_eq!(renderer.depth_buffer.get(1, 0), 0.5);
    assert_eq!(renderer.color_buffer.get(1, 0), [0.1, 0.2, 0.3, 0.4]);
    // Cells past the old storage hold the far depth and the default color.
    assert_eq!(renderer.depth_buffer.get(15, 7), f32::INFINITY);
    assert_eq!(renderer.color_buffer.get(15, 7), [0.0, 0.0, 0.0, 0.0]);
    // The same size again changes nothing.
    renderer.depth_buffer.set(2, 2, 0.75);
    renderer.resize(16, 8);
    assert_eq!(renderer.depth_buffer.get(2, 2), 0.75);
}

#[test]
fn renderer_starts_far_and_black() {
    let renderer = Renderer::new(f32::INFINITY);
    for y in 0..8 {
        for x in 0..8 {
            assert_eq!(renderer.depth_buffer.get(x, y), f32::INFINITY);
            assert_eq!(renderer.color_buffer.get(x, y), [0.0, 0.0, 0.0, 0.0]);
        }
    }
}
