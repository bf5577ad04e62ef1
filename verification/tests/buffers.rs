use rasterm::engine::raster::DepthBuffer;
use rasterm::engine::render::Texture;

#[test]
fn test_depth_buffer() {
    let mut depth = DepthBuffer::new(16, 16, f32::INFINITY);

    // Initial state should be infinity
    assert_eq!(depth.get(8, 8), f32::INFINITY);

    // Set a depth value
    depth.set(8, 8, 0.5);
    assert_eq!(depth.get(8, 8), 0.5);

    // Clear should reset to infinity
    depth.clear();
    assert_eq!(depth.get(8, 8), f32::INFINITY);
}

#[test]
fn depth_set_leaves_other_pixels() {
    let mut depth = DepthBuffer::new(4, 3, 9u32);
    depth.set(1, 2, 5);
    assert_eq!(depth.get(1, 2), 5);
    assert_eq!(depth.get(2, 1), 9);
    assert_eq!(depth.get(1, 1), 9);
    assert_eq!(depth.get(3, 2), 9);
}

#[test]
fn depth_resize_keeps_storage_prefix_and_fills_far() {
    let mut depth = DepthBuffer::new(2, 2, 7i32);
    depth.set(1, 0, 1);
    depth.resize(3, 2);
    // The second cell of storage is (1, 0) in both layouts.
    assert_eq!(depth.get(1, 0), 1);
    // Cells beyond the old storage get the far value.
    assert_eq!(depth.get(2, 1), 7);
    depth.resize(3, 2);
    assert_eq!(depth.get(1, 0), 1);
}

#[test]
fn test_texture() {
    let mut texture = Texture::new(16, 16);

    // Set a color
    let color = [1.0f32, 0.5, 0.25, 1.0];
    texture.set(8, 8, color);

    // Read it back
    let read = texture.get(8, 8);
    assert_eq!(read, color);

    // Clear with blue
    texture.clear([0.0, 0.0, 1.0, 1.0]);
    let blue = texture.get(8, 8);
    assert_eq!(blue, [0.0, 0.0, 1.0, 1.0]);
}

#[test]
fn texture_starts_transparent_black() {
    let texture: Texture<f32> = Texture::new(3, 2);
    assert_eq!(texture.width(), 3);
    assert_eq!(texture.height(), 2);
    assert_eq!(texture.get(2, 1), [0.0, 0.0, 0.0, 0.0]);
}

#[test]
fn texture_set_leaves_neighbours() {
    let mut texture: Texture<u8> = Texture::new(2, 2);
    texture.set(1, 0, [1, 2, 3, 4]);
    assert_eq!(texture.get(1, 0), [1, 2, 3, 4]);
    assert_eq!(texture.get(0, 0), [0, 0, 0, 0]);
    assert_eq!(texture.get(0, 1), [0, 0, 0, 0]);
    assert_eq!(texture.get(1, 1), [0, 0, 0, 0]);
}

#[test]
fn texture_fast_get_wraps() {
    let mut texture: Texture<u8> = Texture::new(2, 3);
    texture.set(1, 2, [9, 8, 7, 6]);
    assert_eq!(texture.fast_get(3, 5), [9, 8, 7, 6]);
    assert_eq!(texture.fast_get(5, 8), [9, 8, 7, 6]);
    assert_eq!(texture.fast_get(2, 2), [0, 0, 0, 0]);
}

#[test]
fn texture_from_data_is_row_major_rgba() {
    let data: Vec<u8> = (0..16).collect();
    let texture = Texture::from_data(2, 2, data);
    assert_eq!(texture.get(0, 0), [0, 1, 2, 3]);
    assert_eq!(texture.get(1, 0), [4, 5, 6, 7]);
    assert_eq!(texture.get(0, 1), [8, 9, 10, 11]);
    assert_eq!(texture.get(1, 1), [12, 13, 14, 15]);
}

#[test]
fn texture_resize_grows_with_zeros() {
    let mut texture: Texture<u8> = Texture::new(1, 1);
    texture.set(0, 0, [5, 5, 5, 5]);
    texture.resize(2, 1);
    assert_eq!(texture.width(), 2);
    assert_eq!(texture.get(0, 0), [5, 5, 5, 5]);
    assert_eq!(texture.get(1, 0), [0, 0, 0, 0]);
}
