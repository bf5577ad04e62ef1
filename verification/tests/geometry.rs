use rasterm::engine::raster::Vertex;
use rasterm::engine::render::{Geometry, GeometryError, MAX_INDICES, MAX_VERTICES};

#[test]
fn test_geometry_limits() {
    // Valid geometry
    let verts = vec![Vertex::<f32>::new(3); 10];
    let indices = vec![0, 1, 2, 3, 4, 5];
    let geo = Geometry::with_limits(verts, indices);
    assert!(geo.is_ok());

    // Index out of bounds
    let verts = vec![Vertex::<f32>::new(3); 3];
    let indices = vec![0, 1, 5]; // 5 is out of bounds
    let geo = Geometry::with_limits(verts, indices);
    assert!(geo.is_err());
}

#[test]
fn geometry_limit_errors_name_the_cause() {
    let geo = Geometry::with_limits(vec![0u8; 3], vec![0, 7, 1, 9]);
    assert_eq!(
        geo.err(),
        Some(GeometryError::IndexOutOfBounds { position: 1, index: 7, vertex_count: 3 })
    );
    let geo = Geometry::with_limits(vec![0u8; MAX_VERTICES + 1], vec![]);
    assert_eq!(geo.err(), Some(GeometryError::TooManyVertices { count: MAX_VERTICES + 1 }));
    let geo = Geometry::with_limits(vec![0u8; 1], vec![0; MAX_INDICES + 1]);
    assert_eq!(geo.err(), Some(GeometryError::TooManyIndices { count: MAX_INDICES + 1 }));
    let geo = Geometry::with_limits(vec![0u8; MAX_VERTICES], vec![0; MAX_INDICES]).unwrap();
    assert_eq!(geo.vertex_count(), MAX_VERTICES);
    assert_eq!(geo.triangle_count(), MAX_INDICES / 3);
}

#[test]
fn vertex_basics() {
    let v = Vertex::<f32>::new(8);
    assert_eq!(v.len(), 8);
    assert!(v.data.iter().all(|&x| x == 0.0));
    assert!(Vertex::<f32>::new(0).is_empty());
    let v = Vertex::from_data(vec![1.0f32, 2.0, 3.0]);
    assert_eq!(v.data, vec![1.0, 2.0, 3.0]);
}

#[test]
fn retain_triangles_keeps_flagged_triangles_in_order() {
    let geo = Geometry { vertices: vec![(); 6], indices: vec![0, 1, 2, 3, 4, 5, 5, 4, 3, 2, 1, 0] };
    let kept = geo.retain_triangles(&vec![false, true, false, true]);
    assert_eq!(kept.indices, vec![3, 4, 5, 2, 1, 0]);
    assert_eq!(kept.vertices.len(), 6);
    assert_eq!(kept.triangle_count(), 2);
}

#[test]
fn triangle_count_ignores_partial_triangle() {
    let geo = Geometry { vertices: vec![(); 3], indices: vec![0, 1, 2, 0] };
    assert_eq!(geo.triangle_count(), 1);
    assert_eq!(geo.vertex_count(), 3);
    let empty: Geometry<()> = Geometry::new();
    assert_eq!(empty.triangle_count(), 0);
}
