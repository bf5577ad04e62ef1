use rasterm::engine::raster::clip::{near_plane_clip, ClipEmit, SmallVec};

fn emits(inside: [bool; 3]) -> Vec<ClipEmit> {
    let r = near_plane_clip(inside);
    (0..r.len()).map(|i| *r.get(i)).collect()
}

/// Clip-space position `(x, y, z, w)` is in front of the near plane when `w + z >= 0`.
fn inside(p: [f32; 4]) -> bool {
    p[3] + p[2] >= 0.0
}

fn flags(v0: [f32; 4], v1: [f32; 4], v2: [f32; 4]) -> [bool; 3] {
    [inside(v0), inside(v1), inside(v2)]
}

#[test]
fn test_all_vertices_inside() {
    let v0 = [0.0, 0.5, 0.5, 1.0];
    let v1 = [-0.5, -0.5, 0.3, 1.0];
    let v2 = [0.5, -0.5, 0.3, 1.0];

    let result = near_plane_clip(flags(v0, v1, v2));
    assert_eq!(result.len(), 3);
    assert_eq!(result.triangles().count(), 1);
}

#[test]
fn test_all_vertices_outside() {
    let v0 = [0.0, 0.5, -2.0, 1.0];
    let v1 = [-0.5, -0.5, -2.0, 1.0];
    let v2 = [0.5, -0.5, -2.0, 1.0];

    let result = near_plane_clip(flags(v0, v1, v2));
    assert_eq!(result.len(), 0);
    assert_eq!(result.triangles().count(), 0);
}

#[test]
fn test_one_vertex_outside() {
    let v0 = [0.0, 0.5, -2.0, 1.0];
    let v1 = [-0.5, -0.5, 0.5, 1.0];
    let v2 = [0.5, -0.5, 0.5, 1.0];

    let result = near_plane_clip(flags(v0, v1, v2));
    assert_eq!(result.len(), 4);
    assert_eq!(result.triangles().count(), 2);
}

#[test]
fn test_two_vertices_outside() {
    let v0 = [0.0, 0.5, 0.5, 1.0];
    let v1 = [-0.5, -0.5, -2.0, 1.0];
    let v2 = [0.5, -0.5, -2.0, 1.0];

    let result = near_plane_clip(flags(v0, v1, v2));
    assert_eq!(result.len(), 3);
    assert_eq!(result.triangles().count(), 1);
}

#[test]
fn clip_all_inside_keeps_triangle() {
    let r = near_plane_clip([true, true, true]);
    assert_eq!(r.len(), 3);
    assert_eq!(r.triangles().count(), 1);
    assert_eq!(emits([true, true, true]), vec![ClipEmit::Corner(1), ClipEmit::Corner(2), ClipEmit::Corner(0)]);
}

#[test]
fn clip_all_outside_is_empty() {
    let r = near_plane_clip([false, false, false]);
    assert_eq!(r.len(), 0);
    assert!(r.is_empty());
    assert_eq!(r.triangles().count(), 0);
}

#[test]
fn clip_one_outside_gives_quad() {
    let r = near_plane_clip([false, true, true]);
    assert_eq!(r.len(), 4);
    assert_eq!(r.triangles().count(), 2);
    assert_eq!(
        emits([false, true, true]),
        vec![
            ClipEmit::Crossing(0, 1),
            ClipEmit::Corner(1),
            ClipEmit::Corner(2),
            ClipEmit::Crossing(2, 0),
        ]
    );
}

#[test]
fn clip_two_outside_gives_triangle() {
    let r = near_plane_clip([true, false, false]);
    assert_eq!(r.len(), 3);
    assert_eq!(r.triangles().count(), 1);
    assert_eq!(
        emits([true, false, false]),
        vec![ClipEmit::Crossing(0, 1), ClipEmit::Crossing(2, 0), ClipEmit::Corner(0)]
    );
}

#[test]
fn triangle_fan_walks_from_vertex_zero() {
    let mut v: SmallVec<u8> = SmallVec::new();
    for k in 0..4 {
        v.push(k);
    }
    v.push(9);
    assert_eq!(v.len(), 4);
    assert_eq!(*v.get(3), 3);
    let mut it = v.triangles();
    assert_eq!(it.next(), Some((0, 1, 2)));
    assert_eq!(it.next(), Some((0, 2, 3)));
    assert_eq!(it.next(), None);
    assert_eq!(it.count(), 0);
}
