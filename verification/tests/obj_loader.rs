use rasterm::loader::{parse_obj, ObjError, VertexRef};

fn token<'a>(text: &'a str, start: usize, end: usize) -> String {
    text.chars().skip(start).take(end - start).collect()
}

#[test]
fn test_parse_simple_obj() {
    let obj = r#"
# Simple triangle
v 0.0 0.0 0.0
v 1.0 0.0 0.0
v 0.5 1.0 0.0
vn 0.0 0.0 1.0
f 1//1 2//1 3//1
"#;

    let geometry = parse_obj(obj).unwrap();
    assert_eq!(geometry.vertices.len(), 3);
    assert_eq!(geometry.indices.len(), 3);
}

#[test]
fn obj_tables_keep_number_tokens() {
    let obj = "v 1.5 -2 3e1\nvt 0.25 0.75\nvn 0 1 0\n";
    let layout = parse_obj(obj).unwrap();
    assert_eq!(layout.positions.len(), 1);
    assert_eq!(layout.uvs.len(), 1);
    assert_eq!(layout.normals.len(), 1);
    let p = layout.positions[0];
    assert_eq!(token(obj, p.x.start, p.x.end), "1.5");
    assert_eq!(token(obj, p.y.start, p.y.end), "-2");
    assert_eq!(token(obj, p.z.start, p.z.end), "3e1");
    let t = layout.uvs[0];
    assert_eq!(token(obj, t.u.start, t.u.end), "0.25");
    assert_eq!(token(obj, t.v.start, t.v.end), "0.75");
}

#[test]
fn obj_quad_is_fanned_into_two_triangles() {
    let obj = "v 0 0 0\nv 1 0 0\nv 1 1 0\nv 0 1 0\nf 1 2 3 4\n";
    let layout = parse_obj(obj).unwrap();
    assert_eq!(layout.vertices.len(), 4);
    assert_eq!(layout.indices, vec![0, 1, 2, 0, 2, 3]);
}

#[test]
fn obj_same_vertex_text_is_reused() {
    let obj = "v 0 0 0\nv 1 0 0\nv 1 1 0\nv 0 1 0\nf 1 2 3\nf 1 3 4\n";
    let layout = parse_obj(obj).unwrap();
    assert_eq!(layout.vertices.len(), 4);
    assert_eq!(layout.indices, vec![0, 1, 2, 0, 2, 3]);
}

#[test]
fn obj_negative_indices_count_back() {
    // `-1` names the latest entry of its table, `-2` the one before it.
    let obj = "v 0 0 0\nv 1 0 0\nv 1 1 0\nvt 0 0\nf -3/-1 -2/-1 -1/-1\n";
    let layout = parse_obj(obj).unwrap();
    assert_eq!(
        layout.vertices,
        vec![
            VertexRef { position: 0, uv: Some(0), normal: None },
            VertexRef { position: 1, uv: Some(0), normal: None },
            VertexRef { position: 2, uv: Some(0), normal: None },
        ]
    );
    assert_eq!(layout.indices, vec![0, 1, 2]);
}

#[test]
fn obj_relative_face_loads_like_absolute_face() {
    let relative = parse_obj("v 0 0 0\nv 1 0 0\nv 0 1 0\nf -3 -2 -1\n").unwrap();
    let absolute = parse_obj("v 0 0 0\nv 1 0 0\nv 0 1 0\nf 1 2 3\n").unwrap();
    assert_eq!(relative.indices, vec![0, 1, 2]);
    assert_eq!(relative.vertices.iter().map(|v| v.position).collect::<Vec<_>>(), vec![0, 1, 2]);
    assert_eq!(absolute.indices, relative.indices);
    assert_eq!(
        absolute.vertices.iter().map(|v| v.position).collect::<Vec<_>>(),
        relative.vertices.iter().map(|v| v.position).collect::<Vec<_>>()
    );
}

#[test]
fn obj_full_vertex_references() {
    let obj = "v 0 0 0\nvt 0 0\nvt 1 1\nvn 0 0 1\nf 1/2/1 1/1 1//1\n";
    let layout = parse_obj(obj).unwrap();
    assert_eq!(
        layout.vertices,
        vec![
            VertexRef { position: 0, uv: Some(1), normal: Some(0) },
            VertexRef { position: 0, uv: Some(0), normal: None },
            VertexRef { position: 0, uv: None, normal: Some(0) },
        ]
    );
    assert_eq!(layout.indices, vec![0, 1, 2]);
}

#[test]
fn obj_comments_blank_lines_and_unknown_commands_are_skipped() {
    let obj = "  # comment\r\n\n\to cube\r\nusemtl gold\nv 1 2 3\r\n   \n";
    let layout = parse_obj(obj).unwrap();
    assert_eq!(layout.positions.len(), 1);
    assert!(layout.vertices.is_empty());
    assert!(layout.indices.is_empty());
}

#[test]
fn obj_short_lines_add_nothing() {
    let obj = "v 1 2\nvt 1\nvn 0 1\nf 1 2\n";
    let layout = parse_obj(obj);
    assert_eq!(layout.err(), Some(ObjError::IndexOutOfRange));
    let obj = "v 1 2 3\nv 4 5 6\nf 1 2\n";
    let layout = parse_obj(obj).unwrap();
    assert_eq!(layout.vertices.len(), 2);
    assert!(layout.indices.is_empty());
}

#[test]
fn obj_invalid_face_index_is_refused() {
    assert_eq!(parse_obj("v 0 0 0\nf 1 x 1\n").err(), Some(ObjError::InvalidIndex));
    assert_eq!(parse_obj("v 0 0 0\nf 1 1.0 1\n").err(), Some(ObjError::InvalidIndex));
    assert_eq!(parse_obj("v 0 0 0\nf //1\n").err(), Some(ObjError::InvalidIndex));
    assert_eq!(parse_obj("v 0 0 0\nf 1/a\n").err(), Some(ObjError::InvalidIndex));
    assert_eq!(parse_obj("v 0 0 0\nf +\n").err(), Some(ObjError::InvalidIndex));
}

#[test]
fn obj_missing_table_entry_is_refused() {
    assert_eq!(parse_obj("v 0 0 0\nf 2\n").err(), Some(ObjError::IndexOutOfRange));
    assert_eq!(parse_obj("v 0 0 0\nf -2\n").err(), Some(ObjError::IndexOutOfRange));
    assert_eq!(parse_obj("v 0 0 0\nf 1/1\n").err(), Some(ObjError::IndexOutOfRange));
    assert_eq!(parse_obj("v 0 0 0\nf 1//1\n").err(), Some(ObjError::IndexOutOfRange));
    assert_eq!(parse_obj("f 1 2 3\nv 0 0 0\n").err(), Some(ObjError::IndexOutOfRange));
}

#[test]
fn obj_index_zero_names_nothing() {
    let layout = parse_obj("v 0 0 0\nv 1 1 1\nf +2 +1 -1\n").unwrap();
    assert_eq!(layout.vertices[0].position, 1);
    assert_eq!(layout.vertices[1].position, 0);
    assert_eq!(layout.vertices[2].position, 1);
    assert_eq!(parse_obj("v 0 0 0\nf 0\n").err(), Some(ObjError::IndexOutOfRange));
    assert_eq!(parse_obj("v 0 0 0\nf 1/0\n").err(), Some(ObjError::IndexOutOfRange));
    assert_eq!(parse_obj("v 0 0 0\nf -2\n").err(), Some(ObjError::IndexOutOfRange));
    assert_eq!(parse_obj("f -1\n").err(), Some(ObjError::IndexOutOfRange));
}

#[test]
fn obj_empty_text_is_an_empty_mesh() {
    let layout = parse_obj("").unwrap();
    assert!(layout.positions.is_empty());
    assert!(layout.vertices.is_empty());
}
