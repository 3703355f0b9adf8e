use wavefront::wavefront::{ErrorKind, Face, Object, ParseError, Rgb, Texture, Vertex};

fn texture() -> Texture {
    Texture::new(1, 1, vec![Rgb { r: 1, g: 2, b: 3 }]).unwrap()
}

fn lines(text: &[&str]) -> Vec<String> {
    text.iter().map(|l| l.to_string()).collect()
}

fn load(text: &[&str]) -> Result<Object, ParseError> {
    Object::parse(&lines(text), texture())
}

fn coords(v: &Vertex) -> (&str, &str, &str) {
    (v.x.as_str(), v.y.as_str(), v.z.as_str())
}

fn face_coords(f: &Face) -> Vec<(&str, &str, &str)> {
    f.vertices.iter().chain(f.texcoords.iter()).map(coords).collect()
}

#[test]
fn single_triangle_scenario() {
    let obj = load(&[
        "v 0 0 0", "v 1 0 0", "v 0 1 0", "vt 0 0 0", "vt 1 0 0", "vt 0 1 0", "f 1/1 2/2 3/3",
    ])
    .unwrap();
    assert_eq!(obj.vertex_count(), 3);
    assert_eq!(obj.texcoord_count(), 3);
    assert_eq!(obj.face_count(), 1);
    let faces = obj.faces();
    assert_eq!(faces.len(), 1);
    let face = faces[0].as_ref().unwrap();
    assert_eq!(
        face_coords(face),
        vec![
            ("0", "0", "0"),
            ("1", "0", "0"),
            ("0", "1", "0"),
            ("0", "0", "0"),
            ("1", "0", "0"),
            ("0", "1", "0"),
        ]
    );
}

#[test]
fn short_vertex_line_names_its_line() {
    let r = load(&["v 0 0 0", "v 1.0 2.0", "v 1 1 1"]);
    assert_eq!(
        r.err(),
        Some(ParseError { kind: ErrorKind::VertexTokenCount, line: Some(2) })
    );
}

#[test]
fn long_texcoord_line_names_its_line() {
    let r = load(&["# header", "", "vt 1 2 3 4"]);
    assert_eq!(
        r.err(),
        Some(ParseError { kind: ErrorKind::TexcoordTokenCount, line: Some(3) })
    );
}

#[test]
fn vertex_stored_at_its_position() {
    let obj = load(&["v 1.5 -2 3e2", "v +inf .5 7."]).unwrap();
    assert_eq!(coords(&obj.vertex(0).unwrap()), ("1.5", "-2", "3e2"));
    assert_eq!(coords(&obj.vertex(1).unwrap()), ("+inf", ".5", "7."));
    assert!(obj.vertex(2).is_none());
}

#[test]
fn texcoord_stored_at_its_position() {
    let obj = load(&["vt 0.25 0.75 0", "vt NaN Infinity -0"]).unwrap();
    assert_eq!(coords(&obj.texcoord(1).unwrap()), ("NaN", "Infinity", "-0"));
    assert!(obj.texcoord(2).is_none());
}

#[test]
fn face_refers_to_stored_points() {
    let obj = load(&[
        "v 0 0 0", "v 1 0 0", "v 0 1 0", "v 9 9 9", "vt 5 5 5", "vt 6 6 6",
        "f 4/2 1/1 2/2",
    ])
    .unwrap();
    let face = obj.face(0).unwrap();
    assert_eq!(
        face_coords(&face),
        vec![
            ("9", "9", "9"),
            ("0", "0", "0"),
            ("1", "0", "0"),
            ("6", "6", "6"),
            ("5", "5", "5"),
            ("6", "6", "6"),
        ]
    );
}

#[test]
fn quad_face_rejected() {
    let r = load(&["v 0 0 0", "f 1 1 1 1"]);
    assert_eq!(r.err(), Some(ParseError { kind: ErrorKind::FaceTokenCount, line: Some(2) }));
}

#[test]
fn two_corner_face_rejected() {
    let r = load(&["f 1/1 1/1"]);
    assert_eq!(r.err(), Some(ParseError { kind: ErrorKind::FaceTokenCount, line: Some(1) }));
}

#[test]
fn bad_number_rejected() {
    for bad in ["v 1 x 2", "v . 1 1", "v 1e 1 1", "vt 1 2 --3", "v 1 2 inff", "v 1,5 2 3"] {
        let r = load(&[bad]);
        assert_eq!(r.err(), Some(ParseError { kind: ErrorKind::InvalidNumber, line: Some(1) }), "{}", bad);
    }
}

#[test]
fn float_forms_accepted() {
    let obj = load(&["v 1e5 1E-5 -1.5e+3", "v INF -nan +Infinity", "v 0.0 00 .0"]).unwrap();
    assert_eq!(obj.vertex_count(), 3);
}

#[test]
fn bad_index_rejected() {
    for bad in [
        "f 0/1 1/1 1/1",
        "f 1/x 1/1 1/1",
        "f 1//1 1//1 1//1",
        "f -1 1 1",
        "f 99999999999999999999999 1 1",
        "f 1/ 1/1 1/1",
    ] {
        let r = load(&["v 0 0 0", "vt 0 0 0", bad]);
        assert_eq!(r.err(), Some(ParseError { kind: ErrorKind::InvalidIndex, line: Some(3) }), "{}", bad);
    }
}

#[test]
fn mixed_corners_rejected() {
    let r = load(&["v 0 0 0", "vt 0 0 0", "f 1 1/1 1/1"]);
    assert_eq!(r.err(), Some(ParseError { kind: ErrorKind::MixedCorners, line: Some(3) }));
}

#[test]
fn ignored_lines_change_nothing() {
    let mut obj = Object::new(texture());
    for l in ["# comment", "", "   \t ", "vn 0 0 1", "o cube", "usemtl m", "#v 1 2", "s off"] {
        assert_eq!(obj.parse_line(l), Ok(()));
    }
    assert_eq!(obj.vertex_count(), 0);
    assert_eq!(obj.texcoord_count(), 0);
    assert_eq!(obj.face_count(), 0);
}

#[test]
fn error_leaves_object_unchanged() {
    let mut obj = Object::new(texture());
    assert_eq!(obj.parse_line("v 1 2 3"), Ok(()));
    assert_eq!(
        obj.parse_line("v 1 2"),
        Err(ParseError { kind: ErrorKind::VertexTokenCount, line: None })
    );
    assert_eq!(obj.vertex_count(), 1);
}

#[test]
fn face_count_matches_face_lines() {
    let obj = load(&[
        "v 0 0 0", "vt 0 0 0", "f 1/1 1/1 1/1", "# between", "f 1/1/1 1/1/1 1/1/1", "vn 0 0 1",
        "f 1 1 1",
    ])
    .unwrap();
    assert_eq!(obj.face_count(), 3);
    let faces = obj.faces();
    assert_eq!(faces.len(), 3);
    assert!(faces[0].is_some());
    assert!(faces[1].is_some());
    // a face without texture coordinates has no triangle to draw
    assert!(faces[2].is_none());
}

#[test]
fn dangling_index_resolves_to_none() {
    let obj = load(&["v 0 0 0", "vt 0 0 0", "f 1/1 2/1 1/1"]).unwrap();
    assert_eq!(obj.face_count(), 1);
    assert!(obj.face(0).is_none());
}

#[test]
fn extra_fields_after_third_ignored() {
    let obj = load(&["v 0 0 0", "vt 0 0 0", "f 1/1/1/x 1/1/1/y 1/1/1/z"]).unwrap();
    assert!(obj.face(0).is_some());
}

#[test]
fn unicode_whitespace_separates_tokens() {
    let obj = load(&["v\t1\u{3000}2\u{a0}3 "]).unwrap();
    assert_eq!(coords(&obj.vertex(0).unwrap()), ("1", "2", "3"));
}

#[test]
fn plus_sign_index_accepted() {
    let obj = load(&["v 0 0 0", "vt 0 0 0", "f +1/1 1/+1 1/1"]).unwrap();
    assert!(obj.face(0).is_some());
}

#[test]
fn texture_size_checked() {
    assert!(Texture::new(2, 2, vec![Rgb { r: 0, g: 0, b: 0 }; 3]).is_none());
    assert!(Texture::new(0, 5, vec![]).is_some());
    let px: Vec<Rgb> = (0..6u8).map(|i| Rgb { r: i, g: 0, b: 0 }).collect();
    let t = Texture::new(3, 2, px).unwrap();
    assert_eq!(t.texel(2, 1), Some(Rgb { r: 5, g: 0, b: 0 }));
    assert_eq!(t.texel(1, 0), Some(Rgb { r: 1, g: 0, b: 0 }));
    assert_eq!(t.texel(3, 0), None);
    let obj = Object::parse(&lines(&["v 0 0 0"]), t).unwrap();
    assert_eq!(obj.texel(0, 1), Some(Rgb { r: 3, g: 0, b: 0 }));
    assert_eq!(obj.texture().width(), 3);
}
