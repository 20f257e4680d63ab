use simulation::error::Error;
use simulation::mesh::{
    byte_is_digit, byte_is_space, find_line_end, parse_line, parse_mesh, read_index, scan_number,
    skip_digits, skip_spaces, MeshLine, Span,
};

fn tokens<'a>(line: &'a str, spans: &[Span; 3]) -> [&'a str; 3] {
    [
        &line[spans[0].start..spans[0].end],
        &line[spans[1].start..spans[1].end],
        &line[spans[2].start..spans[2].end],
    ]
}

fn vertex_tokens(line: &str) -> Option<[&str; 3]> {
    match parse_line(line.as_bytes()) {
        Some(MeshLine::Vertex(spans)) => Some(tokens(line, &spans)),
        _ => None,
    }
}

fn is_other(line: &str) -> bool {
    parse_line(line.as_bytes()) == Some(MeshLine::Other)
}

#[test]
fn vertex_line() {
    assert_eq!(vertex_tokens("v 1.0 2.5 -3"), Some(["1.0", "2.5", "-3"]));
    assert_eq!(
        parse_line(b"v 1.0 2.5 -3"),
        Some(MeshLine::Vertex([
            Span { start: 2, end: 5 },
            Span { start: 6, end: 9 },
            Span { start: 10, end: 12 }
        ]))
    );
}

#[test]
fn vertex_coordinates_parse_as_numbers() {
    let read = vertex_tokens("v -.5 12 0.125").unwrap();
    let values: Vec<f32> = read.iter().map(|t| t.parse().unwrap()).collect();
    assert_eq!(values, vec![-0.5, 12.0, 0.125]);
}

#[test]
fn white_space_is_flexible() {
    assert_eq!(vertex_tokens("  \tv\t 1   2\t\t3  "), Some(["1", "2", "3"]));
    assert_eq!(vertex_tokens("v 1 2 3\r"), Some(["1", "2", "3"]));
    assert_eq!(vertex_tokens("\x0b\x0cv\x0b1\x0c2 3"), Some(["1", "2", "3"]));
    assert_eq!(parse_line(b" \t t\t7  8\t9   10\t"), Some(MeshLine::Tetrahedron([7, 8, 9, 10])));
}

#[test]
fn shapes_of_a_number() {
    assert_eq!(vertex_tokens("v .5 -.25 -0.75"), Some([".5", "-.25", "-0.75"]));
    assert_eq!(vertex_tokens("v 007 0 -0"), Some(["007", "0", "-0"]));
    assert!(is_other("v 1. 2 3"));
    assert!(is_other("v - 2 3"));
    assert!(is_other("v . 2 3"));
    assert!(is_other("v +1 2 3"));
    assert!(is_other("v 1e5 2 3"));
    assert!(is_other("v 1.2.3 2 3"));
    assert!(is_other("v 1 --2 3"));
}

#[test]
fn last_number_is_the_longest_that_can_be_read() {
    assert_eq!(vertex_tokens("v 1 2 3.5abc"), Some(["1", "2", "3.5"]));
    assert_eq!(vertex_tokens("v 1 2 3."), Some(["1", "2", "3"]));
    assert_eq!(vertex_tokens("v 1 2 3.5.7"), Some(["1", "2", "3.5"]));
    assert_eq!(vertex_tokens("v 1 2 3e9"), Some(["1", "2", "3"]));
    assert_eq!(vertex_tokens("v 1 2 3 4 5"), Some(["1", "2", "3"]));
    assert_eq!(vertex_tokens("v 1 2 -7-8"), Some(["1", "2", "-7"]));
    assert_eq!(parse_line(b"t 0 1 2 3.5"), Some(MeshLine::Tetrahedron([0, 1, 2, 3])));
    assert_eq!(parse_line(b"t 0 1 2 3abc"), Some(MeshLine::Tetrahedron([0, 1, 2, 3])));
}

#[test]
fn lines_that_say_nothing() {
    for line in [
        "",
        "   ",
        "# comment",
        "vertex 1 2 3",
        "v1 2 3",
        "v",
        "v ",
        "v 1 2",
        "v 1 2 x",
        "x v 1 2 3",
        "t",
        "t 1 2 3",
        "t 1 2 3 x",
        "t 0 1a 2 3",
        "t -1 2 3 4",
        "t 1.5 2 3 4",
        "t1 2 3 4",
        "T 1 2 3 4",
        "V 1 2 3",
    ] {
        assert!(is_other(line), "{:?}", line);
    }
}

#[test]
fn tetrahedron_line() {
    assert_eq!(parse_line(b"t 0 1 2 3"), Some(MeshLine::Tetrahedron([0, 1, 2, 3])));
    assert_eq!(parse_line(b"t 00001 2 3 4 extra"), Some(MeshLine::Tetrahedron([1, 2, 3, 4])));
    assert_eq!(
        parse_line(b"t 65535 0 65534 9"),
        Some(MeshLine::Tetrahedron([65535, 0, 65534, 9]))
    );
}

#[test]
fn index_that_does_not_fit() {
    assert_eq!(parse_line(b"t 65536 0 1 2"), None);
    assert_eq!(parse_line(b"t 0 1 2 99999999999999999999999999"), None);
    assert_eq!(parse_line(b"t 0 0000000000000000000000065535 2 3"), Some(MeshLine::Tetrahedron([0, 65535, 2, 3])));
    assert_eq!(parse_line(b"t 0 1 429496729600 3"), None);
}

#[test]
fn scanning() {
    assert!(byte_is_space(b' ') && byte_is_space(b'\t') && byte_is_space(b'\r'));
    assert!(!byte_is_space(b'v') && !byte_is_space(0) && !byte_is_space(14));
    assert!(byte_is_digit(b'0') && byte_is_digit(b'9'));
    assert!(!byte_is_digit(b'/') && !byte_is_digit(b':'));
    assert_eq!(skip_spaces(b"  a ", 0), 2);
    assert_eq!(skip_spaces(b"  a ", 2), 2);
    assert_eq!(skip_spaces(b"  a ", 3), 4);
    assert_eq!(skip_spaces(b"  a ", 4), 4);
    assert_eq!(skip_digits(b"12a3", 0), 2);
    assert_eq!(skip_digits(b"12a3", 3), 4);
    assert_eq!(scan_number(b"-12.50x", 0), Some(6));
    assert_eq!(scan_number(b"-12.50x", 1), Some(6));
    assert_eq!(scan_number(b"-12.50x", 3), Some(6));
    assert_eq!(scan_number(b"-12.50x", 6), None);
    assert_eq!(scan_number(b"-", 0), None);
    assert_eq!(scan_number(b"", 0), None);
    assert_eq!(scan_number(b"5.", 0), Some(1));
    assert_eq!(read_index(b"a0123b", 1, 5), Some(123));
    assert_eq!(read_index(b"a0123b", 1, 1), Some(0));
    assert_eq!(read_index(b"70000", 0, 5), None);
    assert_eq!(find_line_end(b"ab\ncd", 0), 2);
    assert_eq!(find_line_end(b"ab\ncd", 2), 2);
    assert_eq!(find_line_end(b"ab\ncd", 3), 5);
}

#[test]
fn whole_file() {
    let text = "# a mesh\nv 0 0 0\nv 1.5 0 0\r\n\n  v 0 1 0\nsomething else\nv 0 0 -1\nt 0 1 2 3\nt 3 2 1 0";
    let mesh = parse_mesh(text.as_bytes()).unwrap();
    let vertices: Vec<[f32; 3]> = mesh
        .vertices
        .iter()
        .map(|spans| {
            let read = tokens(text, spans);
            [read[0].parse().unwrap(), read[1].parse().unwrap(), read[2].parse().unwrap()]
        })
        .collect();
    assert_eq!(
        vertices,
        vec![[0.0, 0.0, 0.0], [1.5, 0.0, 0.0], [0.0, 1.0, 0.0], [0.0, 0.0, -1.0]]
    );
    assert_eq!(mesh.tetrahedra, vec![[0, 1, 2, 3], [3, 2, 1, 0]]);
    assert_eq!(
        mesh.vertices[1],
        [Span { start: 19, end: 22 }, Span { start: 23, end: 24 }, Span { start: 25, end: 26 }]
    );
}

#[test]
fn empty_files() {
    for text in ["", "\n", "\n\n\n", "nothing\nat all\n"] {
        let mesh = parse_mesh(text.as_bytes()).unwrap();
        assert!(mesh.vertices.is_empty());
        assert!(mesh.tetrahedra.is_empty());
    }
}

#[test]
fn a_line_feed_ends_a_line() {
    let mesh = parse_mesh(b"v 1 2\n3\nt 0 1 2\n3\n").unwrap();
    assert!(mesh.vertices.is_empty());
    assert!(mesh.tetrahedra.is_empty());
    let mesh = parse_mesh(b"v 1 2 3\nt 0 1 2 3\n").unwrap();
    assert_eq!(mesh.vertices.len(), 1);
    assert_eq!(mesh.tetrahedra.len(), 1);
}

#[test]
fn parse_error_names_the_line() {
    let text = "v 0 0 0\nt 0 1 2 3\n\nt 0 1 2 70000\nt 99999 0 0 0\n";
    assert_eq!(parse_mesh(text.as_bytes()).err(), Some(Error::Parse { line: 3 }));
    assert_eq!(parse_mesh(b"t 0 1 2 65536").err(), Some(Error::Parse { line: 0 }));
}
