use simulation::topology::{
    compact, extract_boundary, face_opposite, pack, sort3, tet_is_valid, tetrahedra_are_valid,
    OrientedFace, Triangle,
};

fn tri(a: u16, b: u16, c: u16) -> Triangle {
    Triangle { a, b, c }
}

fn face(a: u16, b: u16, c: u16, reversed: bool) -> OrientedFace {
    OrientedFace { key: tri(a, b, c), reversed }
}

#[test]
fn sort3_orders_every_arrangement() {
    for (x, y, z) in [(1, 2, 3), (1, 3, 2), (2, 1, 3), (2, 3, 1), (3, 1, 2), (3, 2, 1)] {
        assert_eq!(sort3(x, y, z), tri(1, 2, 3));
    }
    assert_eq!(sort3(5, 5, 1), tri(1, 5, 5));
    assert_eq!(sort3(0, 65535, 0), tri(0, 0, 65535));
    assert_eq!(sort3(7, 7, 7), tri(7, 7, 7));
}

#[test]
fn faces_lie_opposite_the_corners() {
    let t = [9, 4, 7, 2];
    assert_eq!(face_opposite(&t, 0), tri(2, 4, 7));
    assert_eq!(face_opposite(&t, 1), tri(2, 7, 9));
    assert_eq!(face_opposite(&t, 2), tri(2, 4, 9));
    assert_eq!(face_opposite(&t, 3), tri(4, 7, 9));
}

#[test]
fn walking_a_face() {
    assert_eq!(face(1, 2, 3, false).vertices(), [1, 2, 3]);
    assert_eq!(face(1, 2, 3, true).vertices(), [3, 2, 1]);
}

#[test]
fn valid_tetrahedra() {
    assert!(tet_is_valid(&[0, 1, 2, 3], 4));
    assert!(tet_is_valid(&[3, 0, 2, 1], 4));
    assert!(!tet_is_valid(&[0, 1, 2, 4], 4));
    assert!(!tet_is_valid(&[4, 1, 2, 3], 4));
    assert!(!tet_is_valid(&[0, 1, 1, 3], 4));
    assert!(!tet_is_valid(&[3, 1, 2, 3], 4));
    assert!(!tet_is_valid(&[0, 1, 2, 3], 0));
    assert!(tet_is_valid(&[65535, 0, 1, 2], 65536));
    assert!(tetrahedra_are_valid(&[], 0));
    assert!(tetrahedra_are_valid(&[[0, 1, 2, 3], [4, 1, 2, 3]], 5));
    assert!(!tetrahedra_are_valid(&[[0, 1, 2, 3], [4, 1, 2, 3]], 4));
    assert!(!tetrahedra_are_valid(&[[0, 1, 2, 3], [4, 1, 2, 4]], 5));
    assert!(!tetrahedra_are_valid(&[[0, 0, 2, 3], [4, 1, 2, 3]], 5));
}

#[test]
fn triangles_are_looked_up_by_number() {
    assert_eq!(pack(tri(0, 0, 0)), 0);
    assert_eq!(pack(tri(1, 2, 3)), (1 << 32) + (2 << 16) + 3);
    assert_eq!(pack(tri(65533, 65534, 65535)), 0xfffd_fffe_ffff);
    assert!(pack(tri(0, 1, 0)) != pack(tri(0, 0, 65535)));
}

#[test]
fn a_face_that_comes_back_goes_to_the_end() {
    let tets = vec![[0, 1, 2, 3], [4, 1, 2, 3], [1, 2, 3, 5]];
    let flips = vec![[false; 4], [true; 4], [false, false, false, true]];
    let faces = extract_boundary(&tets, &flips);
    assert_eq!(
        faces,
        vec![
            face(0, 2, 3, false),
            face(0, 1, 3, false),
            face(0, 1, 2, false),
            face(2, 3, 4, true),
            face(1, 3, 4, true),
            face(1, 2, 4, true),
            face(2, 3, 5, false),
            face(1, 3, 5, false),
            face(1, 2, 5, false),
            face(1, 2, 3, true),
        ]
    );
}

#[test]
fn boundary_of_one_tetrahedron() {
    let faces = extract_boundary(&vec![[0, 1, 2, 3]], &vec![[false, true, false, true]]);
    assert_eq!(
        faces,
        vec![face(1, 2, 3, false), face(0, 2, 3, true), face(0, 1, 3, false), face(0, 1, 2, true)]
    );
}

#[test]
fn boundary_drops_a_face_between_two_tetrahedra() {
    let faces = extract_boundary(
        &vec![[0, 1, 2, 3], [4, 1, 2, 3]],
        &vec![[false, true, false, true], [true, false, true, false]],
    );
    assert_eq!(
        faces,
        vec![
            face(0, 2, 3, true),
            face(0, 1, 3, false),
            face(0, 1, 2, true),
            face(2, 3, 4, false),
            face(1, 3, 4, true),
            face(1, 2, 4, false)
        ]
    );
}

#[test]
fn boundary_keeps_a_face_of_three_tetrahedra() {
    let faces = extract_boundary(
        &vec![[0, 1, 2, 3], [4, 1, 2, 3], [5, 1, 2, 3]],
        &vec![[false; 4], [false; 4], [true; 4]],
    );
    assert_eq!(faces.len(), 10);
    assert_eq!(faces[6], face(1, 2, 3, true));
    assert_eq!(faces.iter().filter(|f| f.key == tri(1, 2, 3)).count(), 1);
}

#[test]
fn boundary_of_nothing_and_of_a_doubled_tetrahedron() {
    assert!(extract_boundary(&Vec::new(), &Vec::new()).is_empty());
    let faces = extract_boundary(&vec![[0, 1, 2, 3], [3, 2, 1, 0]], &vec![[false; 4], [true; 4]]);
    assert!(faces.is_empty());
}

#[test]
fn renumbering_by_discovery() {
    let faces = vec![face(5, 7, 9, true), face(2, 5, 9, false), face(2, 7, 8, false)];
    let (vertices, renumbered) = compact(&faces, 10);
    assert_eq!(vertices, vec![9, 7, 5, 2, 8]);
    assert_eq!(renumbered, vec![[0, 1, 2], [3, 2, 0], [3, 1, 4]]);
    for (f, r) in faces.iter().zip(&renumbered) {
        let walked = f.vertices();
        for k in 0..3 {
            assert_eq!(vertices[r[k] as usize], walked[k]);
        }
    }
}

#[test]
fn renumbering_nothing_and_everything() {
    let (vertices, renumbered) = compact(&Vec::new(), 0);
    assert!(vertices.is_empty() && renumbered.is_empty());
    let (vertices, renumbered) = compact(&vec![face(0, 65534, 65535, false)], 65536);
    assert_eq!(vertices, vec![0, 65534, 65535]);
    assert_eq!(renumbered, vec![[0, 1, 2]]);
}
