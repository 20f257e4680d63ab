use nalgebra::{Rotation3, Vector3};
use proptest::test_runner::{Config, TestCaseError, TestRunner};
use simulation::error::Error;
use simulation::linalg::Vec3;
use simulation::scalar::Scalar;
use simulation::simulated_scene::{MeshParams, SimMesh};

#[derive(Clone, Copy, Debug, PartialEq, PartialOrd)]
struct Real(f64);

impl Scalar for Real {
    fn sum(self, rhs: Self) -> Self {
        Real(self.0 + rhs.0)
    }

    fn difference(self, rhs: Self) -> Self {
        Real(self.0 - rhs.0)
    }

    fn product(self, rhs: Self) -> Self {
        Real(self.0 * rhs.0)
    }

    fn quotient(self, rhs: Self) -> Self {
        Real(self.0 / rhs.0)
    }

    fn negation(self) -> Self {
        Real(-self.0)
    }

    fn magnitude(self) -> Self {
        Real(self.0.abs())
    }

    fn root(self) -> Self {
        Real(self.0.sqrt())
    }

    fn below(self, rhs: Self) -> bool {
        self.0 < rhs.0
    }

    fn of_count(n: usize) -> Self {
        Real(n as f64)
    }

    fn ceiling(self) -> usize {
        self.0.ceil() as usize
    }

    fn add(self, rhs: Self) -> Self {
        Real(self.0 + rhs.0)
    }

    fn sub(self, rhs: Self) -> Self {
        Real(self.0 - rhs.0)
    }

    fn mul(self, rhs: Self) -> Self {
        Real(self.0 * rhs.0)
    }

    fn div(self, rhs: Self) -> Self {
        Real(self.0 / rhs.0)
    }

    fn neg(self) -> Self {
        Real(-self.0)
    }

    fn abs(self) -> Self {
        Real(self.0.abs())
    }

    fn sqrt(self) -> Self {
        Real(self.0.sqrt())
    }

    fn lt(self, rhs: Self) -> bool {
        self.0 < rhs.0
    }

    fn from_usize(n: usize) -> Self {
        Real(n as f64)
    }

    fn ceil_to_usize(self) -> usize {
        self.0.ceil() as usize
    }
}

fn close(l: f64, r: f64) -> bool {
    (l - r).abs() < 1e-5
}

fn v(x: f64, y: f64, z: f64) -> Vec3<Real> {
    Vec3::new(Real(x), Real(y), Real(z))
}

fn basic_params() -> MeshParams<Real> {
    MeshParams {
        incompressibility: Real(1.0),
        rigidity: Real(1.0),
        viscous_incompressibility: Real(1.0),
        viscous_rigidity: Real(1.0),
        density: Real(1.0),
    }
}

type MeshInfo = (SimMesh<Real>, Vec<Vec3<Real>>, Vec<[u16; 4]>);

#[derive(Clone, Copy, Debug)]
enum MeshOptions {
    SingleTet,
    DoubleTet,
}

impl MeshOptions {
    fn get_mesh(&self, params: &MeshParams<Real>) -> MeshInfo {
        match self {
            MeshOptions::SingleTet => {
                let positions =
                    vec![v(0.0, 0.0, 0.0), v(1.0, 0.0, 0.0), v(0.0, 1.0, 0.0), v(0.0, 0.0, 1.0)];
                let tetras = vec![[0, 1, 2, 3]];
                let mesh = SimMesh::new((positions.clone(), tetras.clone()), *params).unwrap();

                (mesh, positions, tetras)
            }
            MeshOptions::DoubleTet => {
                let positions = vec![
                    v(0.0, 0.0, 0.0),
                    v(1.0, 0.0, 0.0),
                    v(0.0, 1.0, 0.0),
                    v(0.0, 0.0, 1.0),
                    v(1.0, 1.0, 0.0),
                ];
                let tetras = vec![[0, 1, 2, 3], [4, 1, 2, 3]];
                let mesh = SimMesh::new((positions.clone(), tetras.clone()), *params).unwrap();

                (mesh, positions, tetras)
            }
        }
    }
}

fn sorted(mut face: [u16; 3]) -> [u16; 3] {
    face.sort();
    face
}

fn global_faces(mesh: &SimMesh<Real>) -> Vec<[u16; 3]> {
    let vertices = mesh.boundary_vertices();
    mesh.boundary_faces()
        .iter()
        .map(|f| [vertices[f[0] as usize], vertices[f[1] as usize], vertices[f[2] as usize]])
        .collect()
}

fn faces_at_edge(faces: &[[u16; 3]], a: u16, b: u16) -> usize {
    faces.iter().filter(|f| f.contains(&a) && f.contains(&b)).count()
}

fn zeros(n: usize) -> Vec<Vec3<Real>> {
    vec![v(0.0, 0.0, 0.0); n]
}

#[test]
fn single_tet_basic() {
    let params = basic_params();
    let (mesh, positions, tetras) = MeshOptions::SingleTet.get_mesh(&params);

    assert_eq!(mesh.vertices_obj_space(), positions);
    assert_eq!(*mesh.params(), params);
    assert_eq!(mesh.tetras(), tetras);

    let vol = 1.0 / 6.0;
    let total_mass: f64 = vol * params.density.0;
    let actual_total_mass: f64 = mesh.vertex_mass().iter().map(|m| m.0).sum();
    assert!(close(total_mass, actual_total_mass));
    let each_mass = actual_total_mass / 4.0;
    for mass in mesh.vertex_mass() {
        assert!(close(mass.0, each_mass));
    }
}

#[test]
fn double_tet_basic() {
    let params = basic_params();
    let (mesh, positions, tetras) = MeshOptions::DoubleTet.get_mesh(&params);

    assert_eq!(mesh.vertices_obj_space(), positions);
    assert_eq!(*mesh.params(), params);
    assert_eq!(mesh.tetras(), tetras);

    let vol_each_tet = 1.0 / 6.0;
    let vol = vol_each_tet * 2.0;
    let total_mass: f64 = vol * params.density.0;
    let actual_total_mass: f64 = mesh.vertex_mass().iter().map(|m| m.0).sum();
    assert!(close(total_mass, actual_total_mass));
    assert!(close(mesh.vertex_mass()[0].0, total_mass / 2.0 / 4.0));
    assert!(close(mesh.vertex_mass()[4].0, total_mass / 2.0 / 4.0));
    let each_mass = total_mass / 4.0;
    for mass in &mesh.vertex_mass()[1..4] {
        assert!(close(mass.0, each_mass));
    }
}

#[test]
fn rigid_transform_gravity() {
    let strategy = (
        0.0f64..100.0,
        0.001f64..1000.0,
        0.001f64..1000.0,
        0.001f64..1000.0,
        0.001f64..1000.0,
        0.01f64..10000.0,
        proptest::bool::ANY,
        proptest::array::uniform3(-2.0f64..2.0),
        proptest::array::uniform3(-2.0f64..2.0),
    );
    let mut runner = TestRunner::new(Config::default());
    let outcome = runner.run(
        &strategy,
        |(
            g,
            incompressibility,
            rigidity,
            viscous_incompressibility,
            viscous_rigidity,
            density,
            double,
            translation,
            rotation,
        )| {
            let params = MeshParams {
                incompressibility: Real(incompressibility),
                rigidity: Real(rigidity),
                viscous_incompressibility: Real(viscous_incompressibility),
                viscous_rigidity: Real(viscous_rigidity),
                density: Real(density),
            };
            let mesh_option = if double { MeshOptions::DoubleTet } else { MeshOptions::SingleTet };
            let (mesh, positions, _) = mesh_option.get_mesh(&params);

            let translation = Vector3::from(translation);
            let rotation = Rotation3::new(Vector3::from(rotation));

            let moved: Vec<Vec3<Real>> = positions
                .iter()
                .map(|p| {
                    let q = rotation * Vector3::new(p.x.0, p.y.0, p.z.0) + translation;
                    v(q[0], q[1], q[2])
                })
                .collect();
            let accels = mesh.vertex_accels(
                &moved,
                &zeros(positions.len()),
                &zeros(positions.len()),
                Real(g),
            );

            for accel in accels {
                if !(close(accel.x.0, 0.0) && close(accel.y.0, -g) && close(accel.z.0, 0.0)) {
                    return Err(TestCaseError::fail(format!("acceleration {:?}", accel)));
                }
            }
            Ok(())
        },
    );
    assert!(outcome.is_ok(), "{:?}", outcome);
}

#[test]
fn mass_is_conserved() {
    let params = MeshParams { density: Real(5.0), ..basic_params() };
    for option in [MeshOptions::SingleTet, MeshOptions::DoubleTet] {
        let (mesh, _, tetras) = option.get_mesh(&params);
        let total: f64 = mesh.vertex_mass().iter().map(|m| m.0).sum();
        let expected = 5.0 * tetras.len() as f64 / 6.0;
        assert!(((total - expected) / expected).abs() < 1e-5);
    }
}

#[test]
fn single_tet_spreads_its_mass_evenly() {
    let params = MeshParams { density: Real(3.0), ..basic_params() };
    let (mesh, _, _) = MeshOptions::SingleTet.get_mesh(&params);
    assert_eq!(mesh.vertex_mass(), vec![Real(0.0 + 3.0 * (1.0 / 6.0) / 4.0); 4]);
}

#[test]
fn two_tets_sharing_a_face_lump_their_masses() {
    let (mesh, _, _) = MeshOptions::DoubleTet.get_mesh(&basic_params());
    let expected = [1.0 / 24.0, 1.0 / 12.0, 1.0 / 12.0, 1.0 / 12.0, 1.0 / 24.0];
    for (mass, expected) in mesh.vertex_mass().iter().zip(expected.iter()) {
        assert!((mass.0 - expected).abs() < 1e-12);
    }
}

#[test]
fn single_tet_surface() {
    let (mesh, _, _) = MeshOptions::SingleTet.get_mesh(&basic_params());
    assert_eq!(global_faces(&mesh), vec![[1, 2, 3], [3, 2, 0], [0, 1, 3], [2, 1, 0]]);
    assert_eq!(mesh.boundary_vertices(), vec![1, 2, 3, 0]);
    assert_eq!(mesh.boundary_faces(), vec![[0, 1, 2], [2, 1, 3], [3, 0, 2], [1, 0, 3]]);
}

#[test]
fn double_tet_surface() {
    let (mesh, _, _) = MeshOptions::DoubleTet.get_mesh(&basic_params());
    assert_eq!(
        global_faces(&mesh),
        vec![[3, 2, 0], [0, 1, 3], [2, 1, 0], [2, 3, 4], [4, 3, 1], [1, 2, 4]]
    );
    assert_eq!(mesh.boundary_vertices(), vec![3, 2, 0, 1, 4]);
    assert_eq!(
        mesh.boundary_faces(),
        vec![[0, 1, 2], [2, 3, 0], [1, 3, 2], [1, 0, 4], [4, 0, 3], [3, 1, 4]]
    );
    let mut keys: Vec<[u16; 3]> = global_faces(&mesh).into_iter().map(sorted).collect();
    keys.sort();
    assert_eq!(keys, vec![[0, 1, 2], [0, 1, 3], [0, 2, 3], [1, 2, 4], [1, 3, 4], [2, 3, 4]]);
}

#[test]
fn surface_faces_wind_outwards() {
    for option in [MeshOptions::SingleTet, MeshOptions::DoubleTet] {
        let (mesh, positions, _) = option.get_mesh(&basic_params());
        let n = positions.len() as f64;
        let centre = positions.iter().fold([0.0; 3], |c, p| {
            [c[0] + p.x.0 / n, c[1] + p.y.0 / n, c[2] + p.z.0 / n]
        });
        for face in global_faces(&mesh) {
            let a = positions[face[0] as usize];
            let b = positions[face[1] as usize];
            let c = positions[face[2] as usize];
            let normal = b.sub(&a).cross(&c.sub(&a));
            let out = v(a.x.0 - centre[0], a.y.0 - centre[1], a.z.0 - centre[2]);
            assert!(normal.dot(&out).0 > 0.0);
        }
    }
}

#[test]
fn every_surface_edge_lies_on_two_faces() {
    for option in [MeshOptions::SingleTet, MeshOptions::DoubleTet] {
        let (mesh, _, _) = option.get_mesh(&basic_params());
        let faces = mesh.boundary_faces();
        for face in faces {
            for (a, b) in [(face[0], face[1]), (face[1], face[2]), (face[2], face[0])] {
                assert_eq!(faces_at_edge(faces, a, b), 2);
            }
        }
    }
}

#[test]
fn tets_that_share_only_an_edge_meet_in_four_surface_faces() {
    let positions = vec![
        v(0.0, 0.0, 0.0),
        v(0.0, 0.0, 1.0),
        v(1.0, 0.0, 0.0),
        v(0.0, 1.0, 0.0),
        v(-1.0, 0.0, 0.0),
        v(0.0, -1.0, 0.0),
    ];
    let tetras = vec![[0, 1, 2, 3], [0, 1, 4, 5]];
    let mesh = SimMesh::new((positions, tetras), basic_params()).unwrap();
    let faces = global_faces(&mesh);
    assert_eq!(faces.len(), 8);
    assert_eq!(faces_at_edge(&faces, 0, 1), 4);
    assert_eq!(faces_at_edge(&faces, 0, 2), 2);
}

#[test]
fn face_normals_point_away_from_the_opposite_corner() {
    let (mesh, _, _) = MeshOptions::SingleTet.get_mesh(&basic_params());
    assert_eq!(
        mesh.opposite_normals(),
        vec![[v(0.5, 0.5, 0.5), v(-0.5, -0.0, -0.0), v(0.0, -0.5, 0.0), v(-0.0, -0.0, -0.5)]]
    );
}

#[test]
fn inverse_edge_matrix_of_the_unit_tet() {
    let (mesh, positions, _) = MeshOptions::SingleTet.get_mesh(&basic_params());
    let inverse = mesh.inv_barycentric_mat()[0];
    let edges = [
        positions[0].sub(&positions[3]),
        positions[1].sub(&positions[3]),
        positions[2].sub(&positions[3]),
    ];
    let back = [inverse.mul_vec(&edges[0]), inverse.mul_vec(&edges[1]), inverse.mul_vec(&edges[2])];
    assert_eq!(back, [v(1.0, 0.0, 0.0), v(0.0, 1.0, 0.0), v(0.0, 0.0, 1.0)]);
}

#[test]
fn rest_shape_without_gravity_does_not_accelerate() {
    for option in [MeshOptions::SingleTet, MeshOptions::DoubleTet] {
        let (mesh, positions, _) = option.get_mesh(&basic_params());
        let none = zeros(positions.len());
        for a in mesh.vertex_accels(&positions, &none, &none, Real(0.0)) {
            assert!(close(a.x.0, 0.0) && close(a.y.0, 0.0) && close(a.z.0, 0.0));
        }
    }
}

#[test]
fn single_tet_at_rest_falls_with_gravity() {
    let (mesh, positions, _) = MeshOptions::SingleTet.get_mesh(&basic_params());
    let accels = mesh.vertex_accels(&positions, &zeros(4), &zeros(4), Real(9.8));
    assert_eq!(accels.len(), 4);
    for a in accels {
        assert!(close(a.x.0, 0.0) && close(a.y.0, -9.8) && close(a.z.0, 0.0));
    }
}

#[test]
fn stretched_tet_is_pulled_back() {
    let params = MeshParams {
        incompressibility: Real(0.0),
        rigidity: Real(1.0),
        viscous_incompressibility: Real(0.0),
        viscous_rigidity: Real(0.0),
        density: Real(1.0),
    };
    let (mesh, mut positions, _) = MeshOptions::SingleTet.get_mesh(&params);
    positions[2] = v(0.0, 1.5, 0.0);
    let accels = mesh.vertex_accels(&positions, &zeros(4), &zeros(4), Real(0.0));
    for a in &accels {
        assert!(close(a.x.0, 0.0) && close(a.z.0, 0.0));
    }
    assert!(close(accels[2].y.0, -45.0));
    assert!(close(accels[0].y.0, 45.0));
    assert!(close(accels[1].y.0, 0.0));
    assert!(close(accels[3].y.0, 0.0));
}

#[test]
fn external_forces_are_divided_by_the_mass() {
    let (mesh, positions, _) = MeshOptions::SingleTet.get_mesh(&basic_params());
    let mut forces = zeros(4);
    forces[1] = v(1.0, 0.0, -2.0);
    let accels = mesh.vertex_accels(&positions, &zeros(4), &forces, Real(0.0));
    assert!(close(accels[1].x.0, 24.0) && close(accels[1].y.0, 0.0) && close(accels[1].z.0, -48.0));
    assert!(close(accels[0].x.0, 0.0) && close(accels[0].z.0, 0.0));
}

#[test]
fn viscous_stress_opposes_the_stretching_velocity() {
    let params = MeshParams {
        incompressibility: Real(0.0),
        rigidity: Real(0.0),
        viscous_incompressibility: Real(0.0),
        viscous_rigidity: Real(1.0),
        density: Real(1.0),
    };
    let (mesh, positions, _) = MeshOptions::SingleTet.get_mesh(&params);
    let mut velocities = zeros(4);
    velocities[2] = v(0.0, 1.0, 0.0);
    let accels = mesh.vertex_accels(&positions, &velocities, &zeros(4), Real(0.0));
    assert!(close(accels[2].y.0, -48.0));
    assert!(close(accels[0].y.0, 48.0));
}

#[test]
fn accelerations_are_assembled_from_the_force_carriers() {
    let (mesh, mut positions, _) = MeshOptions::DoubleTet.get_mesh(&basic_params());
    positions[4] = v(1.25, 1.0, 0.5);
    let velocities = vec![v(0.0, 0.1, 0.0); 5];
    let forces = zeros(5);
    let carriers = mesh.force_carriers(&positions, &velocities);
    assert_eq!(carriers.len(), 2);
    assert_eq!(
        carriers[1],
        mesh.get_mat(mesh.tetras()[1], &mesh.inv_barycentric_mat()[1], &positions, &velocities)
    );
    assert_eq!(
        mesh.assemble(&carriers, &forces, Real(9.8)),
        mesh.vertex_accels(&positions, &velocities, &forces, Real(9.8))
    );
}

#[test]
fn surface_snapshot_picks_the_surface_vertices() {
    let (mesh, positions, _) = MeshOptions::DoubleTet.get_mesh(&basic_params());
    let moved: Vec<Vec3<Real>> = positions.iter().map(|p| p.add(&v(0.0, 2.0, 0.0))).collect();
    let (points, faces) = mesh.boundary_vertices_faces(&moved);
    assert_eq!(points, vec![moved[3], moved[2], moved[0], moved[1], moved[4]]);
    assert_eq!(faces, mesh.boundary_faces());
}

#[test]
fn flat_tet_is_degenerate() {
    let positions = vec![
        v(0.0, 0.0, 0.0),
        v(1.0, 0.0, 0.0),
        v(0.0, 1.0, 0.0),
        v(0.0, 0.0, 1.0),
        v(1.0, 1.0, 0.0),
    ];
    let tetras = vec![[0, 1, 2, 3], [0, 1, 2, 4]];
    let outcome = SimMesh::new((positions, tetras), basic_params());
    assert_eq!(outcome.err(), Some(Error::DegenerateTet { tet: 1 }));
}

#[test]
fn too_many_vertices_overflow_the_index() {
    let outcome = SimMesh::new((zeros(65536), Vec::new()), basic_params());
    assert_eq!(outcome.err(), Some(Error::IndexOverflow));
    let mesh = SimMesh::new((zeros(65535), Vec::new()), basic_params()).unwrap();
    assert_eq!(mesh.num_vertices(), 65535);
}

#[test]
fn long_strip_of_tetrahedra() {
    let n = 20000;
    let mesh = SimMesh::new(strip(n), basic_params()).unwrap();
    assert_eq!(mesh.boundary_faces().len(), 2 * n + 2);
    assert_eq!(mesh.boundary_vertices().len(), n + 3);
    let faces = global_faces(&mesh);
    let mut at_edge = std::collections::HashMap::new();
    for face in &faces {
        for (a, b) in [(face[0], face[1]), (face[1], face[2]), (face[2], face[0])] {
            *at_edge.entry((a.min(b), a.max(b))).or_insert(0) += 1;
        }
    }
    assert_eq!(at_edge.len(), 3 * (n + 3) - 6);
    assert!(at_edge.values().all(|count| *count == 2));
}

fn strip(n: usize) -> (Vec<Vec3<Real>>, Vec<[u16; 4]>) {
    let positions = (0..n + 3)
        .map(|i| {
            let angle = i as f64 * 1.3;
            v(angle.cos(), angle.sin(), i as f64 * 0.4)
        })
        .collect();
    let tetras = (0..n as u16).map(|i| [i, i + 1, i + 2, i + 3]).collect();
    (positions, tetras)
}

#[test]
fn large_bodies_are_worth_threads() {
    assert!(!SimMesh::new((zeros(299), Vec::new()), basic_params()).unwrap().is_worth_threads());
    assert!(SimMesh::new((zeros(300), Vec::new()), basic_params()).unwrap().is_worth_threads());
}

#[test]
fn threads_compute_what_one_thread_computes() {
    for n in [296, 297, 2000] {
        let (rest, tetras) = strip(n);
        let mesh = SimMesh::new((rest.clone(), tetras), basic_params()).unwrap();
        assert_eq!(mesh.is_worth_threads(), n >= 297);
        let positions: Vec<Vec3<Real>> = rest
            .iter()
            .enumerate()
            .map(|(i, p)| p.add(&v(0.01 * (i % 7) as f64, 0.02 * (i % 5) as f64, 0.0)))
            .collect();
        let velocities: Vec<Vec3<Real>> =
            (0..rest.len()).map(|i| v(0.0, 0.1 * (i % 3) as f64, -0.2)).collect();
        let forces = zeros(rest.len());
        let carriers = mesh.force_carriers(&positions, &velocities);
        assert_eq!(carriers.len(), n);
        assert!(carriers[n - 1] != carriers[0]);
        assert_eq!(
            mesh.vertex_accels(&positions, &velocities, &forces, Real(9.8)),
            mesh.assemble(&carriers, &forces, Real(9.8))
        );
    }
}

#[test]
fn clone_holds_the_same_data() {
    let (mesh, _, _) = MeshOptions::DoubleTet.get_mesh(&basic_params());
    let twin = mesh.clone();
    assert_eq!(twin.vertices_obj_space(), mesh.vertices_obj_space());
    assert_eq!(twin.vertex_mass(), mesh.vertex_mass());
    assert_eq!(twin.tetras(), mesh.tetras());
    assert_eq!(twin.opposite_normals(), mesh.opposite_normals());
    assert_eq!(twin.inv_barycentric_mat(), mesh.inv_barycentric_mat());
    assert_eq!(twin.boundary_vertices(), mesh.boundary_vertices());
    assert_eq!(twin.boundary_faces(), mesh.boundary_faces());
    assert_eq!(twin.params(), mesh.params());
}
