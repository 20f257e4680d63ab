use simulation::error::Error;
use simulation::linalg::Vec3;
use simulation::ode::{Integrator, IntegratorType, Model, ModelState, NullSettings, SwappableIntegrator};
use simulation::scalar::Scalar;
use simulation::scene::CameraInfo;
use simulation::simulated_scene::base::{material_is_positive, SimulatedScene};
use simulation::simulated_scene::scene_model::{floor_force, sphere_force};
use simulation::simulated_scene::{
    GlobalParams, IntegrationParams, MeshParams, SceneModel, SceneModelParams, SceneModelState,
    SimMesh, SimulatedSceneGenerator, StepParams,
};

#[derive(Clone, Copy, Debug, PartialEq, PartialOrd)]
struct Real(f64);

impl Scalar for Real {
    fn sum(self, rhs: Self) -> Self {
        Real(self.0 + rhs.0)
    }

    fn difference(self, rhs: Self) -> Self {
        Real(self.0 - rhs.0)
    }

    fn product(self, rhs: Self) -> Self {
        Real(self.0 * rhs.0)
    }

    fn quotient(self, rhs: Self) -> Self {
        Real(self.0 / rhs.0)
    }

    fn negation(self) -> Self {
        Real(-self.0)
    }

    fn magnitude(self) -> Self {
        Real(self.0.abs())
    }

    fn root(self) -> Self {
        Real(self.0.sqrt())
    }

    fn below(self, rhs: Self) -> bool {
        self.0 < rhs.0
    }

    fn of_count(n: usize) -> Self {
        Real(n as f64)
    }

    fn ceiling(self) -> usize {
        self.0.ceil() as usize
    }

    fn add(self, rhs: Self) -> Self {
        Real(self.0 + rhs.0)
    }

    fn sub(self, rhs: Self) -> Self {
        Real(self.0 - rhs.0)
    }

    fn mul(self, rhs: Self) -> Self {
        Real(self.0 * rhs.0)
    }

    fn div(self, rhs: Self) -> Self {
        Real(self.0 / rhs.0)
    }

    fn neg(self) -> Self {
        Real(-self.0)
    }

    fn abs(self) -> Self {
        Real(self.0.abs())
    }

    fn sqrt(self) -> Self {
        Real(self.0.sqrt())
    }

    fn lt(self, rhs: Self) -> bool {
        self.0 < rhs.0
    }

    fn from_usize(n: usize) -> Self {
        Real(n as f64)
    }

    fn ceil_to_usize(self) -> usize {
        self.0.ceil() as usize
    }
}

fn close(l: f64, r: f64) -> bool {
    (l - r).abs() < 1e-5
}

fn v(x: f64, y: f64, z: f64) -> Vec3<Real> {
    Vec3::new(Real(x), Real(y), Real(z))
}

fn basic_params() -> MeshParams<Real> {
    MeshParams {
        incompressibility: Real(1.0),
        rigidity: Real(1.0),
        viscous_incompressibility: Real(1.0),
        viscous_rigidity: Real(1.0),
        density: Real(1.0),
    }
}

fn tet_at(x: f64, y: f64, z: f64) -> (Vec<Vec3<Real>>, Vec<[u16; 4]>) {
    (
        vec![v(x, y, z), v(x + 1.0, y, z), v(x, y + 1.0, z), v(x, y, z + 1.0)],
        vec![[0, 1, 2, 3]],
    )
}

fn double_tet() -> (Vec<Vec3<Real>>, Vec<[u16; 4]>) {
    (
        vec![
            v(0.0, 0.0, 0.0),
            v(1.0, 0.0, 0.0),
            v(0.0, 1.0, 0.0),
            v(0.0, 0.0, 1.0),
            v(1.0, 1.0, 0.0),
        ],
        vec![[0, 1, 2, 3], [4, 1, 2, 3]],
    )
}

fn points(n: usize) -> (Vec<Vec3<Real>>, Vec<[u16; 4]>) {
    (vec![v(0.0, 0.0, 0.0); n], Vec::new())
}

fn scene_of(meshes: Vec<(Vec<Vec3<Real>>, Vec<[u16; 4]>)>, g: f64) -> SceneModel<Real> {
    let bodies = meshes.into_iter().map(|m| SimMesh::new(m, basic_params()).unwrap()).collect();
    SceneModel::new(
        bodies,
        SceneModelParams { g: Real(g) },
        Real(1000.0),
        Real(0.1),
        Real(-3.0),
        Real(1.0),
        v(0.0, -3.5, 0.0),
    )
    .unwrap()
}

fn camera() -> CameraInfo<Real> {
    CameraInfo { eye: v(5.0, 0.0, 5.0), at: v(0.0, -3.0, 0.0) }
}

fn global(g: f64, time_step: f64, speed_up: f64, integrator_type: IntegratorType) -> GlobalParams<Real> {
    GlobalParams {
        scene_model_params: SceneModelParams { g: Real(g) },
        integration_params: IntegrationParams {
            integrator_type,
            step_params: StepParams { time_step: Real(time_step), speed_up: Real(speed_up) },
        },
    }
}

fn generator(
    meshes: Vec<((Vec<Vec3<Real>>, Vec<[u16; 4]>), MeshParams<Real>)>,
    params: GlobalParams<Real>,
) -> Result<SimulatedSceneGenerator<Real>, Error> {
    SimulatedSceneGenerator::new(
        camera(),
        params,
        meshes,
        Real(10000.0),
        Real(0.1),
        Real(-3.0),
        Real(1.0),
        v(0.0, -3.5, 0.0),
    )
}

fn rk4() -> IntegratorType {
    IntegratorType::RK4(NullSettings {})
}

#[test]
fn floor_pushes_a_sunken_vertex_up() {
    let force = floor_force(&v(0.0, -0.1, 0.0), &v(0.0, 0.0, 0.0), Real(0.0), Real(1000.0), Real(0.0));
    assert!(close(force.x.0, 0.0) && close(force.y.0, 100.0) && close(force.z.0, 0.0));
}

#[test]
fn floor_leaves_a_vertex_above_it_alone() {
    let force = floor_force(&v(0.0, 0.1, 0.0), &v(1.0, -1.0, 0.0), Real(0.0), Real(1000.0), Real(0.5));
    assert_eq!(force, v(0.0, 0.0, 0.0));
    let force = floor_force(&v(0.0, 0.0, 0.0), &v(1.0, -1.0, 0.0), Real(0.0), Real(1000.0), Real(0.5));
    assert_eq!(force, v(0.0, 0.0, 0.0));
}

#[test]
fn floor_friction_opposes_the_velocity() {
    let force = floor_force(&v(0.0, -0.5, 0.0), &v(3.0, 0.0, -4.0), Real(0.0), Real(10.0), Real(0.5));
    assert!(close(force.x.0, -1.5) && close(force.y.0, 5.0) && close(force.z.0, 2.0));
}

#[test]
fn floor_friction_spares_a_vertex_at_rest() {
    let force = floor_force(&v(0.0, -0.5, 0.0), &v(0.0, 0.0, 0.0), Real(0.0), Real(10.0), Real(0.5));
    assert_eq!(force, v(0.0, 5.0, 0.0));
    assert!(!force.x.0.is_nan() && !force.z.0.is_nan());
}

#[test]
fn sphere_pushes_a_vertex_out() {
    let force = sphere_force(&v(0.3, 0.0, 0.0), &v(0.0, 0.0, 0.0), Real(1.0), Real(1000.0));
    assert!(close(force.x.0, 700.0) && close(force.y.0, 0.0) && close(force.z.0, 0.0));
}

#[test]
fn sphere_leaves_the_outside_and_its_centre_alone() {
    let centre = v(1.0, 2.0, 3.0);
    assert_eq!(sphere_force(&v(1.0, 3.5, 3.0), &centre, Real(1.0), Real(1000.0)), v(0.0, 0.0, 0.0));
    assert_eq!(sphere_force(&v(1.0, 3.0, 3.0), &centre, Real(1.0), Real(1000.0)), v(0.0, 0.0, 0.0));
    assert_eq!(sphere_force(&centre, &centre, Real(1.0), Real(1000.0)), v(0.0, 0.0, 0.0));
}

#[test]
fn contact_force_adds_sphere_to_floor() {
    let scene = scene_of(vec![tet_at(0.0, 0.0, 0.0)], 9.8);
    let p = v(0.0, -3.25, 0.0);
    let still = v(0.0, 0.0, 0.0);
    let force = scene.contact_force(&p, &still);
    assert!(close(force.x.0, 0.0) && close(force.y.0, 250.0 + 750.0) && close(force.z.0, 0.0));
    assert_eq!(
        force,
        floor_force(&p, &still, Real(-3.0), Real(1000.0), Real(0.1))
            .add(&sphere_force(&p, &v(0.0, -3.5, 0.0), Real(1.0), Real(1000.0)))
    );
    assert_eq!(scene.contact_force(&v(0.0, 5.0, 0.0), &still), v(0.0, 0.0, 0.0));
    assert_eq!(
        scene.contact_forces(&[p, v(0.0, 5.0, 0.0)], &[still, still]),
        vec![force, v(0.0, 0.0, 0.0)]
    );
}

#[test]
fn intervals_follow_one_another() {
    let scene = scene_of(vec![tet_at(0.0, 0.0, 0.0), double_tet(), tet_at(3.0, 0.0, 0.0)], 9.8);
    assert_eq!(scene.mesh_intervals(), vec![[0, 4], [4, 9], [9, 13]]);
    assert_eq!(scene.meshs().len(), 3);
    assert_eq!(scene.meshs()[1].num_vertices(), 5);
}

#[test]
fn scene_keeps_its_parameters() {
    let scene = scene_of(vec![tet_at(0.0, 0.0, 0.0)], 9.8);
    assert_eq!(scene.params().g, Real(9.8));
    assert_eq!(scene.penalty_force(), Real(1000.0));
    assert_eq!(scene.floor_friction_coeff(), Real(0.1));
    assert_eq!(scene.floor_height(), Real(-3.0));
    assert_eq!(scene.sphere_radius(), Real(1.0));
    assert_eq!(scene.sphere_pos(), v(0.0, -3.5, 0.0));
}

#[test]
fn scene_of_too_many_vertices_overflows() {
    let bodies = vec![
        SimMesh::new(points(40000), basic_params()).unwrap(),
        SimMesh::new(points(25536), basic_params()).unwrap(),
    ];
    let outcome = SceneModel::new(
        bodies,
        SceneModelParams { g: Real(9.8) },
        Real(1000.0),
        Real(0.1),
        Real(-3.0),
        Real(1.0),
        v(0.0, -3.5, 0.0),
    );
    assert_eq!(outcome.err(), Some(Error::IndexOverflow));
    let scene = scene_of(vec![points(40000), points(25535)], 9.8);
    assert_eq!(scene.mesh_intervals(), vec![[0, 40000], [40000, 65535]]);
}

#[test]
fn initial_state_is_the_rest_shape_at_rest() {
    let scene = scene_of(vec![tet_at(0.0, 0.0, 0.0), double_tet()], 9.8);
    let state = scene.initial_state();
    let mut rest = tet_at(0.0, 0.0, 0.0).0;
    rest.extend(double_tet().0);
    assert_eq!(state.positions, rest);
    assert_eq!(state.velocities, vec![v(0.0, 0.0, 0.0); 9]);
}

#[test]
fn state_is_one_flat_vector() {
    let mut state = SceneModelState {
        positions: vec![v(1.0, 2.0, 3.0), v(4.0, 5.0, 6.0)],
        velocities: vec![v(7.0, 8.0, 9.0), v(10.0, 11.0, 12.0)],
    };
    assert_eq!(ModelState::len(&state), 12);
    for i in 0..12 {
        assert_eq!(state.get(i), Real(i as f64 + 1.0));
    }
    state.set(4, Real(-5.0));
    state.set(9, Real(-10.0));
    assert_eq!(state.positions, vec![v(1.0, 2.0, 3.0), v(4.0, -5.0, 6.0)]);
    assert_eq!(state.velocities, vec![v(7.0, 8.0, 9.0), v(-10.0, 11.0, 12.0)]);
    let mut other: SceneModelState<Real> = ModelState::new();
    assert_eq!(ModelState::len(&other), 0);
    other.zeros_as(&state);
    assert_eq!(other.positions, vec![v(0.0, 0.0, 0.0); 2]);
    assert_eq!(other.velocities, vec![v(0.0, 0.0, 0.0); 2]);
    state.zeros_as(&other);
    assert_eq!(state, other);
}

#[test]
fn derivative_is_velocity_and_acceleration() {
    let scene = scene_of(vec![tet_at(0.0, 0.0, 0.0), double_tet()], 9.8);
    let mut state = scene.initial_state();
    state.positions[6] = v(0.0, 1.25, 0.0);
    state.positions[1] = v(1.0, -3.25, 0.0);
    for (i, velocity) in state.velocities.iter_mut().enumerate() {
        *velocity = v(0.0, 0.1 * i as f64, -0.2);
    }
    let mut dxdt: SceneModelState<Real> = ModelState::new();
    dxdt.zeros_as(&state);
    scene.derivative(&state, &mut dxdt, &Real(0.0));
    assert_eq!(dxdt.positions, state.velocities);
    let mut expected = Vec::new();
    for (mesh, interval) in scene.meshs().iter().zip(scene.mesh_intervals()) {
        let (start, end) = (interval[0] as usize, interval[1] as usize);
        let positions = &state.positions[start..end];
        let velocities = &state.velocities[start..end];
        let forces = scene.contact_forces(positions, velocities);
        expected.extend(mesh.vertex_accels(positions, velocities, &forces, Real(9.8)));
    }
    assert_eq!(dxdt.velocities, expected);
    assert!(dxdt.velocities[1].y.0 > 0.0);
}

#[test]
fn free_fall_derivative() {
    let scene = scene_of(vec![tet_at(0.0, 0.0, 0.0)], 9.8);
    let state = scene.initial_state();
    let mut dxdt: SceneModelState<Real> = ModelState::new();
    dxdt.zeros_as(&state);
    scene.derivative(&state, &mut dxdt, &Real(0.0));
    assert_eq!(ModelState::len(&dxdt), 24);
    assert_eq!(dxdt.positions, vec![v(0.0, 0.0, 0.0); 4]);
    for a in &dxdt.velocities {
        assert!(close(a.x.0, 0.0) && close(a.y.0, -9.8) && close(a.z.0, 0.0));
    }
}

#[test]
fn scene_clone_holds_the_same_data() {
    let scene = scene_of(vec![tet_at(0.0, 0.0, 0.0), double_tet()], 9.8);
    let twin = scene.clone();
    assert_eq!(twin.mesh_intervals(), scene.mesh_intervals());
    assert_eq!(twin.meshs().len(), 2);
    assert_eq!(twin.meshs()[1].vertex_mass(), scene.meshs()[1].vertex_mass());
    assert_eq!(twin.initial_state(), scene.initial_state());
    assert_eq!(twin.params(), scene.params());
}

#[test]
fn material_must_be_strictly_positive() {
    assert!(material_is_positive(&basic_params()));
    assert!(!material_is_positive(&MeshParams { rigidity: Real(0.0), ..basic_params() }));
    assert!(!material_is_positive(&MeshParams { density: Real(-1.0), ..basic_params() }));
    assert!(!material_is_positive(&MeshParams { incompressibility: Real(f64::NAN), ..basic_params() }));
    let outcome = generator(
        vec![
            (tet_at(0.0, 0.0, 0.0), basic_params()),
            (double_tet(), MeshParams { viscous_rigidity: Real(0.0), ..basic_params() }),
        ],
        global(9.8, 0.0025, 1.0, rk4()),
    );
    assert_eq!(outcome.err(), Some(Error::Config { mesh: 1 }));
}

#[test]
fn scene_builder_reports_the_first_bad_mesh() {
    let flat = (
        vec![v(0.0, 0.0, 0.0), v(1.0, 0.0, 0.0), v(0.0, 1.0, 0.0), v(1.0, 1.0, 0.0)],
        vec![[0, 1, 2, 3]],
    );
    let outcome = generator(
        vec![
            (tet_at(0.0, 0.0, 0.0), basic_params()),
            (flat.clone(), basic_params()),
            (double_tet(), MeshParams { density: Real(0.0), ..basic_params() }),
        ],
        global(9.8, 0.0025, 1.0, rk4()),
    );
    assert_eq!(outcome.err(), Some(Error::DegenerateTet { tet: 0 }));
    let outcome = generator(
        vec![(flat, MeshParams { density: Real(0.0), ..basic_params() })],
        global(9.8, 0.0025, 1.0, rk4()),
    );
    assert_eq!(outcome.err(), Some(Error::Config { mesh: 0 }));
    let outcome =
        generator(vec![(points(65536), basic_params())], global(9.8, 0.0025, 1.0, rk4()));
    assert_eq!(outcome.err(), Some(Error::IndexOverflow));
    let outcome = generator(
        vec![(points(40000), basic_params()), (points(40000), basic_params())],
        global(9.8, 0.0025, 1.0, rk4()),
    );
    assert_eq!(outcome.err(), Some(Error::IndexOverflow));
}

#[test]
fn scene_builder_builds_the_scene() {
    let made = generator(
        vec![(tet_at(0.0, 0.0, 0.0), basic_params()), (double_tet(), basic_params())],
        global(9.8, 0.0025, 2.0, rk4()),
    )
    .unwrap();
    assert_eq!(made.default_camera_info(), camera());
    assert_eq!(made.integration_params().integrator_type, rk4());
    assert_eq!(made.integration_params().step_params.speed_up, Real(2.0));
    assert_eq!(made.scene_model().mesh_intervals(), vec![[0, 4], [4, 9]]);
    assert_eq!(made.scene_model().penalty_force(), Real(10000.0));
    let scene = made.init_scene();
    assert_eq!(*scene.scene_state(), made.scene_model().initial_state());
    assert_eq!(scene.scene_model().mesh_intervals(), made.scene_model().mesh_intervals());
}

#[test]
fn update_takes_the_steps_of_a_frame() {
    let made = generator(
        vec![(tet_at(0.0, 0.0, 0.0), basic_params())],
        global(9.8, 0.0025, 2.0, rk4()),
    )
    .unwrap();
    let mut scene = made.init_scene();
    scene.update(Real(0.006));

    let frame = 2.0 * 0.006;
    let steps = (frame / 0.0025f64).ceil() as usize;
    assert_eq!(steps, 5);
    let mut state = made.scene_model().initial_state();
    let mut time = Real(0.0);
    SwappableIntegrator::new(rk4()).n_steps(
        made.scene_model(),
        &mut state,
        &mut time,
        &Real(frame / steps as f64),
        steps,
    );
    assert_eq!(*scene.scene_state(), state);
    assert!((time.0 - frame).abs() < 1e-12);

    let fall = 0.5 * 9.8 * frame * frame;
    for (p, rest) in scene.scene_state().positions.iter().zip(tet_at(0.0, 0.0, 0.0).0) {
        assert!((p.y.0 - (rest.y.0 - fall)).abs() < 1e-9);
        assert!(close(p.x.0, rest.x.0) && close(p.z.0, rest.z.0));
    }
    for velocity in &scene.scene_state().velocities {
        assert!((velocity.y.0 + 9.8 * frame).abs() < 1e-9);
    }
}

#[test]
fn update_by_no_time_takes_no_step() {
    let made = generator(
        vec![(tet_at(0.0, 0.0, 0.0), basic_params())],
        global(9.8, 0.0025, 1.0, IntegratorType::Euler(NullSettings {})),
    )
    .unwrap();
    let mut scene = made.init_scene();
    scene.update(Real(0.0));
    assert_eq!(*scene.scene_state(), made.scene_model().initial_state());
}

#[test]
fn surfaces_follow_the_state() {
    let made = generator(
        vec![(tet_at(0.0, 0.0, 0.0), basic_params()), (double_tet(), basic_params())],
        global(9.8, 0.0025, 1.0, IntegratorType::Midpoint(NullSettings {})),
    )
    .unwrap();
    let mut scene = made.init_scene();
    scene.update(Real(0.01));
    let surfaces = scene.surfaces();
    assert_eq!(surfaces.len(), 2);
    let state = scene.scene_state();
    let model = scene.scene_model();
    for ((points, faces), (mesh, interval)) in
        surfaces.iter().zip(model.meshs().iter().zip(model.mesh_intervals()))
    {
        let positions = &state.positions[interval[0] as usize..interval[1] as usize];
        assert_eq!((points.clone(), faces.clone()), mesh.boundary_vertices_faces(positions));
    }
    assert_eq!(surfaces[1].0[0], state.positions[4 + 3]);
    assert_eq!(surfaces[1].1.len(), 6);
}

#[test]
fn body_at_rest_stays_at_rest() {
    let made = generator(
        vec![(double_tet(), MeshParams { density: Real(5.0), ..basic_params() })],
        global(0.0, 0.0025, 1.0, rk4()),
    )
    .unwrap();
    let mut scene = made.init_scene();
    for _ in 0..100 {
        scene.update(Real(0.025));
    }
    let masses = scene.scene_model().meshs()[0].vertex_mass();
    let energy: f64 = scene
        .scene_state()
        .velocities
        .iter()
        .zip(masses)
        .map(|(velocity, mass)| 0.5 * mass.0 * velocity.dot(velocity).0)
        .sum();
    assert!(energy < 1e-12);
    for (p, rest) in scene.scene_state().positions.iter().zip(double_tet().0) {
        assert!(close(p.x.0, rest.x.0) && close(p.y.0, rest.y.0) && close(p.z.0, rest.z.0));
    }
}

#[test]
fn body_comes_to_lie_on_the_floor() {
    let made = generator(
        vec![(
            tet_at(2.0, -2.9, 0.0),
            MeshParams {
                incompressibility: Real(100.0),
                rigidity: Real(100.0),
                viscous_incompressibility: Real(2.0),
                viscous_rigidity: Real(5.0),
                density: Real(5.0),
            },
        )],
        global(9.8, 0.0025, 1.0, rk4()),
    )
    .unwrap();
    let mut scene = made.init_scene();
    for _ in 0..200 {
        scene.update(Real(0.01));
    }
    for p in &scene.scene_state().positions {
        assert!(p.y.0.is_finite());
        assert!(p.y.0 > -3.2 && p.y.0 < -1.5);
    }
}

#[test]
fn scene_can_be_made_in_any_state() {
    let model = scene_of(vec![tet_at(0.0, 0.0, 0.0)], 0.0);
    let mut state = model.initial_state();
    for velocity in state.velocities.iter_mut() {
        *velocity = v(1.0, 0.0, 0.0);
    }
    let mut scene = SimulatedScene::new(
        model,
        state,
        StepParams { time_step: Real(0.5), speed_up: Real(1.0) },
        IntegratorType::Euler(NullSettings {}),
    );
    scene.update(Real(0.5));
    for (p, rest) in scene.scene_state().positions.iter().zip(tet_at(0.0, 0.0, 0.0).0) {
        assert!(close(p.x.0, rest.x.0 + 0.5) && close(p.y.0, rest.y.0) && close(p.z.0, rest.z.0));
    }
}
