//! Building a scene from meshes and parameters, and advancing it frame by
//! frame.
use vstd::prelude::*;
use crate::error::Error;
use crate::linalg::Vec3;
use crate::ode::integrator::{iterated, lemma_iterated_agrees, Integrator};
use crate::ode::model::{Model, ModelState};
use crate::ode::swappable_integrator::{chosen_step, IntegratorType, SwappableIntegrator};
use crate::scalar::{is_positive, positive, zero, Scalar};
use crate::scene::CameraInfo;
use crate::simulated_scene::scene_model::{
    lemma_offset_bounds, offset, rest_positions, SceneModel, SceneModelParams, SceneModelState,
};
use crate::simulated_scene::sim_mesh::{first_degenerate, LoadedMesh, MeshParams, SimMesh};
use crate::topology::tetrahedra_valid;

verus! {

/// How simulated time follows real time.
#[derive(Clone, Copy, Debug, PartialEq)]
pub struct StepParams<S> {
    /// The longest step that the integrator may take.
    pub time_step: S,
    /// Simulated seconds per real second.
    pub speed_up: S,
}

/// The method of integration and its steps.
#[derive(Clone, Copy, Debug, PartialEq)]
pub struct IntegrationParams<S> {
    pub integrator_type: IntegratorType,
    pub step_params: StepParams<S>,
}

/// What holds for a whole scene: its physics and its integration.
#[derive(Clone, Copy, Debug, PartialEq)]
pub struct GlobalParams<S> {
    pub scene_model_params: SceneModelParams<S>,
    pub integration_params: IntegrationParams<S>,
}

/// Whether all five parameters of a material are strictly positive.
pub open spec fn material_positive<S: Scalar>(params: MeshParams<S>) -> bool {
    &&& positive(params.incompressibility)
    &&& positive(params.rigidity)
    &&& positive(params.viscous_incompressibility)
    &&& positive(params.viscous_rigidity)
    &&& positive(params.density)
}

/// Tells whether all five parameters of a material are strictly positive.
pub fn material_is_positive<S: Scalar>(params: &MeshParams<S>) -> (r: bool)
    ensures
        r == material_positive(*params),
{
    is_positive(params.incompressibility) && is_positive(params.rigidity) && is_positive(
        params.viscous_incompressibility,
    ) && is_positive(params.viscous_rigidity) && is_positive(params.density)
}

/// The number of steps that a frame of `delta_secs` real seconds takes: the
/// simulated time of the frame over the longest step, rounded up.
pub open spec fn frame_steps<S: Scalar>(params: StepParams<S>, delta_secs: S) -> usize {
    params.speed_up.product(delta_secs).quotient(params.time_step).ceiling()
}

/// The size of each step of a frame: the simulated time of the frame over
/// the number of its steps.
pub open spec fn frame_step_size<S: Scalar>(params: StepParams<S>, delta_secs: S) -> S {
    params.speed_up.product(delta_secs).quotient(S::of_count(frame_steps(params, delta_secs)))
}

/// The number of steps of a frame of `delta_secs` real seconds, and the size
/// of each.
pub fn frame_plan<S: Scalar>(params: &StepParams<S>, delta_secs: S) -> (r: (usize, S))
    ensures
        r.0 == frame_steps(*params, delta_secs),
        r.1 == frame_step_size(*params, delta_secs),
{
    let frame = params.speed_up.mul(delta_secs);
    let steps: usize = frame.div(params.time_step).ceil_to_usize();
    (steps, frame.div(S::from_usize(steps)))
}

/// The state of a scene after `n` steps of size `h` by the method `method`,
/// from the state `x` at time zero.
pub open spec fn advanced_by<S: Scalar>(
    method: IntegratorType,
    model: &SceneModel<S>,
    x: Seq<S>,
    h: S,
    n: nat,
) -> Seq<S> {
    iterated(
        |y: Seq<S>, t: S| chosen_step(method, model, y, t, h),
        x,
        zero::<S>(),
        h,
        n,
    ).0
}

/// Why the mesh with the index `index` is rejected, if it is: for a material
/// parameter that is not strictly positive, else for too many vertices, else
/// for a degenerate tetrahedron.
pub open spec fn mesh_verdict<S: Scalar>(
    vertices: Seq<Vec3<S>>,
    tets: Seq<[u16; 4]>,
    params: MeshParams<S>,
    index: int,
) -> Option<Error> {
    if !material_positive(params) {
        Some(Error::Config { mesh: index as usize })
    } else if vertices.len() >= 65536 {
        Some(Error::IndexOverflow)
    } else if first_degenerate(tets, vertices, tets.len()) < tets.len() {
        Some(Error::DegenerateTet { tet: first_degenerate(tets, vertices, tets.len()) as usize })
    } else {
        None
    }
}

/// The verdict on the mesh with the index `i` among `meshs`.
pub open spec fn verdict_at<S: Scalar>(meshs: Seq<(LoadedMesh<S>, MeshParams<S>)>, i: int) -> Option<
    Error,
> {
    mesh_verdict(meshs[i].0.0@, meshs[i].0.1@, meshs[i].1, i)
}

/// The number of vertices of the first `n` meshes together.
pub open spec fn loaded_vertices<S: Scalar>(meshs: Seq<(LoadedMesh<S>, MeshParams<S>)>, n: nat) -> nat
    decreases n,
{
    if n == 0 {
        0
    } else {
        loaded_vertices(meshs, (n - 1) as nat) + meshs[n - 1].0.0@.len()
    }
}

/// Whether `bodies` are the soft bodies of the first `n` of `meshs`.
pub open spec fn bodies_of<S: Scalar>(
    bodies: Seq<SimMesh<S>>,
    meshs: Seq<(LoadedMesh<S>, MeshParams<S>)>,
    n: nat,
) -> bool {
    &&& bodies.len() == n
    &&& forall|i: int|
        0 <= i < n ==> {
            &&& (#[trigger] bodies[i]).wf()
            &&& bodies[i].vertices() == meshs[i].0.0@
            &&& bodies[i].tetrahedra() == meshs[i].0.1@
            &&& bodies[i].material() == meshs[i].1
        }
}

/// Everything that a scene is made from.
pub struct SimulatedSceneGenerator<S: Scalar> {
    camera_info: CameraInfo<S>,
    integration_params: IntegrationParams<S>,
    scene_model: SceneModel<S>,
}

impl<S: Scalar> SimulatedSceneGenerator<S> {
    /// Where the camera starts.
    pub closed spec fn camera(&self) -> CameraInfo<S> {
        self.camera_info
    }

    /// How scenes made from this are integrated.
    pub closed spec fn integration(&self) -> IntegrationParams<S> {
        self.integration_params
    }

    /// The scene.
    pub closed spec fn model(&self) -> SceneModel<S> {
        self.scene_model
    }

    /// Builds the soft bodies and the scene.
    ///
    /// The meshes are looked at in their order. The first that has a
    /// verdict against it decides the error. Where none has, the scene is
    /// built, unless all meshes together have 2^16 vertices or more.
    pub fn new(
        camera_info: CameraInfo<S>,
        global_params: GlobalParams<S>,
        meshs: Vec<(LoadedMesh<S>, MeshParams<S>)>,
        penalty_force: S,
        floor_friction_coeff: S,
        floor_height: S,
        sphere_radius: S,
        sphere_pos: Vec3<S>,
    ) -> (r: Result<Self, Error>)
        requires
            forall|i: int|
                0 <= i < meshs@.len() ==> tetrahedra_valid(
                    (#[trigger] meshs@[i]).0.1@,
                    meshs@[i].0.0@.len() as int,
                ),
        ensures
            match r {
                Ok(generator) => {
                    &&& forall|i: int| 0 <= i < meshs@.len() ==> verdict_at(meshs@, i) is None
                    &&& loaded_vertices(meshs@, meshs@.len()) < 65536
                    &&& generator.model().wf()
                    &&& bodies_of(generator.model().meshes(), meshs@, meshs@.len())
                    &&& generator.model().gravity() == global_params.scene_model_params.g
                    &&& generator.model().penalty() == penalty_force
                    &&& generator.model().friction() == floor_friction_coeff
                    &&& generator.model().floor() == floor_height
                    &&& generator.model().radius() == sphere_radius
                    &&& generator.model().center() == sphere_pos
                    &&& generator.camera() == camera_info
                    &&& generator.integration() == global_params.integration_params
                },
                Err(e) => {
                    ||| exists|i: int|
                        0 <= i < meshs@.len() && #[trigger] verdict_at(meshs@, i) == Some(e)
                            && forall|j: int| 0 <= j < i ==> verdict_at(meshs@, j) is None
                    ||| {
                        &&& e == Error::IndexOverflow
                        &&& forall|i: int| 0 <= i < meshs@.len() ==> verdict_at(meshs@, i) is None
                        &&& loaded_vertices(meshs@, meshs@.len()) >= 65536
                    }
                },
            },
    {
        let ghost all = meshs@;
        let mut rest = meshs;
        let mut bodies: Vec<SimMesh<S>> = Vec::new();
        let n: usize = rest.len();
        let mut m: usize = 0;
        while m < n
            invariant
                m <= n,
                n == all.len(),
                all == meshs@,
                rest@ == all.subrange(m as int, n as int),
                bodies_of(bodies@, all, m as nat),
                forall|j: int| 0 <= j < m ==> verdict_at(all, j) is None,
                forall|i: int|
                    0 <= i < all.len() ==> tetrahedra_valid(
                        (#[trigger] all[i]).0.1@,
                        all[i].0.0@.len() as int,
                    ),
            decreases n - m,
        {
            let (mesh, params) = rest.remove(0);
            assert(rest@ =~= all.subrange(m + 1, n as int));
            assert((mesh, params) == all[m as int]);
            if !material_is_positive(&params) {
                assert(verdict_at(all, m as int) == Some(Error::Config { mesh: m }));
                return Err(Error::Config { mesh: m });
            }
            match SimMesh::new(mesh, params) {
                Ok(body) => {
                    bodies.push(body);
                },
                Err(e) => {
                    assert(verdict_at(all, m as int) == Some(e));
                    return Err(e);
                },
            }
            m += 1;
        }
        proof {
            lemma_loaded_vertices(bodies@, all, n as nat);
        }
        match SceneModel::new(
            bodies,
            global_params.scene_model_params,
            penalty_force,
            floor_friction_coeff,
            floor_height,
            sphere_radius,
            sphere_pos,
        ) {
            Ok(scene_model) => Ok(
                SimulatedSceneGenerator {
                    camera_info,
                    integration_params: global_params.integration_params,
                    scene_model,
                },
            ),
            Err(_) => Err(Error::IndexOverflow),
        }
    }

    pub fn default_camera_info(&self) -> (r: CameraInfo<S>)
        ensures
            r == self.camera(),
    {
        self.camera_info
    }

    pub fn integration_params(&self) -> (r: IntegrationParams<S>)
        ensures
            r == self.integration(),
    {
        self.integration_params
    }

    pub fn scene_model(&self) -> (r: &SceneModel<S>)
        ensures
            *r == self.model(),
    {
        &self.scene_model
    }

    /// A scene of its own, with every body at rest in its rest shape.
    pub fn init_scene(&self) -> (r: SimulatedScene<S>)
        ensures
            r.wf(),
            r.model().same_as(&self.model()),
            r.state().positions@ == rest_positions(r.model().meshes(), r.model().meshes().len()),
            r.state().velocities@ == Seq::new(
                r.model().total_vertices(),
                |i: int| Vec3::<S>::zero_value(),
            ),
            r.steps() == self.integration().step_params,
            r.method() == self.integration().integrator_type,
    {
        let scene_model = self.scene_model.clone();
        let scene_state = scene_model.initial_state();
        proof {
            use_type_invariant(&scene_model);
            assert(scene_state@.len() == 6 * scene_state.positions@.len());
        }
        SimulatedScene::new(
            scene_model,
            scene_state,
            self.integration_params.step_params,
            self.integration_params.integrator_type,
        )
    }
}

proof fn lemma_loaded_vertices<S: Scalar>(
    bodies: Seq<SimMesh<S>>,
    meshs: Seq<(LoadedMesh<S>, MeshParams<S>)>,
    n: nat,
)
    requires
        n <= bodies.len(),
        n <= meshs.len(),
        forall|i: int| 0 <= i < n ==> (#[trigger] bodies[i]).vertices() == meshs[i].0.0@,
    ensures
        offset(bodies, n) == loaded_vertices(meshs, n),
    decreases n,
{
    if n > 0 {
        lemma_loaded_vertices(bodies, meshs, (n - 1) as nat);
    }
}

/// A scene that advances with real time.
pub struct SimulatedScene<S: Scalar> {
    scene_model: SceneModel<S>,
    scene_state: SceneModelState<S>,
    step_params: StepParams<S>,
    integrator: SwappableIntegrator<SceneModel<S>>,
}

impl<S: Scalar> SimulatedScene<S> {
    /// The scene that is simulated.
    pub closed spec fn model(&self) -> SceneModel<S> {
        self.scene_model
    }

    /// The positions and velocities at present.
    pub closed spec fn state(&self) -> SceneModelState<S> {
        self.scene_state
    }

    /// How simulated time follows real time.
    pub closed spec fn steps(&self) -> StepParams<S> {
        self.step_params
    }

    /// The method of integration.
    pub closed spec fn method(&self) -> IntegratorType {
        self.integrator.choice()
    }

    /// What holds of a scene between two frames: the state has a position
    /// and a velocity for every vertex of the model.
    pub open spec fn wf(&self) -> bool {
        &&& self.model().wf()
        &&& self.state().valid()
        &&& self.state()@.len() == self.model().dimension()
    }

    /// A scene in the state `scene_state`.
    pub fn new(
        scene_model: SceneModel<S>,
        scene_state: SceneModelState<S>,
        step_params: StepParams<S>,
        integrator_type: IntegratorType,
    ) -> (r: Self)
        requires
            scene_state.valid(),
            scene_state@.len() == scene_model.dimension(),
        ensures
            r.wf(),
            r.model() == scene_model,
            r.state() == scene_state,
            r.steps() == step_params,
            r.method() == integrator_type,
    {
        proof {
            use_type_invariant(&scene_model);
        }
        SimulatedScene {
            scene_model,
            scene_state,
            step_params,
            integrator: SwappableIntegrator::new(integrator_type),
        }
    }

    pub fn scene_model(&self) -> (r: &SceneModel<S>)
        ensures
            *r == self.model(),
    {
        &self.scene_model
    }

    pub fn scene_state(&self) -> (r: &SceneModelState<S>)
        ensures
            *r == self.state(),
    {
        &self.scene_state
    }

    /// The boundary surface of every body in the present state: the points,
    /// and the triangles as indices into the points.
    pub fn surfaces(&self) -> (r: Vec<(Vec<Vec3<S>>, Vec<[u16; 3]>)>)
        requires
            self.wf(),
        ensures
            r@.len() == self.model().meshes().len(),
            forall|m: int|
                0 <= m < r@.len() ==> {
                    &&& (#[trigger] r@[m]).0@ == self.model().meshes()[m].surface_points(
                        self.state().positions@.subrange(
                            offset(self.model().meshes(), m as nat) as int,
                            offset(self.model().meshes(), (m + 1) as nat) as int,
                        ),
                    )
                    &&& r@[m].1@ == self.model().meshes()[m].surface_faces()
                },
    {
        let meshes = self.scene_model.meshs();
        let intervals = self.scene_model.mesh_intervals();
        let n: usize = meshes.len();
        let mut out: Vec<(Vec<Vec3<S>>, Vec<[u16; 3]>)> = Vec::new();
        assert(self.state()@.len() == 6 * self.state().positions@.len());
        let mut m: usize = 0;
        while m < n
            invariant
                m <= n,
                self.wf(),
                meshes@ == self.model().meshes(),
                intervals@ == self.model().intervals(),
                n == meshes@.len(),
                self.state().positions@.len() == self.model().total_vertices(),
                self.scene_state == self.state(),
                out@.len() == m,
                forall|k: int|
                    0 <= k < m ==> {
                        &&& (#[trigger] out@[k]).0@ == self.model().meshes()[k].surface_points(
                            self.state().positions@.subrange(
                                offset(self.model().meshes(), k as nat) as int,
                                offset(self.model().meshes(), (k + 1) as nat) as int,
                            ),
                        )
                        &&& out@[k].1@ == self.model().meshes()[k].surface_faces()
                    },
            decreases n - m,
        {
            proof {
                lemma_offset_bounds(meshes@, (m + 1) as nat, n as nat);
            }
            let start: usize = intervals[m][0] as usize;
            let end: usize = intervals[m][1] as usize;
            let positions = vstd::slice::slice_subrange(
                self.scene_state.positions.as_slice(),
                start,
                end,
            );
            let surface = meshes[m].boundary_vertices_faces(positions);
            out.push(surface);
            m += 1;
        }
        out
    }

    /// Advances the scene by a frame of `delta_secs` real seconds, in
    /// `frame_steps` steps of the size `frame_step_size`, with the time
    /// starting at zero.
    pub fn update(&mut self, delta_secs: S)
        requires
            old(self).wf(),
        ensures
            final(self).wf(),
            final(self).model() == old(self).model(),
            final(self).steps() == old(self).steps(),
            final(self).method() == old(self).method(),
            final(self).state()@ == advanced_by(
                old(self).method(),
                &old(self).model(),
                old(self).state()@,
                frame_step_size(old(self).steps(), delta_secs),
                frame_steps(old(self).steps(), delta_secs) as nat,
            ),
    {
        let (steps, step_size) = frame_plan(&self.step_params, delta_secs);
        let mut time = S::from_usize(0);
        let ghost integrator = self.integrator;
        let ghost model = self.scene_model;
        let ghost start = self.scene_state@;
        self.integrator.n_steps(
            &self.scene_model,
            &mut self.scene_state,
            &mut time,
            &step_size,
            steps,
        );
        proof {
            lemma_iterated_agrees(
                |x: Seq<S>, t: S|
                    SwappableIntegrator::<SceneModel<S>>::advanced(
                        integrator.settings(),
                        &model,
                        x,
                        t,
                        step_size,
                    ),
                |y: Seq<S>, t: S| chosen_step(integrator.choice(), &model, y, t, step_size),
                start,
                zero::<S>(),
                step_size,
                steps as nat,
            );
        }
    }
}

} // verus!
