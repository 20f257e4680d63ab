//! The scene: soft bodies over a floor and beside a sphere, as a system of
//! ordinary differential equations in the positions and velocities of all
//! their vertices.
use vstd::prelude::*;
use crate::error::Error;
use crate::linalg::Vec3;
use crate::ode::model::{Model, ModelState};
use crate::scalar::{is_positive, positive, zero, Scalar};
use crate::simulated_scene::sim_mesh::SimMesh;

verus! {

/// What all bodies of a scene are subject to.
#[derive(Clone, Copy, Debug, PartialEq)]
pub struct SceneModelParams<S> {
    /// Gravity, along the negative y axis.
    pub g: S,
}

/// The positions and the velocities of all vertices of a scene.
#[derive(Clone, Debug, PartialEq)]
pub struct SceneModelState<S> {
    pub positions: Vec<Vec3<S>>,
    pub velocities: Vec<Vec3<S>>,
}

/// The flat vector of a state: the components of all positions, then the
/// components of all velocities.
pub open spec fn flat<S: Scalar>(positions: Seq<Vec3<S>>, velocities: Seq<Vec3<S>>) -> Seq<S> {
    Seq::new(
        3 * positions.len() + 3 * velocities.len(),
        |i: int|
            if i < 3 * positions.len() {
                positions[i / 3].component(i % 3)
            } else {
                velocities[(i - 3 * positions.len()) / 3].component((i - 3 * positions.len()) % 3)
            },
    )
}

/// The `n` vectors whose components are the entries of `x` from `start` on.
pub open spec fn vectors<S: Scalar>(x: Seq<S>, start: int, n: nat) -> Seq<Vec3<S>> {
    Seq::new(
        n,
        |i: int| Vec3 { x: x[start + 3 * i], y: x[start + 3 * i + 1], z: x[start + 3 * i + 2] },
    )
}

/// The positions that the flat vector `x` holds: its first half.
pub open spec fn positions_of<S: Scalar>(x: Seq<S>) -> Seq<Vec3<S>> {
    vectors(x, 0, (x.len() / 6) as nat)
}

/// The velocities that the flat vector `x` holds: its second half.
pub open spec fn velocities_of<S: Scalar>(x: Seq<S>) -> Seq<Vec3<S>> {
    vectors(x, 3 * (x.len() as int / 6), (x.len() / 6) as nat)
}

/// A state is split back into the positions and velocities that it was made
/// of.
pub proof fn lemma_flat_inverse<S: Scalar>(positions: Seq<Vec3<S>>, velocities: Seq<Vec3<S>>)
    requires
        positions.len() == velocities.len(),
    ensures
        positions_of(flat(positions, velocities)) == positions,
        velocities_of(flat(positions, velocities)) == velocities,
{
    let x = flat(positions, velocities);
    let n = positions.len();
    assert(x.len() == 6 * n);
    assert(x.len() / 6 == n);
    assert forall|i: int| 0 <= i < n implies #[trigger] positions_of(x)[i] == positions[i] by {
        assert((3 * i) / 3 == i && (3 * i) % 3 == 0);
        assert((3 * i + 1) / 3 == i && (3 * i + 1) % 3 == 1);
        assert((3 * i + 2) / 3 == i && (3 * i + 2) % 3 == 2);
    }
    assert forall|i: int| 0 <= i < n implies #[trigger] velocities_of(x)[i] == velocities[i] by {
        assert((3 * i) / 3 == i && (3 * i) % 3 == 0);
        assert((3 * i + 1) / 3 == i && (3 * i + 1) % 3 == 1);
        assert((3 * i + 2) / 3 == i && (3 * i + 2) % 3 == 2);
    }
    assert(positions_of(x) =~= positions);
    assert(velocities_of(x) =~= velocities);
}

/// Makes `out` a vector of `n` zero vectors, in the storage that it has.
pub fn fill_zero_vectors<S: Scalar>(out: &mut Vec<Vec3<S>>, n: usize)
    ensures
        final(out)@ == Seq::new(n as nat, |i: int| Vec3::<S>::zero_value()),
{
    out.clear();
    let mut i: usize = 0;
    while i < n
        invariant
            i <= n,
            out@.len() == i,
            forall|j: int| 0 <= j < i ==> #[trigger] out@[j] == Vec3::<S>::zero_value(),
        decreases n - i,
    {
        out.push(Vec3::zeros());
        i += 1;
    }
    assert(out@ =~= Seq::new(n as nat, |i: int| Vec3::<S>::zero_value()));
}

impl<S: Scalar> ModelState<S> for SceneModelState<S> {
    /// There are as many velocities as positions, and their components can
    /// be counted.
    open spec fn valid(&self) -> bool {
        &&& self.positions@.len() == self.velocities@.len()
        &&& 6 * self.positions@.len() <= usize::MAX
    }

    open spec fn view(&self) -> Seq<S> {
        flat(self.positions@, self.velocities@)
    }

    fn new() -> (r: Self) {
        SceneModelState { positions: Vec::new(), velocities: Vec::new() }
    }

    fn zeros_as(&mut self, other: &Self) {
        let n: usize = other.positions.len();
        fill_zero_vectors(&mut self.positions, n);
        fill_zero_vectors(&mut self.velocities, n);
        assert(self@ =~= Seq::new(other@.len(), |i: int| zero::<S>()));
    }

    fn len(&self) -> (n: usize) {
        3 * self.positions.len() + 3 * self.velocities.len()
    }

    fn get(&self, i: usize) -> (x: S) {
        let split: usize = 3 * self.positions.len();
        if i < split {
            self.positions[i / 3].get(i % 3)
        } else {
            self.velocities[(i - split) / 3].get((i - split) % 3)
        }
    }

    fn set(&mut self, i: usize, x: S) {
        let split: usize = 3 * self.positions.len();
        if i < split {
            let mut p = self.positions[i / 3];
            p.set(i % 3, x);
            self.positions.set(i / 3, p);
        } else {
            let mut v = self.velocities[(i - split) / 3];
            v.set((i - split) % 3, x);
            self.velocities.set((i - split) / 3, v);
        }
        assert(self@ =~= old(self)@.update(i as int, x));
    }
}

/// The force with which the floor at height `floor_height` pushes a vertex at
/// `p` that moves with `v`.
///
/// Above the floor there is none. Below it, the floor pushes up with
/// `penalty` times the depth, and against the direction of `v` with
/// `friction` times as much; a vertex at rest feels no friction.
pub open spec fn floor_penalty<S: Scalar>(
    p: Vec3<S>,
    v: Vec3<S>,
    floor_height: S,
    penalty: S,
    friction: S,
) -> Vec3<S> {
    if p.y.below(floor_height) {
        let normal_force = penalty.product(floor_height.difference(p.y));
        let along = if positive(v.length()) {
            Vec3::<S>::zero_value().difference(
                v.divided(v.length()).scaled(normal_force).scaled(friction),
            )
        } else {
            Vec3::<S>::zero_value()
        };
        Vec3 { x: along.x, y: along.y.sum(normal_force), z: along.z }
    } else {
        Vec3::<S>::zero_value()
    }
}

/// Whether a vertex at `p` is inside the sphere, and not at its very centre.
pub open spec fn sphere_touches<S: Scalar>(p: Vec3<S>, center: Vec3<S>, radius: S) -> bool {
    let distance = p.difference(center).length();
    distance.below(radius) && positive(distance)
}

/// The force with which the sphere pushes a vertex at `p` inside it: away
/// from the centre, with `penalty` times the depth.
pub open spec fn sphere_push<S: Scalar>(p: Vec3<S>, center: Vec3<S>, radius: S, penalty: S) -> Vec3<
    S,
> {
    let offset = p.difference(center);
    let distance = offset.length();
    offset.divided(distance).scaled(penalty).scaled(radius.difference(distance))
}

/// The force with which the sphere pushes a vertex at `p`: none outside it
/// and at its centre.
pub open spec fn sphere_penalty<S: Scalar>(
    p: Vec3<S>,
    center: Vec3<S>,
    radius: S,
    penalty: S,
) -> Vec3<S> {
    if sphere_touches(p, center, radius) {
        sphere_push(p, center, radius, penalty)
    } else {
        Vec3::<S>::zero_value()
    }
}

/// The force of the floor on a vertex.
pub fn floor_force<S: Scalar>(
    p: &Vec3<S>,
    v: &Vec3<S>,
    floor_height: S,
    penalty: S,
    friction: S,
) -> (r: Vec3<S>)
    ensures
        r == floor_penalty(*p, *v, floor_height, penalty, friction),
{
    if p.y.lt(floor_height) {
        let normal_force = penalty.mul(floor_height.sub(p.y));
        let speed = v.norm();
        let mut force = if is_positive(speed) {
            Vec3::zeros().sub(&v.unscale(speed).scale(normal_force).scale(friction))
        } else {
            Vec3::zeros()
        };
        force.y = force.y.add(normal_force);
        force
    } else {
        Vec3::zeros()
    }
}

/// The force of the sphere on a vertex.
pub fn sphere_force<S: Scalar>(p: &Vec3<S>, center: &Vec3<S>, radius: S, penalty: S) -> (r: Vec3<
    S,
>)
    ensures
        r == sphere_penalty(*p, *center, radius, penalty),
{
    let offset = p.sub(center);
    let distance = offset.norm();
    if distance.lt(radius) && is_positive(distance) {
        offset.unscale(distance).scale(penalty).scale(radius.sub(distance))
    } else {
        Vec3::zeros()
    }
}

/// The number of vertices of the first `n` meshes together.
pub open spec fn offset<S: Scalar>(meshes: Seq<SimMesh<S>>, n: nat) -> nat
    decreases n,
{
    if n == 0 {
        0
    } else {
        offset(meshes, (n - 1) as nat) + meshes[n - 1].vertices().len()
    }
}

/// The rest positions of the first `n` meshes, one mesh after the other.
pub open spec fn rest_positions<S: Scalar>(meshes: Seq<SimMesh<S>>, n: nat) -> Seq<Vec3<S>>
    decreases n,
{
    if n == 0 {
        Seq::empty()
    } else {
        rest_positions(meshes, (n - 1) as nat) + meshes[n - 1].vertices()
    }
}

/// A scene, unchanged once it is built.
pub struct SceneModel<S: Scalar> {
    sim_meshs: Vec<SimMesh<S>>,
    params: SceneModelParams<S>,
    mesh_intervals: Vec<[u16; 2]>,
    penalty_force: S,
    floor_friction_coeff: S,
    floor_height: S,
    sphere_radius: S,
    sphere_pos: Vec3<S>,
}

impl<S: Scalar> SceneModel<S> {
    /// The soft bodies.
    pub closed spec fn meshes(&self) -> Seq<SimMesh<S>> {
        self.sim_meshs@
    }

    /// For each body, where its vertices start and end among all vertices.
    pub closed spec fn intervals(&self) -> Seq<[u16; 2]> {
        self.mesh_intervals@
    }

    /// Gravity, along the negative y axis.
    pub closed spec fn gravity(&self) -> S {
        self.params.g
    }

    /// The stiffness of floor and sphere: force per unit of depth.
    pub closed spec fn penalty(&self) -> S {
        self.penalty_force
    }

    /// The friction of the floor, as a share of its normal force.
    pub closed spec fn friction(&self) -> S {
        self.floor_friction_coeff
    }

    /// The height of the floor.
    pub closed spec fn floor(&self) -> S {
        self.floor_height
    }

    /// The radius of the sphere.
    pub closed spec fn radius(&self) -> S {
        self.sphere_radius
    }

    /// The centre of the sphere.
    pub closed spec fn center(&self) -> Vec3<S> {
        self.sphere_pos
    }

    /// The number of vertices of all bodies together.
    pub open spec fn total_vertices(&self) -> nat {
        offset(self.meshes(), self.meshes().len())
    }

    /// What holds of every scene: its bodies are well formed, there are fewer
    /// than 2^16 vertices, and the interval of each body starts where that of
    /// the body before it ends, and holds as many indices as the body has
    /// vertices.
    #[verifier::type_invariant]
    pub open spec fn wf(&self) -> bool {
        &&& forall|m: int| 0 <= m < self.meshes().len() ==> (#[trigger] self.meshes()[m]).wf()
        &&& self.total_vertices() < 65536
        &&& self.intervals().len() == self.meshes().len()
        &&& forall|m: int|
            0 <= m < self.meshes().len() ==> (#[trigger] self.intervals()[m])[0] == offset(
                self.meshes(),
                m as nat,
            ) && self.intervals()[m][1] == offset(self.meshes(), (m + 1) as nat)
    }

    /// The contact force on a vertex at `p` that moves with `v`: that of the
    /// floor, and that of the sphere added to it where the sphere touches.
    pub open spec fn contact(&self, p: Vec3<S>, v: Vec3<S>) -> Vec3<S> {
        let from_floor = floor_penalty(p, v, self.floor(), self.penalty(), self.friction());
        if sphere_touches(p, self.center(), self.radius()) {
            from_floor.sum(sphere_push(p, self.center(), self.radius(), self.penalty()))
        } else {
            from_floor
        }
    }

    /// The contact force on every vertex.
    pub open spec fn contacts(&self, positions: Seq<Vec3<S>>, velocities: Seq<Vec3<S>>) -> Seq<
        Vec3<S>,
    > {
        Seq::new(positions.len(), |i: int| self.contact(positions[i], velocities[i]))
    }

    /// The accelerations of the vertices of the body `m`, where `positions`
    /// and `velocities` are those of all vertices of the scene.
    pub open spec fn body_accelerations(
        &self,
        m: int,
        positions: Seq<Vec3<S>>,
        velocities: Seq<Vec3<S>>,
    ) -> Seq<Vec3<S>> {
        let start = offset(self.meshes(), m as nat) as int;
        let end = offset(self.meshes(), (m + 1) as nat) as int;
        let p = positions.subrange(start, end);
        let v = velocities.subrange(start, end);
        self.meshes()[m].accelerations(p, v, self.contacts(p, v), self.gravity())
    }

    /// The accelerations of the vertices of the first `n` bodies, one body
    /// after the other.
    pub open spec fn accelerations(
        &self,
        positions: Seq<Vec3<S>>,
        velocities: Seq<Vec3<S>>,
        n: nat,
    ) -> Seq<Vec3<S>>
        decreases n,
    {
        if n == 0 {
            Seq::empty()
        } else {
            self.accelerations(positions, velocities, (n - 1) as nat) + self.body_accelerations(
                n - 1,
                positions,
                velocities,
            )
        }
    }

    /// Builds a scene. Fails with `IndexOverflow` where the bodies have 2^16
    /// vertices or more together.
    pub fn new(
        sim_meshs: Vec<SimMesh<S>>,
        params: SceneModelParams<S>,
        penalty_force: S,
        floor_friction_coeff: S,
        floor_height: S,
        sphere_radius: S,
        sphere_pos: Vec3<S>,
    ) -> (r: Result<Self, Error>)
        ensures
            match r {
                Ok(scene) => {
                    &&& scene.wf()
                    &&& scene.meshes() == sim_meshs@
                    &&& scene.gravity() == params.g
                    &&& scene.penalty() == penalty_force
                    &&& scene.friction() == floor_friction_coeff
                    &&& scene.floor() == floor_height
                    &&& scene.radius() == sphere_radius
                    &&& scene.center() == sphere_pos
                },
                Err(Error::IndexOverflow) => offset(sim_meshs@, sim_meshs@.len()) >= 65536,
                Err(_) => false,
            },
    {
        let mut mesh_intervals: Vec<[u16; 2]> = Vec::new();
        let mut total_size: usize = 0;
        let n: usize = sim_meshs.len();
        let mut m: usize = 0;
        while m < n
            invariant
                m <= n,
                n == sim_meshs@.len(),
                total_size == offset(sim_meshs@, m as nat),
                total_size < 65536,
                mesh_intervals@.len() == m,
                forall|j: int| 0 <= j < m ==> (#[trigger] sim_meshs@[j]).wf(),
                forall|j: int|
                    0 <= j < m ==> (#[trigger] mesh_intervals@[j])[0] == offset(
                        sim_meshs@,
                        j as nat,
                    ) && mesh_intervals@[j][1] == offset(sim_meshs@, (j + 1) as nat),
            decreases n - m,
        {
            let mesh = &sim_meshs[m];
            proof {
                use_type_invariant(mesh);
            }
            let new_total_size: usize = total_size + mesh.num_vertices() as usize;
            if new_total_size >= 65536 {
                proof {
                    lemma_offset_grows(sim_meshs@, (m + 1) as nat, n as nat);
                }
                return Err(Error::IndexOverflow);
            }
            let interval: [u16; 2] = [total_size as u16, new_total_size as u16];
            mesh_intervals.push(interval);
            total_size = new_total_size;
            m += 1;
        }
        Ok(
            SceneModel {
                sim_meshs,
                params,
                mesh_intervals,
                penalty_force,
                floor_friction_coeff,
                floor_height,
                sphere_radius,
                sphere_pos,
            },
        )
    }

    pub fn meshs(&self) -> (r: &[SimMesh<S>])
        ensures
            r@ == self.meshes(),
    {
        self.sim_meshs.as_slice()
    }

    pub fn mesh_intervals(&self) -> (r: &[[u16; 2]])
        ensures
            r@ == self.intervals(),
    {
        self.mesh_intervals.as_slice()
    }

    pub fn params(&self) -> (r: &SceneModelParams<S>)
        ensures
            r.g == self.gravity(),
    {
        &self.params
    }

    pub fn penalty_force(&self) -> (r: S)
        ensures
            r == self.penalty(),
    {
        self.penalty_force
    }

    pub fn floor_friction_coeff(&self) -> (r: S)
        ensures
            r == self.friction(),
    {
        self.floor_friction_coeff
    }

    pub fn floor_height(&self) -> (r: S)
        ensures
            r == self.floor(),
    {
        self.floor_height
    }

    pub fn sphere_radius(&self) -> (r: S)
        ensures
            r == self.radius(),
    {
        self.sphere_radius
    }

    pub fn sphere_pos(&self) -> (r: Vec3<S>)
        ensures
            r == self.center(),
    {
        self.sphere_pos
    }

    /// The contact force on a vertex at `p` that moves with `v`.
    pub fn contact_force(&self, p: &Vec3<S>, v: &Vec3<S>) -> (r: Vec3<S>)
        ensures
            r == self.contact(*p, *v),
    {
        let from_floor = floor_force(
            p,
            v,
            self.floor_height,
            self.penalty_force,
            self.floor_friction_coeff,
        );
        let offset = p.sub(&self.sphere_pos);
        let distance = offset.norm();
        if distance.lt(self.sphere_radius) && is_positive(distance) {
            from_floor.add(
                &offset.unscale(distance).scale(self.penalty_force).scale(
                    self.sphere_radius.sub(distance),
                ),
            )
        } else {
            from_floor
        }
    }

    /// The contact force on every vertex.
    pub fn contact_forces(&self, positions: &[Vec3<S>], velocities: &[Vec3<S>]) -> (r: Vec<
        Vec3<S>,
    >)
        requires
            positions@.len() == velocities@.len(),
        ensures
            r@ == self.contacts(positions@, velocities@),
    {
        let n: usize = positions.len();
        let mut forces: Vec<Vec3<S>> = Vec::new();
        let mut i: usize = 0;
        while i < n
            invariant
                i <= n,
                n == positions@.len(),
                n == velocities@.len(),
                forces@.len() == i,
                forall|j: int|
                    0 <= j < i ==> #[trigger] forces@[j] == self.contact(
                        positions@[j],
                        velocities@[j],
                    ),
            decreases n - i,
        {
            forces.push(self.contact_force(&positions[i], &velocities[i]));
            i += 1;
        }
        assert(forces@ =~= self.contacts(positions@, velocities@));
        forces
    }

    /// The state in which every body is at rest in its rest shape.
    pub fn initial_state(&self) -> (r: SceneModelState<S>)
        ensures
            r.valid(),
            r.positions@ == rest_positions(self.meshes(), self.meshes().len()),
            r.velocities@ == Seq::new(self.total_vertices(), |i: int| Vec3::<S>::zero_value()),
            r.positions@.len() == self.total_vertices(),
    {
        proof {
            use_type_invariant(self);
        }
        let mut positions: Vec<Vec3<S>> = Vec::new();
        let n: usize = self.sim_meshs.len();
        let mut m: usize = 0;
        while m < n
            invariant
                m <= n,
                n == self.meshes().len(),
                self.wf(),
                positions@ == rest_positions(self.meshes(), m as nat),
                positions@.len() == offset(self.meshes(), m as nat),
            decreases n - m,
        {
            let rest = self.sim_meshs[m].vertices_obj_space();
            let count: usize = rest.len();
            let ghost before = positions@;
            let mut i: usize = 0;
            while i < count
                invariant
                    i <= count,
                    count == rest@.len(),
                    positions@ == before + rest@.subrange(0, i as int),
                decreases count - i,
            {
                positions.push(rest[i]);
                assert(rest@.subrange(0, i + 1) =~= rest@.subrange(0, i as int).push(rest@[i as int]));
                assert(positions@ =~= before + rest@.subrange(0, i + 1));
                i += 1;
            }
            assert(rest@.subrange(0, count as int) =~= rest@);
            m += 1;
        }
        proof {
            lemma_offset_grows(self.meshes(), n as nat, n as nat);
        }
        let mut velocities: Vec<Vec3<S>> = Vec::new();
        fill_zero_vectors(&mut velocities, positions.len());
        SceneModelState { positions, velocities }
    }
}

impl<S: Scalar> SceneModel<S> {
    /// The rate of change of the positions and of the velocities: the
    /// velocities, and the accelerations of all bodies.
    pub open spec fn rates(&self, positions: Seq<Vec3<S>>, velocities: Seq<Vec3<S>>) -> (
        Seq<Vec3<S>>,
        Seq<Vec3<S>>,
    ) {
        (velocities, self.accelerations(positions, velocities, self.meshes().len()))
    }

    proof fn lemma_accelerations_len(
        &self,
        positions: Seq<Vec3<S>>,
        velocities: Seq<Vec3<S>>,
        n: nat,
    )
        requires
            n <= self.meshes().len(),
        ensures
            self.accelerations(positions, velocities, n).len() == offset(self.meshes(), n),
        decreases n,
    {
        if n > 0 {
            self.lemma_accelerations_len(positions, velocities, (n - 1) as nat);
        }
    }
}

/// The scene is the system `dx/dt = v`, `dv/dt = a(x, v)`: the rate of a
/// state holds the velocities of the state where the state holds its
/// positions, and the accelerations where the state holds its velocities.
pub proof fn lemma_rate_is_velocity_and_acceleration<S: Scalar>(
    scene: SceneModel<S>,
    x: Seq<S>,
    t: S,
)
    requires
        scene.wf(),
        x.len() == scene.dimension(),
    ensures
        scene.rate(x, t).len() == x.len(),
        positions_of(scene.rate(x, t)) == velocities_of(x),
        velocities_of(scene.rate(x, t)) == scene.accelerations(
            positions_of(x),
            velocities_of(x),
            scene.meshes().len(),
        ),
{
    let velocities = velocities_of(x);
    let accelerations = scene.accelerations(positions_of(x), velocities, scene.meshes().len());
    scene.lemma_accelerations_len(positions_of(x), velocities, scene.meshes().len());
    lemma_flat_inverse(velocities, accelerations);
}

impl<S: Scalar> Model for SceneModel<S> {
    type S = S;

    type State = SceneModelState<S>;

    /// Three components of the position and three of the velocity of every
    /// vertex.
    open spec fn dimension(&self) -> usize {
        (6 * self.total_vertices()) as usize
    }

    open spec fn rate(&self, x: Seq<S>, t: S) -> Seq<S> {
        let (dp, dv) = self.rates(positions_of(x), velocities_of(x));
        flat(dp, dv)
    }

    fn derivative(&self, x: &SceneModelState<S>, dxdt: &mut SceneModelState<S>, _t: &S) {
        proof {
            use_type_invariant(self);
            assert(x.positions@.len() == x.velocities@.len());
            assert(x@.len() == 6 * x.positions@.len());
            assert(dxdt@.len() == 6 * dxdt.positions@.len());
            lemma_flat_inverse(x.positions@, x.velocities@);
        }
        let n: usize = self.sim_meshs.len();
        let ghost total = self.total_vertices();
        let mut m: usize = 0;
        while m < n
            invariant
                m <= n,
                n == self.meshes().len(),
                self.wf(),
                total == self.total_vertices(),
                x.positions@.len() == total,
                x.velocities@.len() == total,
                dxdt.positions@.len() == total,
                dxdt.velocities@.len() == total,
                self.accelerations(x.positions@, x.velocities@, m as nat).len() == offset(
                    self.meshes(),
                    m as nat,
                ),
                offset(self.meshes(), m as nat) <= total,
                forall|i: int|
                    0 <= i < offset(self.meshes(), m as nat) ==> #[trigger] dxdt.velocities@[i]
                        == self.accelerations(x.positions@, x.velocities@, m as nat)[i],
                forall|i: int|
                    0 <= i < offset(self.meshes(), m as nat) ==> #[trigger] dxdt.positions@[i]
                        == x.velocities@[i],
            decreases n - m,
        {
            proof {
                lemma_offset_grows(self.meshes(), (m + 1) as nat, n as nat);
            }
            let mesh = &self.sim_meshs[m];
            let start: usize = self.mesh_intervals[m][0] as usize;
            let end: usize = self.mesh_intervals[m][1] as usize;
            let positions = vstd::slice::slice_subrange(x.positions.as_slice(), start, end);
            let velocities = vstd::slice::slice_subrange(x.velocities.as_slice(), start, end);
            let forces = self.contact_forces(positions, velocities);
            let accels = mesh.vertex_accels(positions, velocities, forces.as_slice(), self.params.g);
            let ghost before = self.accelerations(x.positions@, x.velocities@, m as nat);
            let ghost after = self.accelerations(x.positions@, x.velocities@, (m + 1) as nat);
            assert(accels@ == self.body_accelerations(m as int, x.positions@, x.velocities@));
            assert(after == before + accels@);
            let count: usize = end - start;
            let mut i: usize = 0;
            while i < count
                invariant
                    i <= count,
                    count == end - start,
                    start == offset(self.meshes(), m as nat),
                    end == offset(self.meshes(), (m + 1) as nat),
                    end <= total,
                    accels@.len() == count,
                    before.len() == start,
                    after == before + accels@,
                    x.velocities@.len() == total,
                    dxdt.positions@.len() == total,
                    dxdt.velocities@.len() == total,
                    forall|j: int| 0 <= j < start + i ==> #[trigger] dxdt.velocities@[j] == after[j],
                    forall|j: int|
                        0 <= j < start + i ==> #[trigger] dxdt.positions@[j] == x.velocities@[j],
                decreases count - i,
            {
                dxdt.velocities.set(start + i, accels[i]);
                dxdt.positions.set(start + i, x.velocities[start + i]);
                i += 1;
            }
            m += 1;
        }
        proof {
            let acc = self.accelerations(x.positions@, x.velocities@, n as nat);
            assert(dxdt.velocities@ =~= acc);
            assert(dxdt.positions@ =~= x.velocities@);
        }
    }
}

impl<S: Scalar> SceneModel<S> {
    /// Whether the two scenes hold the same data.
    pub open spec fn same_as(&self, other: &Self) -> bool {
        &&& self.meshes().len() == other.meshes().len()
        &&& forall|m: int|
            0 <= m < self.meshes().len() ==> (#[trigger] self.meshes()[m]).same_as(
                &other.meshes()[m],
            )
        &&& self.intervals() == other.intervals()
        &&& self.gravity() == other.gravity()
        &&& self.penalty() == other.penalty()
        &&& self.friction() == other.friction()
        &&& self.floor() == other.floor()
        &&& self.radius() == other.radius()
        &&& self.center() == other.center()
    }
}

proof fn lemma_offset_same<S: Scalar>(a: Seq<SimMesh<S>>, b: Seq<SimMesh<S>>, n: nat)
    requires
        n <= a.len(),
        n <= b.len(),
        forall|m: int| 0 <= m < n ==> (#[trigger] a[m]).vertices() == b[m].vertices(),
    ensures
        offset(a, n) == offset(b, n),
    decreases n,
{
    if n > 0 {
        lemma_offset_same(a, b, (n - 1) as nat);
    }
}

impl<S: Scalar> Clone for SceneModel<S> {
    fn clone(&self) -> (r: Self)
        ensures
            r.wf(),
            r.same_as(self),
    {
        proof {
            use_type_invariant(self);
        }
        let mut sim_meshs: Vec<SimMesh<S>> = Vec::new();
        let n: usize = self.sim_meshs.len();
        let mut m: usize = 0;
        while m < n
            invariant
                m <= n,
                n == self.meshes().len(),
                sim_meshs@.len() == m,
                forall|j: int|
                    0 <= j < m ==> (#[trigger] sim_meshs@[j]).wf() && sim_meshs@[j].same_as(
                        &self.meshes()[j],
                    ),
            decreases n - m,
        {
            sim_meshs.push(self.sim_meshs[m].clone());
            m += 1;
        }
        proof {
            assert forall|k: nat| k <= n implies offset(sim_meshs@, k) == offset(
                self.meshes(),
                k,
            ) by {
                lemma_offset_same(sim_meshs@, self.meshes(), k);
            }
        }
        SceneModel {
            sim_meshs,
            params: self.params,
            mesh_intervals: vstd::slice::slice_to_vec(self.mesh_intervals.as_slice()),
            penalty_force: self.penalty_force,
            floor_friction_coeff: self.floor_friction_coeff,
            floor_height: self.floor_height,
            sphere_radius: self.sphere_radius,
            sphere_pos: self.sphere_pos,
        }
    }
}

/// The vertices of the first `m` meshes are among those of the first `n`,
/// where `m` is at most `n`.
pub proof fn lemma_offset_bounds<S: Scalar>(meshes: Seq<SimMesh<S>>, m: nat, n: nat)
    requires
        m <= n,
    ensures
        offset(meshes, m) <= offset(meshes, n),
{
    lemma_offset_grows(meshes, m, n);
}

proof fn lemma_offset_grows<S: Scalar>(meshes: Seq<SimMesh<S>>, m: nat, n: nat)
    requires
        m <= n,
    ensures
        offset(meshes, m) <= offset(meshes, n),
    decreases n,
{
    if m < n {
        lemma_offset_grows(meshes, m, (n - 1) as nat);
    }
}

} // verus!
