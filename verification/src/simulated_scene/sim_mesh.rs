//! One soft body: a tetrahedral mesh with what is computed once from its rest
//! shape, and the accelerations of its vertices in any later shape.
use rayon::iter::{IndexedParallelIterator, IntoParallelRefIterator, ParallelIterator};
use vstd::prelude::*;
use crate::error::Error;
use crate::linalg::{Mat3, Vec3};
use crate::scalar::{is_positive, positive, zero, Scalar};
use crate::topology::{
    boundary, boundary_vertices, compact, corners_below, corners_distinct, extract_boundary,
    face_opposite, lemma_boundary_closed, lemma_boundary_faces_from, lemma_renumbered_degree,
    oriented_face, renumbered, surface_edge_degree, tet_face, tetrahedra_valid, OrientedFace,
    Triangle,
};

verus! {

/// The material of a soft body.
#[derive(Clone, Copy, Debug, PartialEq)]
pub struct MeshParams<S> {
    /// The first Lamé coefficient of the elastic stress.
    pub incompressibility: S,
    /// The second Lamé coefficient of the elastic stress.
    pub rigidity: S,
    /// The counterpart of `incompressibility` in the viscous stress.
    pub viscous_incompressibility: S,
    /// The counterpart of `rigidity` in the viscous stress.
    pub viscous_rigidity: S,
    /// Mass per unit of rest volume.
    pub density: S,
}

/// A mesh as it is read: the vertices, and four vertex indices for each
/// tetrahedron.
pub type LoadedMesh<S> = (Vec<Vec3<S>>, Vec<[u16; 4]>);

/// The matrix whose columns are the edges of `t` that run from its last
/// corner to the three others, with `vals` giving a vector for each vertex.
pub open spec fn edge_matrix<S: Scalar>(t: [u16; 4], vals: Seq<Vec3<S>>) -> Mat3<S> {
    let origin = vals[t[3] as int];
    Mat3 {
        c0: vals[t[0] as int].difference(origin),
        c1: vals[t[1] as int].difference(origin),
        c2: vals[t[2] as int].difference(origin),
    }
}

/// The volume of `t`: a sixth of the magnitude of the determinant of its
/// edge matrix.
pub open spec fn tet_volume<S: Scalar>(t: [u16; 4], rest: Seq<Vec3<S>>) -> S {
    edge_matrix(t, rest).determinant_value().magnitude().quotient(S::of_count(6))
}

/// The mass that a tetrahedron of the given volume lends to each of its
/// corners: a quarter of its own.
pub open spec fn corner_mass<S: Scalar>(density: S, volume: S) -> S {
    density.product(volume).quotient(S::of_count(4))
}

/// `masses` after `m` has been added at the first `k` corners of `t`.
pub open spec fn lump_tet<S: Scalar>(masses: Seq<S>, t: [u16; 4], m: S, k: nat) -> Seq<S>
    decreases k,
{
    if k == 0 {
        masses
    } else {
        let before = lump_tet(masses, t, m, (k - 1) as nat);
        let v = t[k - 1] as int;
        before.update(v, before[v].sum(m))
    }
}

/// The vertex masses after the first `n` tetrahedra have been lumped: each
/// vertex starts at zero and receives the corner mass of every tetrahedron
/// that it is a corner of, in the order of the tetrahedra.
pub open spec fn lumped_masses<S: Scalar>(
    rest: Seq<Vec3<S>>,
    tets: Seq<[u16; 4]>,
    density: S,
    n: nat,
) -> Seq<S>
    decreases n,
{
    if n == 0 {
        Seq::new(rest.len(), |i: int| zero::<S>())
    } else {
        lump_tet(
            lumped_masses(rest, tets, density, (n - 1) as nat),
            tets[n - 1],
            corner_mass(density, tet_volume(tets[n - 1], rest)),
            4,
        )
    }
}

/// Half the vector product of the two edges that leave the least vertex of
/// `f`: a normal of the face, as long as the face's area.
pub open spec fn raw_normal<S: Scalar>(f: Triangle, rest: Seq<Vec3<S>>) -> Vec3<S> {
    let origin = rest[f.a as int];
    rest[f.b as int].difference(origin).cross_product(
        rest[f.c as int].difference(origin),
    ).divided(S::of_count(2))
}

/// Whether the raw normal of the face of `t` opposite its corner `k` points
/// to the side of that corner.
pub open spec fn faces_corner<S: Scalar>(t: [u16; 4], k: int, rest: Seq<Vec3<S>>) -> bool {
    let f = tet_face(t, k);
    positive(rest[t[k] as int].difference(rest[f.a as int]).dot_product(raw_normal(f, rest)))
}

/// The area-scaled normal of the face of `t` opposite its corner `k`, turned
/// so that it points away from that corner.
pub open spec fn face_normal<S: Scalar>(t: [u16; 4], k: int, rest: Seq<Vec3<S>>) -> Vec3<S> {
    if faces_corner(t, k, rest) {
        raw_normal(tet_face(t, k), rest).negation()
    } else {
        raw_normal(tet_face(t, k), rest)
    }
}

/// For each face of `t`, whether its raw normal had to be turned.
pub open spec fn tet_flips<S: Scalar>(t: [u16; 4], rest: Seq<Vec3<S>>) -> [bool; 4] {
    [
        faces_corner(t, 0, rest),
        faces_corner(t, 1, rest),
        faces_corner(t, 2, rest),
        faces_corner(t, 3, rest),
    ]
}

/// For each face of each tetrahedron, whether its raw normal had to be turned.
pub open spec fn mesh_flips<S: Scalar>(tets: Seq<[u16; 4]>, rest: Seq<Vec3<S>>) -> Seq<[bool; 4]> {
    Seq::new(tets.len(), |i: int| tet_flips(tets[i], rest))
}

/// The boundary faces of the mesh, each walked so that its normal by the
/// right-hand rule points out of the tetrahedron that it belongs to.
pub open spec fn boundary_of<S: Scalar>(tets: Seq<[u16; 4]>, rest: Seq<Vec3<S>>) -> Seq<
    OrientedFace,
> {
    boundary(tets, mesh_flips(tets, rest))
}

/// The least index of a tetrahedron whose edge matrix is singular, or `n`
/// where the first `n` tetrahedra have none.
pub open spec fn first_degenerate<S: Scalar>(tets: Seq<[u16; 4]>, rest: Seq<Vec3<S>>, n: nat) -> nat
    decreases n,
{
    if n == 0 {
        0
    } else {
        let before = first_degenerate(tets, rest, (n - 1) as nat);
        if before < n - 1 {
            before
        } else if edge_matrix(tets[n - 1], rest).singular() {
            (n - 1) as nat
        } else {
            n
        }
    }
}

/// The stress that answers the strain `strain` in a material with the Lamé
/// coefficients `lambda` and `mu`: `lambda · tr(strain) · I + 2 mu · strain`.
pub open spec fn stress<S: Scalar>(strain: Mat3<S>, lambda: S, mu: S) -> Mat3<S> {
    Mat3::<S>::identity_value().scaled(lambda.product(strain.trace_value())).sum(
        strain.scaled(S::of_count(2).product(mu)),
    )
}

/// The matrix that carries the internal force of the tetrahedron `t`: its
/// deformation gradient times the sum of its elastic and its viscous stress.
///
/// With `F` the deformation gradient and `G` its counterpart for the
/// velocities, the elastic strain is `FᵀF − I` and the viscous strain is
/// `FᵀG + GᵀF`.
pub open spec fn force_carrier<S: Scalar>(
    t: [u16; 4],
    inverse: Mat3<S>,
    params: MeshParams<S>,
    positions: Seq<Vec3<S>>,
    velocities: Seq<Vec3<S>>,
) -> Mat3<S> {
    let f = edge_matrix(t, positions).product(inverse);
    let g = edge_matrix(t, velocities).product(inverse);
    let elastic = f.transposed().product(f).difference(Mat3::<S>::identity_value());
    let viscous = f.transposed().product(g).sum(g.transposed().product(f));
    f.product(
        stress(elastic, params.incompressibility, params.rigidity).sum(
            stress(viscous, params.viscous_incompressibility, params.viscous_rigidity),
        ),
    )
}

/// `forces` after the first `k` corners of `t` have each received the carrier
/// applied to the normal of the face opposite to it.
pub open spec fn scatter_tet<S: Scalar>(
    forces: Seq<Vec3<S>>,
    t: [u16; 4],
    carrier: Mat3<S>,
    normals: [Vec3<S>; 4],
    k: nat,
) -> Seq<Vec3<S>>
    decreases k,
{
    if k == 0 {
        forces
    } else {
        let before = scatter_tet(forces, t, carrier, normals, (k - 1) as nat);
        let v = t[k - 1] as int;
        before.update(v, before[v].sum(carrier.apply(normals[k - 1])))
    }
}

/// `forces` after the first `n` tetrahedra have scattered their internal
/// forces over their corners, in the order of the tetrahedra.
pub open spec fn scattered<S: Scalar>(
    forces: Seq<Vec3<S>>,
    tets: Seq<[u16; 4]>,
    carriers: Seq<Mat3<S>>,
    normals: Seq<[Vec3<S>; 4]>,
    n: nat,
) -> Seq<Vec3<S>>
    decreases n,
{
    if n == 0 {
        forces
    } else {
        scatter_tet(
            scattered(forces, tets, carriers, normals, (n - 1) as nat),
            tets[n - 1],
            carriers[n - 1],
            normals[n - 1],
            4,
        )
    }
}

/// The acceleration of a vertex of mass `mass` under the force `force` and
/// gravity `g` along the negative y axis.
pub open spec fn acceleration<S: Scalar>(force: Vec3<S>, mass: S, g: S) -> Vec3<S> {
    let up = Vec3 { x: zero::<S>(), y: S::of_count(1), z: zero::<S>() };
    force.sum(up.scaled(mass.negation().product(g))).divided(mass)
}

/// A soft body, unchanged once it is built.
pub struct SimMesh<S: Scalar> {
    vertex_positions_obj_space: Vec<Vec3<S>>,
    vertex_mass: Vec<S>,
    tetras: Vec<[u16; 4]>,
    opposite_normals: Vec<[Vec3<S>; 4]>,
    inv_barycentric_mat: Vec<Mat3<S>>,
    boundary_vertices: Vec<u16>,
    boundary_faces: Vec<[u16; 3]>,
    params: MeshParams<S>,
}

/// The edge matrix of `t`.
pub fn tetra_val_edges<S: Scalar>(t: &[u16; 4], vals: &[Vec3<S>]) -> (r: Mat3<S>)
    requires
        corners_below(*t, vals@.len() as int),
    ensures
        r == edge_matrix(*t, vals@),
{
    let origin = vals[t[3] as usize];
    Mat3 {
        c0: vals[t[0] as usize].sub(&origin),
        c1: vals[t[1] as usize].sub(&origin),
        c2: vals[t[2] as usize].sub(&origin),
    }
}

/// The outward normal of the face of `t` opposite its corner `k`, and whether
/// the raw normal had to be turned for it.
pub fn face_geometry<S: Scalar>(t: &[u16; 4], k: usize, rest: &[Vec3<S>]) -> (r: (Vec3<S>, bool))
    requires
        k < 4,
        corners_below(*t, rest@.len() as int),
    ensures
        r.0 == face_normal(*t, k as int, rest@),
        r.1 == faces_corner(*t, k as int, rest@),
{
    let f = face_opposite(t, k);
    let origin = rest[f.a as usize];
    let raw = rest[f.b as usize].sub(&origin).cross(&rest[f.c as usize].sub(&origin)).unscale(
        S::from_usize(2),
    );
    let above = is_positive(rest[t[k] as usize].sub(&origin).dot(&raw));
    if above {
        (raw.neg(), true)
    } else {
        (raw, false)
    }
}

impl<S: Scalar> SimMesh<S> {
    /// The rest positions of the vertices.
    pub closed spec fn vertices(&self) -> Seq<Vec3<S>> {
        self.vertex_positions_obj_space@
    }

    /// The lumped mass of each vertex.
    pub closed spec fn masses(&self) -> Seq<S> {
        self.vertex_mass@
    }

    /// The tetrahedra, in the order in which they were given.
    pub closed spec fn tetrahedra(&self) -> Seq<[u16; 4]> {
        self.tetras@
    }

    /// For each tetrahedron, the outward area-scaled normals of its four
    /// faces, each at the place of the corner that it lies opposite.
    pub closed spec fn normals(&self) -> Seq<[Vec3<S>; 4]> {
        self.opposite_normals@
    }

    /// For each tetrahedron, the inverse of its edge matrix at rest.
    pub closed spec fn inverses(&self) -> Seq<Mat3<S>> {
        self.inv_barycentric_mat@
    }

    /// The vertices that lie on the boundary, in discovery order.
    pub closed spec fn surface_vertices(&self) -> Seq<u16> {
        self.boundary_vertices@
    }

    /// The boundary triangles, as indices into the surface vertices.
    pub closed spec fn surface_faces(&self) -> Seq<[u16; 3]> {
        self.boundary_faces@
    }

    /// The material.
    pub closed spec fn material(&self) -> MeshParams<S> {
        self.params
    }

    /// What holds of every soft body: everything it stores beyond its
    /// vertices, tetrahedra and material is what those three determine.
    #[verifier::type_invariant]
    pub open spec fn wf(&self) -> bool {
        let rest = self.vertices();
        let tets = self.tetrahedra();
        &&& rest.len() < 65536
        &&& tetrahedra_valid(tets, rest.len() as int)
        &&& first_degenerate(tets, rest, tets.len()) == tets.len()
        &&& self.masses() == lumped_masses(rest, tets, self.material().density, tets.len())
        &&& self.masses().len() == rest.len()
        &&& self.inverses().len() == tets.len()
        &&& forall|i: int|
            0 <= i < tets.len() ==> #[trigger] self.inverses()[i] == edge_matrix(
                tets[i],
                rest,
            ).inverse_value()
        &&& self.normals().len() == tets.len()
        &&& forall|i: int, k: int|
            0 <= i < tets.len() && 0 <= k < 4 ==> #[trigger] self.normals()[i][k] == face_normal(
                tets[i],
                k,
                rest,
            )
        &&& self.surface_vertices() == boundary_vertices(boundary_of(tets, rest))
        &&& self.surface_vertices().no_duplicates()
        &&& forall|i: int|
            0 <= i < self.surface_vertices().len() ==> (#[trigger] self.surface_vertices()[i])
                < rest.len()
        &&& renumbered(self.surface_faces(), boundary_of(tets, rest), self.surface_vertices())
    }

    /// The force carrier of every tetrahedron in the shape `positions`, moving
    /// with `velocities`.
    pub open spec fn carriers(&self, positions: Seq<Vec3<S>>, velocities: Seq<Vec3<S>>) -> Seq<
        Mat3<S>,
    > {
        Seq::new(
            self.tetrahedra().len(),
            |i: int|
                force_carrier(
                    self.tetrahedra()[i],
                    self.inverses()[i],
                    self.material(),
                    positions,
                    velocities,
                ),
        )
    }

    /// The acceleration of every vertex, where `carriers` holds the force
    /// carrier of every tetrahedron: the external force, then the internal
    /// forces, then gravity, all divided by the vertex mass.
    pub open spec fn assembled(&self, carriers: Seq<Mat3<S>>, forces: Seq<Vec3<S>>, g: S) -> Seq<
        Vec3<S>,
    > {
        let total = scattered(
            forces,
            self.tetrahedra(),
            carriers,
            self.normals(),
            self.tetrahedra().len(),
        );
        Seq::new(self.vertices().len(), |v: int| acceleration(total[v], self.masses()[v], g))
    }

    /// The acceleration of every vertex in the shape `positions`, moving with
    /// `velocities`, under the external forces `forces` and gravity `g`.
    pub open spec fn accelerations(
        &self,
        positions: Seq<Vec3<S>>,
        velocities: Seq<Vec3<S>>,
        forces: Seq<Vec3<S>>,
        g: S,
    ) -> Seq<Vec3<S>> {
        self.assembled(self.carriers(positions, velocities), forces, g)
    }

    /// The positions of the surface vertices, picked out of `positions`.
    pub open spec fn surface_points(&self, positions: Seq<Vec3<S>>) -> Seq<Vec3<S>> {
        Seq::new(
            self.surface_vertices().len(),
            |i: int| positions[self.surface_vertices()[i] as int],
        )
    }

    /// Builds a soft body from its rest shape and material.
    ///
    /// Fails with `IndexOverflow` where there are 2^16 vertices or more, and
    /// else with `DegenerateTet` and the least index of a tetrahedron whose
    /// edge matrix is singular, where there is one.
    pub fn new(mesh: LoadedMesh<S>, params: MeshParams<S>) -> (r: Result<Self, Error>)
        requires
            tetrahedra_valid(mesh.1@, mesh.0@.len() as int),
        ensures
            match r {
                Ok(m) => {
                    &&& m.wf()
                    &&& m.vertices() == mesh.0@
                    &&& m.tetrahedra() == mesh.1@
                    &&& m.material() == params
                },
                Err(Error::IndexOverflow) => mesh.0@.len() >= 65536,
                Err(Error::DegenerateTet { tet }) => {
                    &&& mesh.0@.len() < 65536
                    &&& tet < mesh.1@.len()
                    &&& first_degenerate(mesh.1@, mesh.0@, mesh.1@.len()) == tet
                },
                Err(_) => false,
            },
    {
        let (rest, tets) = mesh;
        let num_vertices: usize = rest.len();
        if num_vertices >= 65536 {
            return Err(Error::IndexOverflow);
        }
        let mut vertex_mass: Vec<S> = Vec::new();
        let mut v: usize = 0;
        while v < num_vertices
            invariant
                v <= num_vertices,
                vertex_mass@.len() == v,
                forall|i: int| 0 <= i < v ==> #[trigger] vertex_mass@[i] == zero::<S>(),
            decreases num_vertices - v,
        {
            vertex_mass.push(S::from_usize(0));
            v += 1;
        }
        assert(vertex_mass@ =~= lumped_masses(rest@, tets@, params.density, 0));
        let mut inv_barycentric_mat: Vec<Mat3<S>> = Vec::new();
        let mut opposite_normals: Vec<[Vec3<S>; 4]> = Vec::new();
        let mut flips: Vec<[bool; 4]> = Vec::new();
        let n: usize = tets.len();
        let mut i: usize = 0;
        while i < n
            invariant
                i <= n,
                n == tets@.len(),
                num_vertices == rest@.len(),
                num_vertices < 65536,
                rest@ == mesh.0@,
                tets@ == mesh.1@,
                tetrahedra_valid(tets@, rest@.len() as int),
                first_degenerate(tets@, rest@, i as nat) == i,
                vertex_mass@ == lumped_masses(rest@, tets@, params.density, i as nat),
                vertex_mass@.len() == num_vertices,
                inv_barycentric_mat@.len() == i,
                forall|j: int|
                    0 <= j < i ==> #[trigger] inv_barycentric_mat@[j] == edge_matrix(
                        tets@[j],
                        rest@,
                    ).inverse_value(),
                opposite_normals@.len() == i,
                forall|j: int, k: int|
                    0 <= j < i && 0 <= k < 4 ==> #[trigger] opposite_normals@[j][k] == face_normal(
                        tets@[j],
                        k,
                        rest@,
                    ),
                flips@.len() == i,
                forall|j: int| 0 <= j < i ==> #[trigger] flips@[j] == tet_flips(tets@[j], rest@),
            decreases n - i,
        {
            let t: [u16; 4] = tets[i];
            assert(corners_below(tets@[i as int], rest@.len() as int));
            let edges = tetra_val_edges(&t, rest.as_slice());
            match edges.try_inverse() {
                None => {
                    proof {
                        lemma_first_degenerate(tets@, rest@, i as nat, n as nat);
                    }
                    return Err(Error::DegenerateTet { tet: i });
                },
                Some(inverse) => {
                    inv_barycentric_mat.push(inverse);
                },
            }
            let volume = edges.determinant().abs().div(S::from_usize(6));
            let share = params.density.mul(volume).div(S::from_usize(4));
            let mut k: usize = 0;
            while k < 4
                invariant
                    k <= 4,
                    corners_below(t, num_vertices as int),
                    vertex_mass@.len() == num_vertices,
                    vertex_mass@ == lump_tet(
                        lumped_masses(rest@, tets@, params.density, i as nat),
                        t,
                        share,
                        k as nat,
                    ),
                decreases 4 - k,
            {
                let idx: usize = t[k] as usize;
                let total = vertex_mass[idx].add(share);
                vertex_mass.set(idx, total);
                k += 1;
            }
            let (n0, f0) = face_geometry(&t, 0, rest.as_slice());
            let (n1, f1) = face_geometry(&t, 1, rest.as_slice());
            let (n2, f2) = face_geometry(&t, 2, rest.as_slice());
            let (n3, f3) = face_geometry(&t, 3, rest.as_slice());
            let tet_normals: [Vec3<S>; 4] = [n0, n1, n2, n3];
            let tet_flipped: [bool; 4] = [f0, f1, f2, f3];
            assert(tet_flipped =~= tet_flips(t, rest@));
            opposite_normals.push(tet_normals);
            flips.push(tet_flipped);
            i += 1;
        }
        assert(flips@ =~= mesh_flips(tets@, rest@));
        let faces = extract_boundary(&tets, &flips);
        proof {
            lemma_boundary_faces_from(tets@, flips@);
            assert forall|j: int, k: int| 0 <= j < faces@.len() && 0 <= k < 3 implies (
            #[trigger] faces@[j].corner(k)) < num_vertices by {
                let (a, b) = choose|a: int, b: int|
                    0 <= a < tets@.len() && 0 <= b < 4 && #[trigger] faces@[j]
                        == #[trigger] oriented_face(tets@[a], flips@[a], b);
                assert(corners_below(tets@[a], num_vertices as int));
            }
        }
        let (boundary_vertices, boundary_faces) = compact(&faces, num_vertices);
        Ok(
            SimMesh {
                vertex_positions_obj_space: rest,
                vertex_mass,
                tetras: tets,
                opposite_normals,
                inv_barycentric_mat,
                boundary_vertices,
                boundary_faces,
                params,
            },
        )
    }
}

/// The number of vertices from which on the force carriers of a body are
/// computed on several threads.
pub const PARALLEL_THRESHOLD: usize = 300;

impl<S: Scalar> SimMesh<S> {
    /// Whether the body has vertices enough for its force carriers to be
    /// computed on several threads.
    pub fn is_worth_threads(&self) -> (r: bool)
        ensures
            r == (self.vertices().len() >= PARALLEL_THRESHOLD),
    {
        proof {
            use_type_invariant(self);
        }
        self.vertex_mass.len() >= PARALLEL_THRESHOLD
    }

    pub fn num_vertices(&self) -> (r: u16)
        ensures
            r == self.vertices().len(),
    {
        proof {
            use_type_invariant(self);
        }
        self.vertex_mass.len() as u16
    }

    pub fn vertices_obj_space(&self) -> (r: &[Vec3<S>])
        ensures
            r@ == self.vertices(),
    {
        self.vertex_positions_obj_space.as_slice()
    }

    pub fn vertex_mass(&self) -> (r: &[S])
        ensures
            r@ == self.masses(),
    {
        self.vertex_mass.as_slice()
    }

    pub fn tetras(&self) -> (r: &[[u16; 4]])
        ensures
            r@ == self.tetrahedra(),
    {
        self.tetras.as_slice()
    }

    pub fn opposite_normals(&self) -> (r: &[[Vec3<S>; 4]])
        ensures
            r@ == self.normals(),
    {
        self.opposite_normals.as_slice()
    }

    pub fn inv_barycentric_mat(&self) -> (r: &[Mat3<S>])
        ensures
            r@ == self.inverses(),
    {
        self.inv_barycentric_mat.as_slice()
    }

    pub fn boundary_vertices(&self) -> (r: &[u16])
        ensures
            r@ == self.surface_vertices(),
    {
        self.boundary_vertices.as_slice()
    }

    pub fn boundary_faces(&self) -> (r: &[[u16; 3]])
        ensures
            r@ == self.surface_faces(),
    {
        self.boundary_faces.as_slice()
    }

    pub fn params(&self) -> (r: &MeshParams<S>)
        ensures
            *r == self.material(),
    {
        &self.params
    }

    /// The force carrier of the tetrahedron `tetra`, whose edge matrix at rest
    /// has the inverse `inv_barycentric_mat`.
    pub fn get_mat(
        &self,
        tetra: [u16; 4],
        inv_barycentric_mat: &Mat3<S>,
        positions: &[Vec3<S>],
        velocities: &[Vec3<S>],
    ) -> (r: Mat3<S>)
        requires
            corners_below(tetra, positions@.len() as int),
            corners_below(tetra, velocities@.len() as int),
        ensures
            r == force_carrier(
                tetra,
                *inv_barycentric_mat,
                self.material(),
                positions@,
                velocities@,
            ),
    {
        let deformation_grad = tetra_val_edges(&tetra, positions).mul(inv_barycentric_mat);
        let velocity_deformation_grad = tetra_val_edges(&tetra, velocities).mul(
            inv_barycentric_mat,
        );
        let transposed = deformation_grad.transpose();
        let elastic_strain = transposed.mul(&deformation_grad).sub(&Mat3::identity());
        let viscous_strain = transposed.mul(&velocity_deformation_grad).add(
            &velocity_deformation_grad.transpose().mul(&deformation_grad),
        );
        let elastic_stress = strain_to_stress(
            &elastic_strain,
            self.params.incompressibility,
            self.params.rigidity,
        );
        let viscous_stress = strain_to_stress(
            &viscous_strain,
            self.params.viscous_incompressibility,
            self.params.viscous_rigidity,
        );
        deformation_grad.mul(&elastic_stress.add(&viscous_stress))
    }

    /// The force carrier of every tetrahedron.
    pub fn force_carriers(&self, positions: &[Vec3<S>], velocities: &[Vec3<S>]) -> (r: Vec<
        Mat3<S>,
    >)
        requires
            positions@.len() == self.vertices().len(),
            velocities@.len() == self.vertices().len(),
        ensures
            r@ == self.carriers(positions@, velocities@),
    {
        proof {
            use_type_invariant(self);
        }
        let n: usize = self.tetras.len();
        let mut mats: Vec<Mat3<S>> = Vec::new();
        let mut i: usize = 0;
        while i < n
            invariant
                i <= n,
                n == self.tetrahedra().len(),
                self.wf(),
                positions@.len() == self.vertices().len(),
                velocities@.len() == self.vertices().len(),
                mats@.len() == i,
                forall|j: int|
                    0 <= j < i ==> #[trigger] mats@[j] == self.carriers(positions@, velocities@)[j],
            decreases n - i,
        {
            let t: [u16; 4] = self.tetras[i];
            assert(corners_below(self.tetrahedra()[i as int], self.vertices().len() as int));
            let m = self.get_mat(t, &self.inv_barycentric_mat[i], positions, velocities);
            mats.push(m);
            i += 1;
        }
        assert(mats@ =~= self.carriers(positions@, velocities@));
        mats
    }

    /// The acceleration of every vertex, from the force carrier of every
    /// tetrahedron, the external forces and gravity.
    pub fn assemble(&self, carriers: &[Mat3<S>], forces: &[Vec3<S>], g: S) -> (r: Vec<Vec3<S>>)
        requires
            carriers@.len() == self.tetrahedra().len(),
            forces@.len() == self.vertices().len(),
        ensures
            r@ == self.assembled(carriers@, forces@, g),
    {
        proof {
            use_type_invariant(self);
        }
        let mut total: Vec<Vec3<S>> = vstd::slice::slice_to_vec(forces);
        let n: usize = self.tetras.len();
        let num_vertices: usize = self.vertex_mass.len();
        let mut i: usize = 0;
        while i < n
            invariant
                i <= n,
                n == self.tetrahedra().len(),
                self.wf(),
                carriers@.len() == n,
                num_vertices == self.vertices().len(),
                total@.len() == num_vertices,
                total@ == scattered(
                    forces@,
                    self.tetrahedra(),
                    carriers@,
                    self.normals(),
                    i as nat,
                ),
            decreases n - i,
        {
            let t: [u16; 4] = self.tetras[i];
            let normals: [Vec3<S>; 4] = self.opposite_normals[i];
            let carrier: Mat3<S> = carriers[i];
            assert(corners_below(self.tetrahedra()[i as int], self.vertices().len() as int));
            let mut k: usize = 0;
            while k < 4
                invariant
                    k <= 4,
                    corners_below(t, num_vertices as int),
                    total@.len() == num_vertices,
                    total@ == scatter_tet(
                        scattered(
                            forces@,
                            self.tetrahedra(),
                            carriers@,
                            self.normals(),
                            i as nat,
                        ),
                        t,
                        carrier,
                        normals,
                        k as nat,
                    ),
                decreases 4 - k,
            {
                let idx: usize = t[k] as usize;
                let force = carrier.mul_vec(&normals[k]);
                let sum = total[idx].add(&force);
                total.set(idx, sum);
                k += 1;
            }
            i += 1;
        }
        let up = Vec3 { x: S::from_usize(0), y: S::from_usize(1), z: S::from_usize(0) };
        let mut accels: Vec<Vec3<S>> = Vec::new();
        let mut v: usize = 0;
        while v < num_vertices
            invariant
                v <= num_vertices,
                num_vertices == self.vertices().len(),
                num_vertices == self.masses().len(),
                total@.len() == num_vertices,
                up == (Vec3 { x: zero::<S>(), y: S::of_count(1), z: zero::<S>() }),
                accels@.len() == v,
                forall|j: int|
                    0 <= j < v ==> #[trigger] accels@[j] == acceleration(
                        total@[j],
                        self.masses()[j],
                        g,
                    ),
            decreases num_vertices - v,
        {
            let mass = self.vertex_mass[v];
            let force = total[v].add(&up.scale(mass.neg().mul(g)));
            accels.push(force.unscale(mass));
            v += 1;
        }
        assert(accels@ =~= self.assembled(carriers@, forces@, g));
        accels
    }

    /// The acceleration of every vertex in the shape `positions`, moving with
    /// `velocities`, under the external forces `forces` and gravity `g`.
    pub fn vertex_accels(
        &self,
        positions: &[Vec3<S>],
        velocities: &[Vec3<S>],
        forces: &[Vec3<S>],
        g: S,
    ) -> (r: Vec<Vec3<S>>)
        requires
            positions@.len() == self.vertices().len(),
            velocities@.len() == self.vertices().len(),
            forces@.len() == self.vertices().len(),
        ensures
            r@ == self.accelerations(positions@, velocities@, forces@, g),
    {
        proof {
            use_type_invariant(self);
        }
        let mats = if self.is_worth_threads() {
            par_force_carriers(self, positions, velocities)
        } else {
            self.force_carriers(positions, velocities)
        };
        self.assemble(mats.as_slice(), forces, g)
    }

    /// The boundary surface in the shape `positions`: the positions of the
    /// surface vertices, and the triangles as indices into them.
    pub fn boundary_vertices_faces(&self, positions: &[Vec3<S>]) -> (r: (
        Vec<Vec3<S>>,
        Vec<[u16; 3]>,
    ))
        requires
            positions@.len() == self.vertices().len(),
        ensures
            r.0@ == self.surface_points(positions@),
            r.1@ == self.surface_faces(),
    {
        proof {
            use_type_invariant(self);
        }
        let n: usize = self.boundary_vertices.len();
        let mut points: Vec<Vec3<S>> = Vec::new();
        let mut i: usize = 0;
        while i < n
            invariant
                i <= n,
                n == self.surface_vertices().len(),
                self.wf(),
                positions@.len() == self.vertices().len(),
                points@.len() == i,
                forall|j: int|
                    0 <= j < i ==> #[trigger] points@[j] == positions@[self.surface_vertices()[j] as int],
            decreases n - i,
        {
            let v: usize = self.boundary_vertices[i] as usize;
            points.push(positions[v]);
            i += 1;
        }
        assert(points@ =~= self.surface_points(positions@));
        (points, vstd::slice::slice_to_vec(self.boundary_faces.as_slice()))
    }
}

impl<S: Scalar> SimMesh<S> {
    /// Whether the two bodies hold the same data.
    pub open spec fn same_as(&self, other: &Self) -> bool {
        &&& self.vertices() == other.vertices()
        &&& self.masses() == other.masses()
        &&& self.tetrahedra() == other.tetrahedra()
        &&& self.normals() == other.normals()
        &&& self.inverses() == other.inverses()
        &&& self.surface_vertices() == other.surface_vertices()
        &&& self.surface_faces() == other.surface_faces()
        &&& self.material() == other.material()
    }
}

impl<S: Scalar> Clone for SimMesh<S> {
    fn clone(&self) -> (r: Self)
        ensures
            r.wf(),
            r.same_as(self),
    {
        proof {
            use_type_invariant(self);
        }
        SimMesh {
            vertex_positions_obj_space: vstd::slice::slice_to_vec(
                self.vertex_positions_obj_space.as_slice(),
            ),
            vertex_mass: vstd::slice::slice_to_vec(self.vertex_mass.as_slice()),
            tetras: vstd::slice::slice_to_vec(self.tetras.as_slice()),
            opposite_normals: vstd::slice::slice_to_vec(self.opposite_normals.as_slice()),
            inv_barycentric_mat: vstd::slice::slice_to_vec(self.inv_barycentric_mat.as_slice()),
            boundary_vertices: vstd::slice::slice_to_vec(self.boundary_vertices.as_slice()),
            boundary_faces: vstd::slice::slice_to_vec(self.boundary_faces.as_slice()),
            params: self.params,
        }
    }
}

/// The force carrier of every tetrahedron, each computed by `get_mat` on a
/// thread of rayon's pool.
///
/// Taken on trust from rayon: `par_iter` and `zip` of `rayon::iter` go
/// through the tetrahedra and the inverses of their edge matrices pair by
/// pair, `map` calls the closure once on every pair, and `collect` puts the
/// results into the vector in the order of the pairs. Then the vector holds
/// what `force_carriers` computes one after the other.
#[verifier::external_body]
fn par_force_carriers<S: Scalar>(
    mesh: &SimMesh<S>,
    positions: &[Vec3<S>],
    velocities: &[Vec3<S>],
) -> (r: Vec<Mat3<S>>)
    requires
        mesh.wf(),
        positions@.len() == mesh.vertices().len(),
        velocities@.len() == mesh.vertices().len(),
    ensures
        r@ == mesh.carriers(positions@, velocities@),
{
    mesh.tetras.par_iter().zip(mesh.inv_barycentric_mat.par_iter()).map(
        |(tetra, inv_barycentric_mat)| {
            mesh.get_mat(*tetra, inv_barycentric_mat, positions, velocities)
        },
    ).collect()
}

/// The stress that answers `strain`.
pub fn strain_to_stress<S: Scalar>(strain: &Mat3<S>, incompressibility: S, rigidity: S) -> (r: Mat3<
    S,
>)
    ensures
        r == stress(*strain, incompressibility, rigidity),
{
    Mat3::identity().scale(incompressibility.mul(strain.trace())).add(
        &strain.scale(S::from_usize(2).mul(rigidity)),
    )
}

/// Whether the vertex `v` is a corner of `t`.
pub open spec fn is_corner(t: [u16; 4], v: int) -> bool {
    t[0] == v || t[1] == v || t[2] == v || t[3] == v
}

/// The mass of the vertex `v` after the first `n` tetrahedra have been
/// lumped: zero, and the corner mass of every tetrahedron that `v` is a
/// corner of, added in the order of the tetrahedra.
pub open spec fn vertex_share<S: Scalar>(
    rest: Seq<Vec3<S>>,
    tets: Seq<[u16; 4]>,
    density: S,
    v: int,
    n: nat,
) -> S
    decreases n,
{
    if n == 0 {
        zero::<S>()
    } else {
        let before = vertex_share(rest, tets, density, v, (n - 1) as nat);
        if is_corner(tets[n - 1], v) {
            before.sum(corner_mass(density, tet_volume(tets[n - 1], rest)))
        } else {
            before
        }
    }
}

proof fn lemma_lump_tet<S: Scalar>(masses: Seq<S>, t: [u16; 4], m: S, v: int)
    requires
        corners_distinct(t),
        corners_below(t, masses.len() as int),
        0 <= v < masses.len(),
    ensures
        lump_tet(masses, t, m, 4).len() == masses.len(),
        lump_tet(masses, t, m, 4)[v] == if is_corner(t, v) {
            masses[v].sum(m)
        } else {
            masses[v]
        },
{
    reveal_with_fuel(lump_tet, 5);
}

proof fn lemma_lumped_masses<S: Scalar>(
    rest: Seq<Vec3<S>>,
    tets: Seq<[u16; 4]>,
    density: S,
    v: int,
    n: nat,
)
    requires
        tetrahedra_valid(tets, rest.len() as int),
        n <= tets.len(),
        0 <= v < rest.len(),
    ensures
        lumped_masses(rest, tets, density, n).len() == rest.len(),
        lumped_masses(rest, tets, density, n)[v] == vertex_share(rest, tets, density, v, n),
    decreases n,
{
    if n > 0 {
        lemma_lumped_masses(rest, tets, density, v, (n - 1) as nat);
        lemma_lump_tet(
            lumped_masses(rest, tets, density, (n - 1) as nat),
            tets[n - 1],
            corner_mass(density, tet_volume(tets[n - 1], rest)),
            v,
        );
    }
}

/// The mass of a vertex is the sum of the corner masses of the tetrahedra
/// that it is a corner of.
pub proof fn lemma_vertex_mass<S: Scalar>(mesh: SimMesh<S>, v: int)
    requires
        mesh.wf(),
        0 <= v < mesh.vertices().len(),
    ensures
        mesh.masses()[v] == vertex_share(
            mesh.vertices(),
            mesh.tetrahedra(),
            mesh.material().density,
            v,
            mesh.tetrahedra().len(),
        ),
{
    lemma_lumped_masses(
        mesh.vertices(),
        mesh.tetrahedra(),
        mesh.material().density,
        v,
        mesh.tetrahedra().len(),
    );
}

/// In a body of a single tetrahedron on four vertices, every vertex has the
/// same mass: zero plus a quarter of the mass of the tetrahedron.
pub proof fn lemma_single_tet_masses<S: Scalar>(mesh: SimMesh<S>, v: int)
    requires
        mesh.wf(),
        mesh.tetrahedra().len() == 1,
        mesh.vertices().len() == 4,
        0 <= v < 4,
    ensures
        mesh.masses()[v] == zero::<S>().sum(
            corner_mass(mesh.material().density, tet_volume(mesh.tetrahedra()[0], mesh.vertices())),
        ),
{
    let t = mesh.tetrahedra()[0];
    assert(corners_distinct(t) && corners_below(t, 4));
    reveal_with_fuel(lump_tet, 5);
    reveal_with_fuel(lumped_masses, 2);
}

/// The surface of a body is closed: every edge is a side of an even number
/// of its triangles, so no triangle has a side that it shares with no other.
pub proof fn lemma_surface_closed<S: Scalar>(mesh: SimMesh<S>, v: u16, w: u16)
    requires
        mesh.wf(),
    ensures
        surface_edge_degree(mesh.surface_faces(), v, w) % 2 == 0,
{
    let tets = mesh.tetrahedra();
    let faces = boundary_of(tets, mesh.vertices());
    lemma_renumbered_degree(mesh.surface_faces(), faces, mesh.surface_vertices(), v, w);
    if v < mesh.surface_vertices().len() && w < mesh.surface_vertices().len() {
        lemma_boundary_closed(
            tets,
            mesh_flips(tets, mesh.vertices()),
            mesh.surface_vertices()[v as int],
            mesh.surface_vertices()[w as int],
        );
    }
}

/// An edge of the surface is a side of exactly two of its triangles, unless
/// four or more triangles meet in it.
pub proof fn lemma_surface_edge_in_two_faces<S: Scalar>(mesh: SimMesh<S>, v: u16, w: u16)
    requires
        mesh.wf(),
        0 < surface_edge_degree(mesh.surface_faces(), v, w) < 4,
    ensures
        surface_edge_degree(mesh.surface_faces(), v, w) == 2,
{
    lemma_surface_closed(mesh, v, w);
}

proof fn lemma_first_degenerate<S: Scalar>(tets: Seq<[u16; 4]>, rest: Seq<Vec3<S>>, i: nat, n: nat)
    requires
        i < n,
        first_degenerate(tets, rest, i) == i,
        edge_matrix(tets[i as int], rest).singular(),
    ensures
        first_degenerate(tets, rest, n) == i,
    decreases n,
{
    if n > i + 1 {
        lemma_first_degenerate(tets, rest, i, (n - 1) as nat);
    }
}

} // verus!
