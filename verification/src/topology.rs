//! The combinatorial side of a tetrahedral mesh: which triangles bound it.
//!
//! A tetrahedron is four vertex indices. Each of its four faces lies opposite
//! one corner and is identified, whatever its orientation, by its three
//! vertex indices in ascending order. The boundary of a mesh is found by
//! toggling: every face of every tetrahedron enters a list if its triangle is
//! absent and leaves it if present. What is left are the triangles that an
//! odd number of tetrahedra share, in the order in which they last entered.
//! The list is kept with a hash map from triangles to places, so that a
//! mesh is gone through in time proportional to its size.
use std::collections::HashMap;
use vstd::prelude::*;

verus! {

/// Three vertex indices in ascending order: a face without its orientation.
#[derive(Clone, Copy, Debug, PartialEq, Eq, Structural)]
pub struct Triangle {
    pub a: u16,
    pub b: u16,
    pub c: u16,
}

/// A face with its orientation: the triangle, walked in ascending order, or
/// in descending order where `reversed` is set.
#[derive(Clone, Copy, Debug, PartialEq, Eq, Structural)]
pub struct OrientedFace {
    pub key: Triangle,
    pub reversed: bool,
}

/// The lesser of two indices.
pub open spec fn min2(x: u16, y: u16) -> u16 {
    if x <= y {
        x
    } else {
        y
    }
}

/// The greater of two indices.
pub open spec fn max2(x: u16, y: u16) -> u16 {
    if x <= y {
        y
    } else {
        x
    }
}

/// The three indices `x`, `y`, `z` in ascending order: least, median, greatest.
pub open spec fn ascending(x: u16, y: u16, z: u16) -> Triangle {
    Triangle {
        a: min2(min2(x, y), z),
        b: max2(min2(x, y), min2(max2(x, y), z)),
        c: max2(max2(x, y), z),
    }
}

/// Whether the four corners of `t` are pairwise distinct.
pub open spec fn corners_distinct(t: [u16; 4]) -> bool {
    &&& t[0] != t[1]
    &&& t[0] != t[2]
    &&& t[0] != t[3]
    &&& t[1] != t[2]
    &&& t[1] != t[3]
    &&& t[2] != t[3]
}

/// Whether the four corners of `t` are indices below `n`.
pub open spec fn corners_below(t: [u16; 4], n: int) -> bool {
    &&& t[0] < n
    &&& t[1] < n
    &&& t[2] < n
    &&& t[3] < n
}

/// Whether every tetrahedron has four distinct corners, all below `n`.
pub open spec fn tetrahedra_valid(tets: Seq<[u16; 4]>, n: int) -> bool {
    forall|i: int|
        0 <= i < tets.len() ==> corners_distinct(#[trigger] tets[i]) && corners_below(tets[i], n)
}

/// The triangle of the face of `t` that lies opposite its corner `k`.
pub open spec fn tet_face(t: [u16; 4], k: int) -> Triangle {
    if k == 0 {
        ascending(t[1], t[2], t[3])
    } else if k == 1 {
        ascending(t[0], t[2], t[3])
    } else if k == 2 {
        ascending(t[0], t[1], t[3])
    } else {
        ascending(t[0], t[1], t[2])
    }
}

impl Triangle {
    /// Whether `v` is one of the three vertices.
    pub open spec fn has_vertex(self, v: u16) -> bool {
        self.a == v || self.b == v || self.c == v
    }

    /// Whether the edge between `v` and `w` is a side of the triangle.
    pub open spec fn has_edge(self, v: u16, w: u16) -> bool {
        v != w && self.has_vertex(v) && self.has_vertex(w)
    }

    /// Whether the three vertices are strictly ascending.
    pub open spec fn proper(self) -> bool {
        self.a < self.b < self.c
    }
}

impl OrientedFace {
    /// The three vertices in the order in which the face is walked.
    pub open spec fn corner(self, k: int) -> u16 {
        if k == 1 {
            self.key.b
        } else if (k == 0) == self.reversed {
            self.key.c
        } else {
            self.key.a
        }
    }

    /// The three vertices in the order in which the face is walked.
    pub fn vertices(&self) -> (r: [u16; 3])
        ensures
            r[0] == self.corner(0),
            r[1] == self.corner(1),
            r[2] == self.corner(2),
    {
        if self.reversed {
            [self.key.c, self.key.b, self.key.a]
        } else {
            [self.key.a, self.key.b, self.key.c]
        }
    }
}

/// The least index whose face has the triangle `key`, or the length of
/// `faces` where none has.
pub open spec fn first_match(faces: Seq<OrientedFace>, key: Triangle) -> int
    decreases faces.len(),
{
    if faces.len() == 0 {
        0
    } else if faces[0].key == key {
        0
    } else {
        1 + first_match(faces.drop_first(), key)
    }
}

/// The list after the face `f` has been toggled: without the face of the same
/// triangle where there is one, else with `f` at its end.
pub open spec fn toggled(faces: Seq<OrientedFace>, f: OrientedFace) -> Seq<OrientedFace> {
    let i = first_match(faces, f.key);
    if i < faces.len() {
        faces.remove(i)
    } else {
        faces.push(f)
    }
}

/// The face of `t` opposite its corner `k`, reversed where `flips[k]` is set.
pub open spec fn oriented_face(t: [u16; 4], flips: [bool; 4], k: int) -> OrientedFace {
    OrientedFace { key: tet_face(t, k), reversed: flips[k] }
}

/// The list after the first `k` faces of `t` have been toggled.
pub open spec fn toggled_tet(
    faces: Seq<OrientedFace>,
    t: [u16; 4],
    flips: [bool; 4],
    k: nat,
) -> Seq<OrientedFace>
    decreases k,
{
    if k == 0 {
        faces
    } else {
        toggled(toggled_tet(faces, t, flips, (k - 1) as nat), oriented_face(t, flips, k - 1))
    }
}

/// The list after all faces of the first `n` tetrahedra have been toggled.
pub open spec fn open_faces(tets: Seq<[u16; 4]>, flips: Seq<[bool; 4]>, n: nat) -> Seq<
    OrientedFace,
>
    decreases n,
{
    if n == 0 {
        Seq::empty()
    } else {
        toggled_tet(open_faces(tets, flips, (n - 1) as nat), tets[n - 1], flips[n - 1], 4)
    }
}

/// The boundary faces of a mesh, with the orientations that `flips` gives.
pub open spec fn boundary(tets: Seq<[u16; 4]>, flips: Seq<[bool; 4]>) -> Seq<OrientedFace> {
    open_faces(tets, flips, tets.len())
}

/// The three indices in ascending order.
pub fn sort3(x: u16, y: u16, z: u16) -> (r: Triangle)
    ensures
        r == ascending(x, y, z),
        r.a <= r.b <= r.c,
{
    let lo: u16 = if x <= y { x } else { y };
    let hi: u16 = if x <= y { y } else { x };
    if z <= lo {
        Triangle { a: z, b: lo, c: hi }
    } else if z <= hi {
        Triangle { a: lo, b: z, c: hi }
    } else {
        Triangle { a: lo, b: hi, c: z }
    }
}

/// Whether every tetrahedron has four distinct corners, all below `n`.
pub fn tetrahedra_are_valid(tets: &[[u16; 4]], n: usize) -> (r: bool)
    ensures
        r == tetrahedra_valid(tets@, n as int),
{
    let count: usize = tets.len();
    let mut i: usize = 0;
    while i < count
        invariant
            i <= count,
            count == tets@.len(),
            tetrahedra_valid(tets@.subrange(0, i as int), n as int),
        decreases count - i,
    {
        if !tet_is_valid(&tets[i], n) {
            return false;
        }
        assert forall|j: int| 0 <= j < i + 1 implies corners_distinct(
            #[trigger] tets@.subrange(0, i + 1)[j],
        ) && corners_below(tets@.subrange(0, i + 1)[j], n as int) by {
            if j < i {
                assert(tets@.subrange(0, i as int)[j] == tets@[j]);
            }
        }
        i += 1;
    }
    assert(tets@.subrange(0, count as int) =~= tets@);
    true
}

/// The triangle of the face of `t` opposite its corner `k`.
pub fn face_opposite(t: &[u16; 4], k: usize) -> (r: Triangle)
    requires
        k < 4,
    ensures
        r == tet_face(*t, k as int),
{
    if k == 0 {
        sort3(t[1], t[2], t[3])
    } else if k == 1 {
        sort3(t[0], t[2], t[3])
    } else if k == 2 {
        sort3(t[0], t[1], t[3])
    } else {
        sort3(t[0], t[1], t[2])
    }
}

/// Whether four corners are pairwise distinct and below `n`.
pub fn tet_is_valid(t: &[u16; 4], n: usize) -> (r: bool)
    ensures
        r == (corners_distinct(*t) && corners_below(*t, n as int)),
{
    let (a, b, c, d) = (t[0], t[1], t[2], t[3]);
    a != b && a != c && a != d && b != c && b != d && c != d
        && (a as usize) < n && (b as usize) < n && (c as usize) < n && (d as usize) < n
}

proof fn lemma_first_match(faces: Seq<OrientedFace>, key: Triangle)
    ensures
        0 <= first_match(faces, key) <= faces.len(),
        first_match(faces, key) < faces.len() ==> faces[first_match(faces, key)].key == key,
        forall|j: int| 0 <= j < first_match(faces, key) ==> (#[trigger] faces[j]).key != key,
    decreases faces.len(),
{
    if faces.len() != 0 && faces[0].key != key {
        let rest = faces.drop_first();
        lemma_first_match(rest, key);
        assert forall|j: int| 0 <= j < first_match(faces, key) implies (#[trigger] faces[j]).key
            != key by {
            if j > 0 {
                assert(faces[j] == rest[j - 1]);
            }
        }
    }
}

proof fn lemma_first_match_is(faces: Seq<OrientedFace>, key: Triangle, i: int)
    requires
        0 <= i <= faces.len(),
        i < faces.len() ==> faces[i].key == key,
        forall|j: int| 0 <= j < i ==> (#[trigger] faces[j]).key != key,
    ensures
        first_match(faces, key) == i,
{
    lemma_first_match(faces, key);
    let m = first_match(faces, key);
    if m < i {
        assert(faces[m].key != key);
    } else if i < m {
        assert(faces[i].key != key);
    }
}

/// The number under which a triangle is looked up: its three vertices as the
/// digits of a number to the base 2^16.
pub open spec fn packed(key: Triangle) -> u64 {
    (key.a * 0x1_0000_0000 + key.b * 0x1_0000 + key.c) as u64
}

/// The number under which a triangle is looked up.
pub fn pack(key: Triangle) -> (r: u64)
    ensures
        r == packed(key),
{
    (key.a as u64) * 0x1_0000_0000 + (key.b as u64) * 0x1_0000 + (key.c as u64)
}

proof fn lemma_packed_apart(x: Triangle, y: Triangle)
    ensures
        packed(x) == packed(y) ==> x == y,
{
}

/// The faces among the first `n` of `entries` that are marked in `alive`, in
/// their order.
spec fn live(entries: Seq<OrientedFace>, alive: Seq<bool>, n: nat) -> Seq<OrientedFace>
    decreases n,
{
    if n == 0 {
        Seq::empty()
    } else if alive[n - 1] {
        live(entries, alive, (n - 1) as nat).push(entries[n - 1])
    } else {
        live(entries, alive, (n - 1) as nat)
    }
}

/// Whether `index` leads from the number of every triangle of a live face to
/// the place of that face, and from no other number anywhere.
spec fn indexed(entries: Seq<OrientedFace>, alive: Seq<bool>, index: Map<u64, usize>) -> bool {
    &&& entries.len() == alive.len()
    &&& forall|i: int|
        0 <= i < entries.len() && #[trigger] alive[i] ==> index.contains_key(packed(entries[i].key))
            && index[packed(entries[i].key)] == i
    &&& forall|k: u64| #[trigger]
        index.contains_key(k) ==> index[k] < entries.len() && alive[index[k] as int] && packed(
            entries[index[k] as int].key,
        ) == k
}

proof fn lemma_live_agrees(
    entries: Seq<OrientedFace>,
    alive: Seq<bool>,
    others: Seq<OrientedFace>,
    marks: Seq<bool>,
    n: nat,
)
    requires
        n <= entries.len(),
        n <= alive.len(),
        n <= others.len(),
        n <= marks.len(),
        forall|i: int| 0 <= i < n ==> entries[i] == others[i] && alive[i] == marks[i],
    ensures
        live(entries, alive, n) == live(others, marks, n),
    decreases n,
{
    if n > 0 {
        lemma_live_agrees(entries, alive, others, marks, (n - 1) as nat);
    }
}

proof fn lemma_live_members(entries: Seq<OrientedFace>, alive: Seq<bool>, n: nat, x: int)
    requires
        n <= entries.len(),
        n <= alive.len(),
        0 <= x < live(entries, alive, n).len(),
    ensures
        exists|i: int| 0 <= i < n && #[trigger] alive[i] && entries[i] == live(entries, alive, n)[x],
    decreases n,
{
    if n > 0 {
        let before = live(entries, alive, (n - 1) as nat);
        if x < before.len() {
            lemma_live_members(entries, alive, (n - 1) as nat, x);
            let i = choose|i: int|
                0 <= i < n - 1 && #[trigger] alive[i] && entries[i] == before[x];
            assert(alive[i] && entries[i] == live(entries, alive, n)[x]);
        } else {
            assert(alive[n - 1] && entries[n - 1] == live(entries, alive, n)[x]);
        }
    }
}

proof fn lemma_live_without(entries: Seq<OrientedFace>, alive: Seq<bool>, n: nat, at: int)
    requires
        n <= entries.len(),
        n <= alive.len(),
        0 <= at < n,
        alive[at],
    ensures
        live(entries, alive, at as nat).len() < live(entries, alive, n).len(),
        live(entries, alive, n)[live(entries, alive, at as nat).len() as int] == entries[at],
        live(entries, alive.update(at, false), n) == live(entries, alive, n).remove(
            live(entries, alive, at as nat).len() as int,
        ),
    decreases n,
{
    let marks = alive.update(at, false);
    let front = live(entries, alive, at as nat);
    if n == at + 1 {
        lemma_live_agrees(entries, alive, entries, marks, at as nat);
        assert(front.push(entries[at]).remove(front.len() as int) =~= front);
    } else {
        lemma_live_without(entries, alive, (n - 1) as nat, at);
        let before = live(entries, alive, (n - 1) as nat);
        if alive[n - 1] {
            assert(before.remove(front.len() as int).push(entries[n - 1]) =~= before.push(
                entries[n - 1],
            ).remove(front.len() as int));
        }
    }
}

/// Toggles the face `f` among the live faces.
fn toggle(
    entries: &mut Vec<OrientedFace>,
    alive: &mut Vec<bool>,
    index: &mut HashMap<u64, usize>,
    f: OrientedFace,
)
    requires
        indexed(old(entries)@, old(alive)@, old(index)@),
        triangles_distinct(live(old(entries)@, old(alive)@, old(entries)@.len())),
    ensures
        indexed(final(entries)@, final(alive)@, final(index)@),
        live(final(entries)@, final(alive)@, final(entries)@.len()) == toggled(
            live(old(entries)@, old(alive)@, old(entries)@.len()),
            f,
        ),
{
    let ghost faces = live(entries@, alive@, entries@.len());
    let k: u64 = pack(f.key);
    let found: Option<usize> = match index.get(&k) {
        Some(at) => Some(*at),
        None => None,
    };
    match found {
        Some(at) => {
            proof {
                lemma_packed_apart(entries@[at as int].key, f.key);
                lemma_live_without(entries@, alive@, entries@.len(), at as int);
                let place = live(entries@, alive@, at as nat).len() as int;
                assert forall|j: int| 0 <= j < place implies (#[trigger] faces[j]).key != f.key by {
                    assert(faces[j].key != faces[place].key);
                }
                lemma_first_match_is(faces, f.key, place);
                assert forall|i: int|
                    0 <= i < entries@.len() && #[trigger] alive@[i] && i != at implies packed(
                    entries@[i].key,
                ) != k by {
                    assert(index@[packed(entries@[i].key)] == i);
                }
            }
            alive.set(at, false);
            index.remove(&k);
        },
        None => {
            proof {
                assert forall|j: int| 0 <= j < faces.len() implies (#[trigger] faces[j]).key
                    != f.key by {
                    lemma_live_members(entries@, alive@, entries@.len(), j);
                    let i = choose|i: int|
                        0 <= i < entries@.len() && #[trigger] alive@[i] && entries@[i] == faces[j];
                    assert(index@.contains_key(packed(entries@[i].key)));
                }
                lemma_first_match_is(faces, f.key, faces.len() as int);
                lemma_live_agrees(
                    entries@,
                    alive@,
                    entries@.push(f),
                    alive@.push(true),
                    entries@.len(),
                );
            }
            index.insert(k, entries.len());
            entries.push(f);
            alive.push(true);
        },
    }
}

/// The boundary faces of the mesh `tets`, where `flips[i][k]` tells whether
/// the face of tetrahedron `i` opposite its corner `k` is walked in
/// descending order.
pub fn extract_boundary(tets: &Vec<[u16; 4]>, flips: &Vec<[bool; 4]>) -> (r: Vec<OrientedFace>)
    requires
        flips@.len() == tets@.len(),
    ensures
        r@ == boundary(tets@, flips@),
{
    let mut entries: Vec<OrientedFace> = Vec::new();
    let mut alive: Vec<bool> = Vec::new();
    let mut index: HashMap<u64, usize> = HashMap::new();
    let n: usize = tets.len();
    let mut i: usize = 0;
    while i < n
        invariant
            i <= n,
            n == tets@.len(),
            n == flips@.len(),
            indexed(entries@, alive@, index@),
            live(entries@, alive@, entries@.len()) == open_faces(tets@, flips@, i as nat),
        decreases n - i,
    {
        let t: [u16; 4] = tets[i];
        let fl: [bool; 4] = flips[i];
        let mut k: usize = 0;
        while k < 4
            invariant
                k <= 4,
                i < n,
                n == tets@.len(),
                n == flips@.len(),
                t == tets@[i as int],
                fl == flips@[i as int],
                indexed(entries@, alive@, index@),
                live(entries@, alive@, entries@.len()) == toggled_tet(
                    open_faces(tets@, flips@, i as nat),
                    t,
                    fl,
                    k as nat,
                ),
            decreases 4 - k,
        {
            proof {
                lemma_open_faces(tets@, flips@, i as nat, is_triangle(any_triangle()));
                lemma_toggled_tet(
                    open_faces(tets@, flips@, i as nat),
                    t,
                    fl,
                    k as nat,
                    is_triangle(any_triangle()),
                );
            }
            let f = OrientedFace { key: face_opposite(&t, k), reversed: fl[k] };
            toggle(&mut entries, &mut alive, &mut index, f);
            k += 1;
        }
        i += 1;
    }
    let mut faces: Vec<OrientedFace> = Vec::new();
    let count: usize = entries.len();
    let mut j: usize = 0;
    while j < count
        invariant
            j <= count,
            count == entries@.len(),
            count == alive@.len(),
            faces@ == live(entries@, alive@, j as nat),
        decreases count - j,
    {
        if alive[j] {
            faces.push(entries[j]);
        }
        j += 1;
    }
    faces
}

/// Some triangle, where it does not matter which.
spec fn any_triangle() -> Triangle {
    Triangle { a: 0, b: 0, c: 0 }
}

/// The number of faces in `faces` whose triangle satisfies `p`.
pub open spec fn count(faces: Seq<OrientedFace>, p: spec_fn(Triangle) -> bool) -> nat
    decreases faces.len(),
{
    if faces.len() == 0 {
        0
    } else {
        count(faces.drop_last(), p) + if p(faces.last().key) {
            1nat
        } else {
            0nat
        }
    }
}

/// The number of faces of `t` whose triangle satisfies `p`.
pub open spec fn tet_incidences(t: [u16; 4], p: spec_fn(Triangle) -> bool) -> nat {
    (if p(tet_face(t, 0)) { 1nat } else { 0nat })
        + (if p(tet_face(t, 1)) { 1nat } else { 0nat })
        + (if p(tet_face(t, 2)) { 1nat } else { 0nat })
        + (if p(tet_face(t, 3)) { 1nat } else { 0nat })
}

/// The number of faces of the first `n` tetrahedra whose triangle satisfies
/// `p`, each face counted once for every tetrahedron that has it.
pub open spec fn incidences(tets: Seq<[u16; 4]>, p: spec_fn(Triangle) -> bool, n: nat) -> nat
    decreases n,
{
    if n == 0 {
        0
    } else {
        incidences(tets, p, (n - 1) as nat) + tet_incidences(tets[n - 1], p)
    }
}

/// The property of a triangle to have the edge between `v` and `w` as a side.
pub open spec fn on_edge(v: u16, w: u16) -> spec_fn(Triangle) -> bool {
    |t: Triangle| t.has_edge(v, w)
}

/// The property of a triangle to be `key`.
pub open spec fn is_triangle(key: Triangle) -> spec_fn(Triangle) -> bool {
    |t: Triangle| t == key
}

/// The number of faces in `faces` that have the edge between `v` and `w` as
/// a side.
pub open spec fn edge_degree(faces: Seq<OrientedFace>, v: u16, w: u16) -> nat {
    count(faces, on_edge(v, w))
}

/// Whether no two faces in `faces` have the same triangle.
pub open spec fn triangles_distinct(faces: Seq<OrientedFace>) -> bool {
    forall|i: int, j: int|
        0 <= i < j < faces.len() ==> (#[trigger] faces[i]).key != (#[trigger] faces[j]).key
}

/// Whether some face in `faces` has the triangle `key`.
pub open spec fn has_triangle(faces: Seq<OrientedFace>, key: Triangle) -> bool {
    exists|i: int| 0 <= i < faces.len() && (#[trigger] faces[i]).key == key
}

/// Whether every face in `faces` is a face of one of the first `n`
/// tetrahedra, with the orientation that `flips` gives it there.
pub open spec fn faces_from(
    faces: Seq<OrientedFace>,
    tets: Seq<[u16; 4]>,
    flips: Seq<[bool; 4]>,
    n: nat,
) -> bool {
    forall|j: int|
        0 <= j < faces.len() ==> exists|i: int, k: int|
            0 <= i < n && 0 <= k < 4 && #[trigger] faces[j] == #[trigger] oriented_face(
                tets[i],
                flips[i],
                k,
            )
}

proof fn lemma_count_push(faces: Seq<OrientedFace>, f: OrientedFace, p: spec_fn(Triangle) -> bool)
    ensures
        count(faces.push(f), p) == count(faces, p) + if p(f.key) {
            1nat
        } else {
            0nat
        },
{
    assert(faces.push(f).drop_last() =~= faces);
}

proof fn lemma_count_remove(faces: Seq<OrientedFace>, i: int, p: spec_fn(Triangle) -> bool)
    requires
        0 <= i < faces.len(),
    ensures
        count(faces, p) == count(faces.remove(i), p) + if p(faces[i].key) {
            1nat
        } else {
            0nat
        },
    decreases faces.len(),
{
    if i == faces.len() - 1 {
        assert(faces.remove(i) =~= faces.drop_last());
    } else {
        lemma_count_remove(faces.drop_last(), i, p);
        assert(faces.remove(i).drop_last() =~= faces.drop_last().remove(i));
        assert(faces.remove(i).last() == faces.last());
    }
}

proof fn lemma_toggled(faces: Seq<OrientedFace>, f: OrientedFace, p: spec_fn(Triangle) -> bool)
    requires
        triangles_distinct(faces),
    ensures
        triangles_distinct(toggled(faces, f)),
        count(toggled(faces, f), p) % 2 == (count(faces, p) + if p(f.key) {
            1nat
        } else {
            0nat
        }) % 2,
        forall|j: int|
            0 <= j < toggled(faces, f).len() ==> #[trigger] toggled(faces, f)[j] == f
                || faces.contains(toggled(faces, f)[j]),
{
    lemma_first_match(faces, f.key);
    let i = first_match(faces, f.key);
    let out = toggled(faces, f);
    if i < faces.len() {
        lemma_count_remove(faces, i, p);
        assert forall|j: int| 0 <= j < out.len() implies #[trigger] out[j] == f || faces.contains(
            out[j],
        ) by {
            if j < i {
                assert(out[j] == faces[j]);
            } else {
                assert(out[j] == faces[j + 1]);
            }
        }
        assert forall|x: int, y: int| 0 <= x < y < out.len() implies (#[trigger] out[x]).key != (
        #[trigger] out[y]).key by {
            let xx = if x < i { x } else { x + 1 };
            let yy = if y < i { y } else { y + 1 };
            assert(out[x] == faces[xx]);
            assert(out[y] == faces[yy]);
        }
    } else {
        lemma_count_push(faces, f, p);
        assert forall|j: int| 0 <= j < out.len() implies #[trigger] out[j] == f || faces.contains(
            out[j],
        ) by {
            if j < faces.len() {
                assert(out[j] == faces[j]);
            }
        }
        assert forall|x: int, y: int| 0 <= x < y < out.len() implies (#[trigger] out[x]).key != (
        #[trigger] out[y]).key by {
            assert(out[x] == faces[x]);
            if y < faces.len() {
                assert(out[y] == faces[y]);
            }
        }
    }
}

proof fn lemma_toggled_tet(
    faces: Seq<OrientedFace>,
    t: [u16; 4],
    flips: [bool; 4],
    k: nat,
    p: spec_fn(Triangle) -> bool,
)
    requires
        triangles_distinct(faces),
        k <= 4,
    ensures
        triangles_distinct(toggled_tet(faces, t, flips, k)),
        k == 4 ==> count(toggled_tet(faces, t, flips, k), p) % 2 == (count(faces, p)
            + tet_incidences(t, p)) % 2,
        forall|j: int|
            0 <= j < toggled_tet(faces, t, flips, k).len() ==> faces.contains(
                #[trigger] toggled_tet(faces, t, flips, k)[j],
            ) || exists|m: int|
                0 <= m < k && toggled_tet(faces, t, flips, k)[j] == #[trigger] oriented_face(
                    t,
                    flips,
                    m,
                ),
{
    let l0 = faces;
    let l1 = toggled(l0, oriented_face(t, flips, 0));
    let l2 = toggled(l1, oriented_face(t, flips, 1));
    let l3 = toggled(l2, oriented_face(t, flips, 2));
    let l4 = toggled(l3, oriented_face(t, flips, 3));
    reveal_with_fuel(toggled_tet, 5);
    lemma_toggled(l0, oriented_face(t, flips, 0), p);
    lemma_toggled(l1, oriented_face(t, flips, 1), p);
    lemma_toggled(l2, oriented_face(t, flips, 2), p);
    lemma_toggled(l3, oriented_face(t, flips, 3), p);
    let out = toggled_tet(faces, t, flips, k);
    assert forall|j: int| 0 <= j < out.len() implies faces.contains(#[trigger] out[j]) || exists|
        m: int,
    |
        0 <= m < k && out[j] == #[trigger] oriented_face(t, flips, m) by {
        let f = out[j];
        if k >= 4 && f != oriented_face(t, flips, 3) {
            assert(l3.contains(f));
        }
        if k >= 3 && l3.contains(f) && f != oriented_face(t, flips, 2) {
            let w = choose|w: int| 0 <= w < l3.len() && l3[w] == f;
            assert(l2.contains(l3[w]));
        }
        if k >= 2 && l2.contains(f) && f != oriented_face(t, flips, 1) {
            let w = choose|w: int| 0 <= w < l2.len() && l2[w] == f;
            assert(l1.contains(l2[w]));
        }
        if k >= 1 && l1.contains(f) && f != oriented_face(t, flips, 0) {
            let w = choose|w: int| 0 <= w < l1.len() && l1[w] == f;
            assert(l0.contains(l1[w]));
        }
    }
}

proof fn lemma_open_faces(
    tets: Seq<[u16; 4]>,
    flips: Seq<[bool; 4]>,
    n: nat,
    p: spec_fn(Triangle) -> bool,
)
    requires
        n <= tets.len(),
        flips.len() == tets.len(),
    ensures
        triangles_distinct(open_faces(tets, flips, n)),
        count(open_faces(tets, flips, n), p) % 2 == incidences(tets, p, n) % 2,
        faces_from(open_faces(tets, flips, n), tets, flips, n),
    decreases n,
{
    if n > 0 {
        let before = open_faces(tets, flips, (n - 1) as nat);
        let after = open_faces(tets, flips, n);
        lemma_open_faces(tets, flips, (n - 1) as nat, p);
        lemma_toggled_tet(before, tets[n - 1], flips[n - 1], 4, p);
        assert forall|j: int| 0 <= j < after.len() implies exists|i: int, k: int|
            0 <= i < n && 0 <= k < 4 && #[trigger] after[j] == #[trigger] oriented_face(
                tets[i],
                flips[i],
                k,
            ) by {
            if before.contains(after[j]) {
                let w = choose|w: int| 0 <= w < before.len() && before[w] == after[j];
                let (i, k) = choose|i: int, k: int|
                    0 <= i < n - 1 && 0 <= k < 4 && #[trigger] before[w] == #[trigger] oriented_face(
                        tets[i],
                        flips[i],
                        k,
                    );
                assert(after[j] == oriented_face(tets[i], flips[i], k));
            } else {
                let m = choose|m: int|
                    0 <= m < 4 && after[j] == #[trigger] oriented_face(
                        tets[n - 1],
                        flips[n - 1],
                        m,
                    );
                assert(after[j] == oriented_face(tets[n - 1], flips[n - 1], m));
            }
        }
    }
}

proof fn lemma_count_of_triangle(faces: Seq<OrientedFace>, key: Triangle)
    requires
        triangles_distinct(faces),
    ensures
        count(faces, is_triangle(key)) == if has_triangle(faces, key) {
            1nat
        } else {
            0nat
        },
    decreases faces.len(),
{
    if faces.len() > 0 {
        let front = faces.drop_last();
        lemma_count_of_triangle(front, key);
        if has_triangle(front, key) {
            let i = choose|i: int| 0 <= i < front.len() && (#[trigger] front[i]).key == key;
            assert(faces[i].key == key);
            assert(faces[faces.len() - 1].key != faces[i].key);
        } else if faces.last().key == key {
            assert(faces[faces.len() - 1].key == key);
        } else if has_triangle(faces, key) {
            let i = choose|i: int| 0 <= i < faces.len() && (#[trigger] faces[i]).key == key;
            assert(front[i].key == key);
        }
    }
}

proof fn lemma_edge_incidences(t: [u16; 4], v: u16, w: u16)
    requires
        corners_distinct(t),
    ensures
        tet_incidences(t, on_edge(v, w)) == 0 || tet_incidences(t, on_edge(v, w)) == 2,
{
}

proof fn lemma_edge_incidences_even(tets: Seq<[u16; 4]>, v: u16, w: u16, n: nat)
    requires
        n <= tets.len(),
        forall|i: int| 0 <= i < tets.len() ==> corners_distinct(#[trigger] tets[i]),
    ensures
        incidences(tets, on_edge(v, w), n) % 2 == 0,
    decreases n,
{
    if n > 0 {
        lemma_edge_incidences_even(tets, v, w, (n - 1) as nat);
        lemma_edge_incidences(tets[n - 1], v, w);
    }
}

/// The face of a tetrahedron opposite one of its corners has the three other
/// corners as its vertices, in strictly ascending order.
pub proof fn lemma_tet_face(t: [u16; 4], k: int, v: u16)
    requires
        corners_distinct(t),
        0 <= k < 4,
    ensures
        tet_face(t, k).proper(),
        tet_face(t, k).has_vertex(v) <==> v != t[k] && (v == t[0] || v == t[1] || v == t[2] || v
            == t[3]),
{
}

/// A triangle is on the boundary exactly if an odd number of tetrahedra have
/// it as a face; no triangle is on the boundary twice.
pub proof fn lemma_boundary_membership(tets: Seq<[u16; 4]>, flips: Seq<[bool; 4]>, key: Triangle)
    requires
        flips.len() == tets.len(),
    ensures
        triangles_distinct(boundary(tets, flips)),
        has_triangle(boundary(tets, flips), key) <==> incidences(
            tets,
            is_triangle(key),
            tets.len(),
        ) % 2 == 1,
{
    lemma_open_faces(tets, flips, tets.len(), is_triangle(key));
    lemma_count_of_triangle(boundary(tets, flips), key);
}

/// Where a triangle is a face of at most two tetrahedra, it is on the
/// boundary exactly if it is a face of exactly one.
pub proof fn lemma_boundary_one_sided(tets: Seq<[u16; 4]>, flips: Seq<[bool; 4]>, key: Triangle)
    requires
        flips.len() == tets.len(),
        incidences(tets, is_triangle(key), tets.len()) <= 2,
    ensures
        has_triangle(boundary(tets, flips), key) <==> incidences(
            tets,
            is_triangle(key),
            tets.len(),
        ) == 1,
{
    lemma_boundary_membership(tets, flips, key);
}

/// Every boundary face is a face of some tetrahedron of the mesh, and is
/// walked in the direction that `flips` gives it in that tetrahedron.
pub proof fn lemma_boundary_faces_from(tets: Seq<[u16; 4]>, flips: Seq<[bool; 4]>)
    requires
        flips.len() == tets.len(),
    ensures
        faces_from(boundary(tets, flips), tets, flips, tets.len()),
{
    lemma_open_faces(tets, flips, tets.len(), is_triangle(any_triangle()));
}

/// The boundary is closed: every edge is a side of an even number of boundary
/// faces, so no boundary face has a side that it shares with no other.
pub proof fn lemma_boundary_closed(tets: Seq<[u16; 4]>, flips: Seq<[bool; 4]>, v: u16, w: u16)
    requires
        flips.len() == tets.len(),
        forall|i: int| 0 <= i < tets.len() ==> corners_distinct(#[trigger] tets[i]),
    ensures
        edge_degree(boundary(tets, flips), v, w) % 2 == 0,
{
    lemma_open_faces(tets, flips, tets.len(), on_edge(v, w));
    lemma_edge_incidences_even(tets, v, w, tets.len());
}

/// An edge of the boundary is a side of exactly two boundary faces, unless
/// four or more boundary faces meet in it.
pub proof fn lemma_boundary_edge_in_two_faces(
    tets: Seq<[u16; 4]>,
    flips: Seq<[bool; 4]>,
    v: u16,
    w: u16,
)
    requires
        flips.len() == tets.len(),
        forall|i: int| 0 <= i < tets.len() ==> corners_distinct(#[trigger] tets[i]),
        0 < edge_degree(boundary(tets, flips), v, w) < 4,
    ensures
        edge_degree(boundary(tets, flips), v, w) == 2,
{
    lemma_boundary_closed(tets, flips, v, w);
}

/// The list `seen`, with `v` at its end unless it is there already.
pub open spec fn discover(seen: Seq<u16>, v: u16) -> Seq<u16> {
    if seen.contains(v) {
        seen
    } else {
        seen.push(v)
    }
}

/// The vertices of the first `n` faces, each once, in the order in which
/// they are first met when the faces are walked one after the other.
pub open spec fn discovered(faces: Seq<OrientedFace>, n: nat) -> Seq<u16>
    decreases n,
{
    if n == 0 {
        Seq::empty()
    } else {
        let f = faces[n - 1];
        discover(
            discover(discover(discovered(faces, (n - 1) as nat), f.corner(0)), f.corner(1)),
            f.corner(2),
        )
    }
}

/// The vertices of the boundary faces, in discovery order.
pub open spec fn boundary_vertices(faces: Seq<OrientedFace>) -> Seq<u16> {
    discovered(faces, faces.len())
}

/// Whether `compact` is `faces` with every vertex replaced by its position in
/// the list `vertices`.
pub open spec fn renumbered(
    compact: Seq<[u16; 3]>,
    faces: Seq<OrientedFace>,
    vertices: Seq<u16>,
) -> bool {
    &&& compact.len() == faces.len()
    &&& forall|j: int, k: int|
        0 <= j < faces.len() && 0 <= k < 3 ==> (#[trigger] compact[j][k]) < vertices.len()
            && vertices[compact[j][k] as int] == faces[j].corner(k)
}

proof fn lemma_distinct_bounded(s: Seq<u16>, n: int)
    requires
        s.no_duplicates(),
        forall|i: int| 0 <= i < s.len() ==> (#[trigger] s[i]) < n,
    ensures
        s.len() <= n || s.len() == 0,
    decreases n,
{
    if s.len() > 0 {
        assert(s[0] < n);
        if exists|i: int| 0 <= i < s.len() && #[trigger] s[i] == n - 1 {
            let i = choose|i: int| 0 <= i < s.len() && #[trigger] s[i] == n - 1;
            let rest = s.remove(i);
            assert forall|j: int| 0 <= j < rest.len() implies (#[trigger] rest[j]) < n - 1 by {
                let jj = if j < i { j } else { j + 1 };
                assert(rest[j] == s[jj]);
                assert(s[jj] != s[i]);
            }
            assert forall|x: int, y: int| 0 <= x < rest.len() && 0 <= y < rest.len() && x != y implies rest[x] != rest[y] by {
                let xx = if x < i { x } else { x + 1 };
                let yy = if y < i { y } else { y + 1 };
                assert(rest[x] == s[xx]);
                assert(rest[y] == s[yy]);
            }
            lemma_distinct_bounded(rest, n - 1);
        } else {
            lemma_distinct_bounded(s, n - 1);
        }
    }
}

/// Whether `v` is a vertex of one of the first `n` faces.
pub open spec fn on_faces(faces: Seq<OrientedFace>, n: nat, v: u16) -> bool {
    exists|j: int, k: int| 0 <= j < n && 0 <= k < 3 && #[trigger] faces[j].corner(k) == v
}

proof fn lemma_discover(seen: Seq<u16>, v: u16)
    requires
        seen.no_duplicates(),
    ensures
        discover(seen, v).no_duplicates(),
        discover(seen, v).contains(v),
        forall|x: u16| seen.contains(x) ==> discover(seen, v).contains(x),
        forall|x: u16| discover(seen, v).contains(x) ==> x == v || seen.contains(x),
{
    let out = discover(seen, v);
    if !seen.contains(v) {
        assert(out[seen.len() as int] == v);
        assert forall|x: u16| seen.contains(x) implies out.contains(x) by {
            let i = choose|i: int| 0 <= i < seen.len() && seen[i] == x;
            assert(out[i] == x);
        }
        assert forall|x: u16| out.contains(x) implies x == v || seen.contains(x) by {
            let i = choose|i: int| 0 <= i < out.len() && out[i] == x;
            if i < seen.len() {
                assert(seen[i] == x);
            }
        }
        assert forall|i: int, j: int| 0 <= i < out.len() && 0 <= j < out.len() && i != j implies out[i]
            != out[j] by {
            if i < seen.len() {
                assert(seen.contains(out[i]));
            }
            if j < seen.len() {
                assert(seen.contains(out[j]));
            }
        }
    }
}

/// The discovered vertices are the vertices of the faces, each once: every
/// one of them is a vertex of some face, and every vertex of a face is among
/// them.
pub proof fn lemma_discovered(faces: Seq<OrientedFace>, n: nat)
    requires
        n <= faces.len(),
    ensures
        discovered(faces, n).no_duplicates(),
        forall|v: u16| discovered(faces, n).contains(v) <==> on_faces(faces, n, v),
    decreases n,
{
    if n > 0 {
        let before = discovered(faces, (n - 1) as nat);
        let f = faces[n - 1];
        let d0 = discover(before, f.corner(0));
        let d1 = discover(d0, f.corner(1));
        let d2 = discover(d1, f.corner(2));
        lemma_discovered(faces, (n - 1) as nat);
        lemma_discover(before, f.corner(0));
        lemma_discover(d0, f.corner(1));
        lemma_discover(d1, f.corner(2));
        assert forall|v: u16| d2.contains(v) <==> on_faces(faces, n, v) by {
            if d2.contains(v) {
                if before.contains(v) {
                    assert(on_faces(faces, (n - 1) as nat, v));
                    let (j, k) = choose|j: int, k: int|
                        0 <= j < n - 1 && 0 <= k < 3 && #[trigger] faces[j].corner(k) == v;
                    assert(faces[j].corner(k) == v);
                } else if v == f.corner(0) {
                    assert(faces[n - 1].corner(0) == v);
                } else if v == f.corner(1) {
                    assert(faces[n - 1].corner(1) == v);
                } else {
                    assert(faces[n - 1].corner(2) == v);
                }
            }
            if on_faces(faces, n, v) {
                let (j, k) = choose|j: int, k: int|
                    0 <= j < n && 0 <= k < 3 && #[trigger] faces[j].corner(k) == v;
                if j < n - 1 {
                    assert(on_faces(faces, (n - 1) as nat, v));
                    assert(before.contains(v));
                }
            }
        }
    } else {
        assert forall|v: u16| discovered(faces, n).contains(v) <==> on_faces(faces, n, v) by {
        }
    }
}

/// Whether the edge between `v` and `w` is a side of the triangle `f`.
pub open spec fn triple_has_edge(f: [u16; 3], v: u16, w: u16) -> bool {
    &&& v != w
    &&& (f[0] == v || f[1] == v || f[2] == v)
    &&& (f[0] == w || f[1] == w || f[2] == w)
}

/// The number of triangles in `faces` that have the edge between `v` and `w`
/// as a side.
pub open spec fn surface_edge_degree(faces: Seq<[u16; 3]>, v: u16, w: u16) -> nat
    decreases faces.len(),
{
    if faces.len() == 0 {
        0
    } else {
        surface_edge_degree(faces.drop_last(), v, w) + if triple_has_edge(faces.last(), v, w) {
            1nat
        } else {
            0nat
        }
    }
}

/// Renumbering keeps the number of faces at every edge: as many renumbered
/// faces meet in the edge between the positions `v` and `w` as faces meet in
/// the edge between the vertices at these positions; none, where one of the
/// two is no position in the list.
pub proof fn lemma_renumbered_degree(
    compact: Seq<[u16; 3]>,
    faces: Seq<OrientedFace>,
    vertices: Seq<u16>,
    v: u16,
    w: u16,
)
    requires
        renumbered(compact, faces, vertices),
        vertices.no_duplicates(),
    ensures
        surface_edge_degree(compact, v, w) == if v < vertices.len() && w < vertices.len() {
            edge_degree(faces, vertices[v as int], vertices[w as int])
        } else {
            0
        },
    decreases faces.len(),
{
    if faces.len() > 0 {
        let last = faces.len() - 1;
        assert(renumbered(compact.drop_last(), faces.drop_last(), vertices)) by {
            assert forall|j: int, k: int| 0 <= j < last && 0 <= k < 3 implies (
            #[trigger] compact.drop_last()[j][k]) < vertices.len()
                && vertices[compact.drop_last()[j][k] as int] == faces.drop_last()[j].corner(k) by {
                assert(compact[j][k] < vertices.len());
            }
        }
        lemma_renumbered_degree(compact.drop_last(), faces.drop_last(), vertices, v, w);
        let c = compact[last];
        let f = faces[last];
        assert(c[0] < vertices.len() && vertices[c[0] as int] == f.corner(0));
        assert(c[1] < vertices.len() && vertices[c[1] as int] == f.corner(1));
        assert(c[2] < vertices.len() && vertices[c[2] as int] == f.corner(2));
        if v < vertices.len() && w < vertices.len() {
            assert(triple_has_edge(c, v, w) == on_edge(vertices[v as int], vertices[w as int])(
                f.key,
            ));
        }
    }
}

/// Whether `table` maps every vertex in `seen` to its position there, and
/// no other vertex to anything.
spec fn indexes(table: Seq<Option<u16>>, seen: Seq<u16>) -> bool {
    &&& seen.len() <= 65536
    &&& forall|v: int|
        0 <= v < table.len() ==> (#[trigger] table[v] matches Some(i) ==> i < seen.len()
            && seen[i as int] == v)
    &&& forall|i: int|
        0 <= i < seen.len() ==> (#[trigger] seen[i]) < table.len() && table[seen[i] as int]
            == Some(i as u16)
}

fn visit(table: &mut Vec<Option<u16>>, seen: &mut Vec<u16>, v: u16) -> (r: u16)
    requires
        indexes(old(table)@, old(seen)@),
        v < old(table)@.len() <= 65536,
    ensures
        indexes(final(table)@, final(seen)@),
        final(table)@.len() == old(table)@.len(),
        final(seen)@ == discover(old(seen)@, v),
        old(seen)@.len() <= final(seen)@.len(),
        forall|i: int| 0 <= i < old(seen)@.len() ==> final(seen)@[i] == old(seen)@[i],
        r < final(seen)@.len(),
        final(seen)@[r as int] == v,
{
    match table[v as usize] {
        Some(i) => {
            assert(seen@.contains(v));
            i
        },
        None => {
            proof {
                if seen@.contains(v) {
                    let i = choose|i: int| 0 <= i < seen@.len() && seen@[i] == v;
                    assert(table@[seen@[i] as int] == Some(i as u16));
                }
                assert forall|x: int, y: int|
                    0 <= x < seen@.len() && 0 <= y < seen@.len() && x != y implies seen@[x]
                    != seen@[y] by {
                    assert(table@[seen@[x] as int] == Some(x as u16));
                    assert(table@[seen@[y] as int] == Some(y as u16));
                }
                let wider = seen@.push(v);
                assert forall|x: int, y: int|
                    0 <= x < wider.len() && 0 <= y < wider.len() && x != y implies wider[x]
                    != wider[y] by {
                    if x < seen@.len() && y < seen@.len() {
                        assert(seen@[x] != seen@[y]);
                    } else if x < seen@.len() {
                        assert(seen@.contains(seen@[x]));
                    } else {
                        assert(seen@.contains(seen@[y]));
                    }
                }
                assert forall|i: int| 0 <= i < wider.len() implies (#[trigger] wider[i])
                    < table@.len() as int by {
                    if i < seen@.len() {
                        assert(wider[i] == seen@[i]);
                    }
                }
                lemma_distinct_bounded(wider, table@.len() as int);
            }
            let i: u16 = seen.len() as u16;
            seen.push(v);
            table.set(v as usize, Some(i));
            i
        },
    }
}

/// Renumbers the vertices of `faces` by their discovery order: returns the
/// vertices in that order, and each face with its vertices replaced by their
/// positions in that list.
pub fn compact(faces: &Vec<OrientedFace>, num_vertices: usize) -> (r: (Vec<u16>, Vec<[u16; 3]>))
    requires
        num_vertices <= 65536,
        forall|j: int, k: int|
            0 <= j < faces@.len() && 0 <= k < 3 ==> (#[trigger] faces@[j].corner(k))
                < num_vertices,
    ensures
        r.0@ == boundary_vertices(faces@),
        r.0@.no_duplicates(),
        forall|i: int| 0 <= i < r.0@.len() ==> (#[trigger] r.0@[i]) < num_vertices,
        renumbered(r.1@, faces@, r.0@),
{
    let mut table: Vec<Option<u16>> = Vec::new();
    let mut v: usize = 0;
    while v < num_vertices
        invariant
            v <= num_vertices,
            table@.len() == v,
            forall|x: int| 0 <= x < v ==> #[trigger] table@[x] == None::<u16>,
        decreases num_vertices - v,
    {
        table.push(None);
        v += 1;
    }
    let mut seen: Vec<u16> = Vec::new();
    let mut out: Vec<[u16; 3]> = Vec::new();
    let n: usize = faces.len();
    let mut j: usize = 0;
    while j < n
        invariant
            j <= n,
            n == faces@.len(),
            num_vertices <= 65536,
            table@.len() == num_vertices,
            forall|j: int, k: int|
                0 <= j < faces@.len() && 0 <= k < 3 ==> (#[trigger] faces@[j].corner(k))
                    < num_vertices,
            indexes(table@, seen@),
            seen@ == discovered(faces@, j as nat),
            out@.len() == j,
            forall|i: int, k: int|
                0 <= i < j && 0 <= k < 3 ==> (#[trigger] out@[i][k]) < seen@.len()
                    && seen@[out@[i][k] as int] == faces@[i].corner(k),
        decreases n - j,
    {
        let f = faces[j].vertices();
        assert(faces@[j as int].corner(0) < num_vertices);
        assert(faces@[j as int].corner(1) < num_vertices);
        assert(faces@[j as int].corner(2) < num_vertices);
        let i0 = visit(&mut table, &mut seen, f[0]);
        let i1 = visit(&mut table, &mut seen, f[1]);
        let i2 = visit(&mut table, &mut seen, f[2]);
        let g: [u16; 3] = [i0, i1, i2];
        out.push(g);
        proof {
            assert forall|i: int, k: int| 0 <= i < j + 1 && 0 <= k < 3 implies (
            #[trigger] out@[i][k]) < seen@.len() && seen@[out@[i][k] as int] == faces@[i].corner(
                k,
            ) by {
                if i == j {
                    assert(out@[i] == g);
                }
            }
        }
        j += 1;
    }
    proof {
        assert forall|x: int, y: int|
            0 <= x < seen@.len() && 0 <= y < seen@.len() && x != y implies seen@[x] != seen@[y] by {
            assert(table@[seen@[x] as int] == Some(x as u16));
            assert(table@[seen@[y] as int] == Some(y as u16));
        }
    }
    (seen, out)
}

} // verus!
