//! Three-dimensional vectors and 3×3 matrices over a [`Scalar`].
//!
//! Every operation is a fixed expression over the scalar operations, written
//! out in its mathematical counterpart. Sums of three terms are always taken
//! from the left: `(a + b) + c`.
use vstd::prelude::*;
use crate::scalar::{vanishes, zero, one, is_vanishing, Scalar};

verus! {

/// A vector of three scalars.
#[derive(Clone, Copy, Debug, PartialEq)]
pub struct Vec3<S> {
    pub x: S,
    pub y: S,
    pub z: S,
}

/// A 3×3 matrix, held by its columns.
#[derive(Clone, Copy, Debug, PartialEq)]
pub struct Mat3<S> {
    pub c0: Vec3<S>,
    pub c1: Vec3<S>,
    pub c2: Vec3<S>,
}

/// `(a + b) + c`.
pub open spec fn sum3<S: Scalar>(a: S, b: S, c: S) -> S {
    a.sum(b).sum(c)
}

impl<S: Scalar> Vec3<S> {
    /// The vector of three zeros.
    pub open spec fn zero_value() -> Self {
        Vec3 { x: zero::<S>(), y: zero::<S>(), z: zero::<S>() }
    }

    /// The component with index `i`: `x`, `y`, or (for any other index) `z`.
    pub open spec fn component(self, i: int) -> S {
        if i == 0 {
            self.x
        } else if i == 1 {
            self.y
        } else {
            self.z
        }
    }

    /// `self` with the component of index `i` replaced by `v`.
    pub open spec fn with_component(self, i: int, v: S) -> Self {
        if i == 0 {
            Vec3 { x: v, y: self.y, z: self.z }
        } else if i == 1 {
            Vec3 { x: self.x, y: v, z: self.z }
        } else {
            Vec3 { x: self.x, y: self.y, z: v }
        }
    }

    /// Componentwise `self + rhs`.
    pub open spec fn sum(self, rhs: Self) -> Self {
        Vec3 { x: self.x.sum(rhs.x), y: self.y.sum(rhs.y), z: self.z.sum(rhs.z) }
    }

    /// Componentwise `self - rhs`.
    pub open spec fn difference(self, rhs: Self) -> Self {
        Vec3 {
            x: self.x.difference(rhs.x),
            y: self.y.difference(rhs.y),
            z: self.z.difference(rhs.z),
        }
    }

    /// Every component multiplied by `k`.
    pub open spec fn scaled(self, k: S) -> Self {
        Vec3 { x: self.x.product(k), y: self.y.product(k), z: self.z.product(k) }
    }

    /// Every component divided by `k`.
    pub open spec fn divided(self, k: S) -> Self {
        Vec3 { x: self.x.quotient(k), y: self.y.quotient(k), z: self.z.quotient(k) }
    }

    /// Every component negated.
    pub open spec fn negation(self) -> Self {
        Vec3 { x: self.x.negation(), y: self.y.negation(), z: self.z.negation() }
    }

    /// The inner product `self · rhs`.
    pub open spec fn dot_product(self, rhs: Self) -> S {
        sum3(self.x.product(rhs.x), self.y.product(rhs.y), self.z.product(rhs.z))
    }

    /// The vector product `self × rhs`.
    pub open spec fn cross_product(self, rhs: Self) -> Self {
        Vec3 {
            x: self.y.product(rhs.z).difference(self.z.product(rhs.y)),
            y: self.z.product(rhs.x).difference(self.x.product(rhs.z)),
            z: self.x.product(rhs.y).difference(self.y.product(rhs.x)),
        }
    }

    /// The Euclidean length: the root of `self · self`.
    pub open spec fn length(self) -> S {
        self.dot_product(self).root()
    }

    pub fn new(x: S, y: S, z: S) -> (r: Self)
        ensures
            r == (Vec3 { x, y, z }),
    {
        Vec3 { x, y, z }
    }

    pub fn zeros() -> (r: Self)
        ensures
            r == Self::zero_value(),
    {
        let z = S::from_usize(0);
        Vec3 { x: z, y: z, z }
    }

    /// The component with index `i`.
    pub fn get(&self, i: usize) -> (r: S)
        requires
            i < 3,
        ensures
            r == self.component(i as int),
    {
        if i == 0 {
            self.x
        } else if i == 1 {
            self.y
        } else {
            self.z
        }
    }

    /// Replaces the component with index `i` by `v`.
    pub fn set(&mut self, i: usize, v: S)
        requires
            i < 3,
        ensures
            *final(self) == old(self).with_component(i as int, v),
    {
        if i == 0 {
            self.x = v;
        } else if i == 1 {
            self.y = v;
        } else {
            self.z = v;
        }
    }

    pub fn add(&self, rhs: &Self) -> (r: Self)
        ensures
            r == self.sum(*rhs),
    {
        Vec3 { x: self.x.add(rhs.x), y: self.y.add(rhs.y), z: self.z.add(rhs.z) }
    }

    pub fn sub(&self, rhs: &Self) -> (r: Self)
        ensures
            r == self.difference(*rhs),
    {
        Vec3 { x: self.x.sub(rhs.x), y: self.y.sub(rhs.y), z: self.z.sub(rhs.z) }
    }

    pub fn scale(&self, k: S) -> (r: Self)
        ensures
            r == self.scaled(k),
    {
        Vec3 { x: self.x.mul(k), y: self.y.mul(k), z: self.z.mul(k) }
    }

    pub fn unscale(&self, k: S) -> (r: Self)
        ensures
            r == self.divided(k),
    {
        Vec3 { x: self.x.div(k), y: self.y.div(k), z: self.z.div(k) }
    }

    pub fn neg(&self) -> (r: Self)
        ensures
            r == self.negation(),
    {
        Vec3 { x: self.x.neg(), y: self.y.neg(), z: self.z.neg() }
    }

    pub fn dot(&self, rhs: &Self) -> (r: S)
        ensures
            r == self.dot_product(*rhs),
    {
        self.x.mul(rhs.x).add(self.y.mul(rhs.y)).add(self.z.mul(rhs.z))
    }

    pub fn cross(&self, rhs: &Self) -> (r: Self)
        ensures
            r == self.cross_product(*rhs),
    {
        Vec3 {
            x: self.y.mul(rhs.z).sub(self.z.mul(rhs.y)),
            y: self.z.mul(rhs.x).sub(self.x.mul(rhs.z)),
            z: self.x.mul(rhs.y).sub(self.y.mul(rhs.x)),
        }
    }

    pub fn norm(&self) -> (r: S)
        ensures
            r == self.length(),
    {
        self.dot(self).sqrt()
    }
}

impl<S: Scalar> Mat3<S> {
    /// The identity matrix.
    pub open spec fn identity_value() -> Self {
        Mat3 {
            c0: Vec3 { x: one::<S>(), y: zero::<S>(), z: zero::<S>() },
            c1: Vec3 { x: zero::<S>(), y: one::<S>(), z: zero::<S>() },
            c2: Vec3 { x: zero::<S>(), y: zero::<S>(), z: one::<S>() },
        }
    }

    /// The first row.
    pub open spec fn row0(self) -> Vec3<S> {
        Vec3 { x: self.c0.x, y: self.c1.x, z: self.c2.x }
    }

    /// The second row.
    pub open spec fn row1(self) -> Vec3<S> {
        Vec3 { x: self.c0.y, y: self.c1.y, z: self.c2.y }
    }

    /// The third row.
    pub open spec fn row2(self) -> Vec3<S> {
        Vec3 { x: self.c0.z, y: self.c1.z, z: self.c2.z }
    }

    /// The transpose: the matrix whose columns are the rows of `self`.
    pub open spec fn transposed(self) -> Self {
        Mat3 { c0: self.row0(), c1: self.row1(), c2: self.row2() }
    }

    /// The sum of the diagonal entries.
    pub open spec fn trace_value(self) -> S {
        sum3(self.c0.x, self.c1.y, self.c2.z)
    }

    /// The matrix-vector product `self · v`: each entry is a row times `v`.
    pub open spec fn apply(self, v: Vec3<S>) -> Vec3<S> {
        Vec3 {
            x: self.row0().dot_product(v),
            y: self.row1().dot_product(v),
            z: self.row2().dot_product(v),
        }
    }

    /// The matrix product `self · rhs`: `self` applied to each column of `rhs`.
    pub open spec fn product(self, rhs: Self) -> Self {
        Mat3 { c0: self.apply(rhs.c0), c1: self.apply(rhs.c1), c2: self.apply(rhs.c2) }
    }

    /// Entrywise `self + rhs`.
    pub open spec fn sum(self, rhs: Self) -> Self {
        Mat3 { c0: self.c0.sum(rhs.c0), c1: self.c1.sum(rhs.c1), c2: self.c2.sum(rhs.c2) }
    }

    /// Entrywise `self - rhs`.
    pub open spec fn difference(self, rhs: Self) -> Self {
        Mat3 {
            c0: self.c0.difference(rhs.c0),
            c1: self.c1.difference(rhs.c1),
            c2: self.c2.difference(rhs.c2),
        }
    }

    /// Every entry multiplied by `k`.
    pub open spec fn scaled(self, k: S) -> Self {
        Mat3 { c0: self.c0.scaled(k), c1: self.c1.scaled(k), c2: self.c2.scaled(k) }
    }

    /// Every entry divided by `k`.
    pub open spec fn divided(self, k: S) -> Self {
        Mat3 { c0: self.c0.divided(k), c1: self.c1.divided(k), c2: self.c2.divided(k) }
    }

    /// The determinant, as the triple product `(c0 × c1) · c2`.
    pub open spec fn determinant_value(self) -> S {
        self.c0.cross_product(self.c1).dot_product(self.c2)
    }

    /// The adjugate: the matrix whose rows are `c1 × c2`, `c2 × c0`, `c0 × c1`.
    pub open spec fn adjugate(self) -> Self {
        (Mat3 {
            c0: self.c1.cross_product(self.c2),
            c1: self.c2.cross_product(self.c0),
            c2: self.c0.cross_product(self.c1),
        }).transposed()
    }

    /// Whether the determinant vanishes.
    pub open spec fn singular(self) -> bool {
        vanishes(self.determinant_value())
    }

    /// The inverse, for a matrix that is not singular: the adjugate divided by
    /// the determinant.
    pub open spec fn inverse_value(self) -> Self {
        self.adjugate().divided(self.determinant_value())
    }

    pub fn from_columns(c0: Vec3<S>, c1: Vec3<S>, c2: Vec3<S>) -> (r: Self)
        ensures
            r == (Mat3 { c0, c1, c2 }),
    {
        Mat3 { c0, c1, c2 }
    }

    pub fn identity() -> (r: Self)
        ensures
            r == Self::identity_value(),
    {
        let z = S::from_usize(0);
        let o = S::from_usize(1);
        Mat3 {
            c0: Vec3 { x: o, y: z, z },
            c1: Vec3 { x: z, y: o, z },
            c2: Vec3 { x: z, y: z, z: o },
        }
    }

    pub fn transpose(&self) -> (r: Self)
        ensures
            r == self.transposed(),
    {
        Mat3 {
            c0: Vec3 { x: self.c0.x, y: self.c1.x, z: self.c2.x },
            c1: Vec3 { x: self.c0.y, y: self.c1.y, z: self.c2.y },
            c2: Vec3 { x: self.c0.z, y: self.c1.z, z: self.c2.z },
        }
    }

    pub fn trace(&self) -> (r: S)
        ensures
            r == self.trace_value(),
    {
        self.c0.x.add(self.c1.y).add(self.c2.z)
    }

    pub fn mul_vec(&self, v: &Vec3<S>) -> (r: Vec3<S>)
        ensures
            r == self.apply(*v),
    {
        let t = self.transpose();
        Vec3 { x: t.c0.dot(v), y: t.c1.dot(v), z: t.c2.dot(v) }
    }

    pub fn mul(&self, rhs: &Self) -> (r: Self)
        ensures
            r == self.product(*rhs),
    {
        Mat3 { c0: self.mul_vec(&rhs.c0), c1: self.mul_vec(&rhs.c1), c2: self.mul_vec(&rhs.c2) }
    }

    pub fn add(&self, rhs: &Self) -> (r: Self)
        ensures
            r == self.sum(*rhs),
    {
        Mat3 { c0: self.c0.add(&rhs.c0), c1: self.c1.add(&rhs.c1), c2: self.c2.add(&rhs.c2) }
    }

    pub fn sub(&self, rhs: &Self) -> (r: Self)
        ensures
            r == self.difference(*rhs),
    {
        Mat3 { c0: self.c0.sub(&rhs.c0), c1: self.c1.sub(&rhs.c1), c2: self.c2.sub(&rhs.c2) }
    }

    pub fn scale(&self, k: S) -> (r: Self)
        ensures
            r == self.scaled(k),
    {
        Mat3 { c0: self.c0.scale(k), c1: self.c1.scale(k), c2: self.c2.scale(k) }
    }

    pub fn determinant(&self) -> (r: S)
        ensures
            r == self.determinant_value(),
    {
        self.c0.cross(&self.c1).dot(&self.c2)
    }

    /// The inverse, or `None` for a singular matrix.
    pub fn try_inverse(&self) -> (r: Option<Self>)
        ensures
            self.singular() <==> r is None,
            r matches Some(inv) ==> inv == self.inverse_value(),
    {
        let det = self.determinant();
        if is_vanishing(det) {
            None
        } else {
            let rows = Mat3 {
                c0: self.c1.cross(&self.c2),
                c1: self.c2.cross(&self.c0),
                c2: self.c0.cross(&self.c1),
            };
            let adj = rows.transpose();
            Some(Mat3 { c0: adj.c0.unscale(det), c1: adj.c1.unscale(det), c2: adj.c2.unscale(det) })
        }
    }
}

} // verus!
