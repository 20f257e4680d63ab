//! What an integrator needs of the system that it advances.
use vstd::prelude::*;
use crate::scalar::{zero, Scalar};

verus! {

/// A flat vector of scalars, as the contracts speak of it.
pub type Flat<S> = Seq<S>;

/// The state of a system, seen as one flat vector of scalars.
pub trait ModelState<S: Scalar>: Sized {
    /// What holds of every state that the methods accept and return.
    spec fn valid(&self) -> bool;

    /// The state as a flat vector.
    spec fn view(&self) -> Flat<S>;

    /// The state without any scalar.
    fn new() -> (r: Self)
        ensures
            r.valid(),
            r@.len() == 0,
    ;

    /// Makes `self` the zero vector with as many scalars as `other` has.
    fn zeros_as(&mut self, other: &Self)
        requires
            other.valid(),
        ensures
            final(self).valid(),
            final(self)@ == Seq::new(other@.len(), |i: int| zero::<S>()),
    ;

    /// The number of scalars.
    fn len(&self) -> (n: usize)
        requires
            self.valid(),
        ensures
            n == self@.len(),
    ;

    /// The scalar at `i`.
    fn get(&self, i: usize) -> (x: S)
        requires
            self.valid(),
            i < self@.len(),
        ensures
            x == self@[i as int],
    ;

    /// Replaces the scalar at `i` by `x`.
    fn set(&mut self, i: usize, x: S)
        requires
            old(self).valid(),
            i < old(self)@.len(),
        ensures
            final(self).valid(),
            final(self)@ == old(self)@.update(i as int, x),
    ;
}

/// A system `dx/dt = f(x, t)`.
pub trait Model {
    type S: Scalar;

    type State: ModelState<Self::S>;

    /// The number of scalars in a state of this system.
    spec fn dimension(&self) -> usize;

    /// The right-hand side `f(x, t)`. It depends on nothing but `x` and `t`.
    spec fn rate(&self, x: Flat<Self::S>, t: Self::S) -> Flat<Self::S>;

    /// Writes `f(x, t)` to `dxdt`.
    fn derivative(&self, x: &Self::State, dxdt: &mut Self::State, t: &Self::S)
        requires
            x.valid(),
            old(dxdt).valid(),
            x@.len() == self.dimension(),
            old(dxdt)@.len() == self.dimension(),
        ensures
            final(dxdt).valid(),
            final(dxdt)@ == self.rate(x@, *t),
            final(dxdt)@.len() == self.dimension(),
    ;
}

/// `x + a · d`, entry by entry.
pub open spec fn axpy<S: Scalar>(x: Seq<S>, a: S, d: Seq<S>) -> Seq<S> {
    Seq::new(x.len(), |i: int| x[i].sum(d[i].product(a)))
}

/// Adds `a · d` to `x`, entry by entry.
pub fn add_scaled<S: Scalar, T: ModelState<S>>(x: &mut T, a: S, d: &T)
    requires
        old(x).valid(),
        d.valid(),
        d@.len() == old(x)@.len(),
    ensures
        final(x).valid(),
        final(x)@ == axpy(old(x)@, a, d@),
{
    let n: usize = x.len();
    let mut i: usize = 0;
    while i < n
        invariant
            i <= n,
            x.valid(),
            d.valid(),
            n == x@.len(),
            n == d@.len(),
            n == old(x)@.len(),
            forall|j: int| 0 <= j < i ==> #[trigger] x@[j] == old(x)@[j].sum(d@[j].product(a)),
            forall|j: int| i <= j < n ==> #[trigger] x@[j] == old(x)@[j],
        decreases n - i,
    {
        let v = x.get(i).add(d.get(i).mul(a));
        x.set(i, v);
        i += 1;
    }
    assert(x@ =~= axpy(old(x)@, a, d@));
}

/// Makes `out` the vector `x + a · d`.
pub fn assign_scaled_sum<S: Scalar, T: ModelState<S>>(out: &mut T, x: &T, a: S, d: &T)
    requires
        old(out).valid(),
        x.valid(),
        d.valid(),
        d@.len() == x@.len(),
        old(out)@.len() == x@.len(),
    ensures
        final(out).valid(),
        final(out)@ == axpy(x@, a, d@),
{
    let n: usize = x.len();
    let mut i: usize = 0;
    while i < n
        invariant
            i <= n,
            out.valid(),
            x.valid(),
            d.valid(),
            n == x@.len(),
            n == d@.len(),
            n == out@.len(),
            forall|j: int| 0 <= j < i ==> #[trigger] out@[j] == x@[j].sum(d@[j].product(a)),
        decreases n - i,
    {
        let v = x.get(i).add(d.get(i).mul(a));
        out.set(i, v);
        i += 1;
    }
    assert(out@ =~= axpy(x@, a, d@));
}

} // verus!
