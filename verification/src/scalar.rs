//! The real scalar that the whole simulation core computes with.
//!
//! The core never looks inside a scalar. It only combines scalars through the
//! operations of [`Scalar`], so that every quantity it produces is one fixed
//! expression over these operations. Each operation comes as a pair: the
//! executable method, and the mathematical function that names its result and
//! that the contracts of the core are written in.
use vstd::prelude::*;

verus! {

/// A real number type: a 32- or 64-bit binary floating-point number, or any
/// other type with total, deterministic arithmetic.
///
/// An implementation promises that every method returns exactly the value
/// that its mathematical counterpart names, on every input, without failing.
/// Nothing else is asked: no law of algebra is assumed, so rounding
/// arithmetic is a faithful implementation. Scalars are handed from thread
/// to thread.
///
/// The library itself implements the trait for no type: the numbers are the
/// caller's. What is proved of the library is proved of every implementation
/// that keeps the promise, and of no other.
pub trait Scalar: Copy + Sized + Send + Sync {
    /// The value of `self + rhs`.
    spec fn sum(self, rhs: Self) -> Self;

    /// The value of `self - rhs`.
    spec fn difference(self, rhs: Self) -> Self;

    /// The value of `self * rhs`.
    spec fn product(self, rhs: Self) -> Self;

    /// The value of `self / rhs`.
    spec fn quotient(self, rhs: Self) -> Self;

    /// The value of `-self`.
    spec fn negation(self) -> Self;

    /// The absolute value of `self`.
    spec fn magnitude(self) -> Self;

    /// The square root of `self`.
    spec fn root(self) -> Self;

    /// Whether `self < rhs`.
    spec fn below(self, rhs: Self) -> bool;

    /// The scalar that stands for the whole number `n`.
    spec fn of_count(n: usize) -> Self;

    /// The least whole number that is not below `self`, within `usize`.
    spec fn ceiling(self) -> usize;

    fn add(self, rhs: Self) -> (r: Self)
        ensures
            r == self.sum(rhs),
    ;

    fn sub(self, rhs: Self) -> (r: Self)
        ensures
            r == self.difference(rhs),
    ;

    fn mul(self, rhs: Self) -> (r: Self)
        ensures
            r == self.product(rhs),
    ;

    fn div(self, rhs: Self) -> (r: Self)
        ensures
            r == self.quotient(rhs),
    ;

    fn neg(self) -> (r: Self)
        ensures
            r == self.negation(),
    ;

    fn abs(self) -> (r: Self)
        ensures
            r == self.magnitude(),
    ;

    fn sqrt(self) -> (r: Self)
        ensures
            r == self.root(),
    ;

    fn lt(self, rhs: Self) -> (r: bool)
        ensures
            r == self.below(rhs),
    ;

    fn from_usize(n: usize) -> (r: Self)
        ensures
            r == Self::of_count(n),
    ;

    fn ceil_to_usize(self) -> (r: usize)
        ensures
            r == self.ceiling(),
    ;
}

/// The scalar zero.
pub open spec fn zero<S: Scalar>() -> S {
    S::of_count(0)
}

/// The scalar one.
pub open spec fn one<S: Scalar>() -> S {
    S::of_count(1)
}

/// Whether `x` is strictly positive.
pub open spec fn positive<S: Scalar>(x: S) -> bool {
    zero::<S>().below(x)
}

/// Whether `x` is neither below nor above zero.
pub open spec fn vanishes<S: Scalar>(x: S) -> bool {
    !x.below(zero::<S>()) && !zero::<S>().below(x)
}

/// Tells whether `x` is strictly positive.
pub fn is_positive<S: Scalar>(x: S) -> (r: bool)
    ensures
        r == positive(x),
{
    S::from_usize(0).lt(x)
}

/// Tells whether `x` is neither below nor above zero.
pub fn is_vanishing<S: Scalar>(x: S) -> (r: bool)
    ensures
        r == vanishes(x),
{
    let z = S::from_usize(0);
    !x.lt(z) && !z.lt(x)
}

} // verus!
