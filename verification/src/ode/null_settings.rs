//! Settings for an integrator that has nothing to set.
use vstd::prelude::*;

verus! {

/// No settings.
#[derive(Clone, Copy, Debug, PartialEq, Eq, Default)]
pub struct NullSettings {}

} // verus!
