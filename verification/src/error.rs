//! The ways in which building a scene can fail.
use vstd::prelude::*;

verus! {

/// Why a mesh file, a mesh or a scene was rejected.
#[derive(Clone, Copy, Debug, PartialEq, Eq)]
pub enum Error {
    /// A number in the line with this index, counted from zero, does not fit
    /// its type.
    Parse { line: usize },
    /// The rest tetrahedron with this index has no volume.
    DegenerateTet { tet: usize },
    /// There are 2^16 vertices or more.
    IndexOverflow,
    /// A material parameter of the mesh with this index is not strictly
    /// positive.
    Config { mesh: usize },
}

} // verus!
