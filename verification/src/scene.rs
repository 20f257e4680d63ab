//! What a viewer is told about a scene beyond its surfaces.
use vstd::prelude::*;
use crate::linalg::Vec3;

verus! {

/// Where the camera stands and what it looks at.
#[derive(Clone, Copy, Debug, PartialEq)]
pub struct CameraInfo<S> {
    pub eye: Vec3<S>,
    pub at: Vec3<S>,
}

} // verus!
