//! The simulation core of a soft-body physics engine on tetrahedral meshes.
//!
//! A soft body is a mesh of tetrahedra with an elastic and viscous material.
//! The core computes once what the rest shape of a body determines
//! ([`simulated_scene::SimMesh`]), evaluates the accelerations of all
//! vertices of a scene under internal stress, gravity and contact with a
//! floor and a sphere ([`simulated_scene::SceneModel`]), and advances
//! positions and velocities in time with an explicit integrator ([`ode`]).
//!
//! All numbers are of one type, a [`scalar::Scalar`], which the core never
//! looks into: everything it computes is a fixed expression over the
//! operations of that type, and the contracts say which. What does not
//! depend on numbers at all is in [`topology`] (the boundary of a mesh),
//! [`mesh`] (the text of a mesh file) and [`display`] (the frame loop).
use vstd::prelude::*;

pub mod display;
pub mod error;
pub mod linalg;
pub mod mesh;
pub mod ode;
pub mod scalar;
pub mod scene;
pub mod simulated_scene;
pub mod topology;
