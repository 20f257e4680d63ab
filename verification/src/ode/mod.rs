//! Explicit one-step integrators for ordinary differential equations.
pub mod euler;
pub mod integrator;
pub mod midpoint;
pub mod model;
pub mod null_settings;
pub mod rk4;
pub mod swappable_integrator;

pub use euler::{Euler, EulerSettings};
pub use integrator::Integrator;
pub use midpoint::{Midpoint, MidpointSettings};
pub use model::{Flat, Model, ModelState};
pub use null_settings::NullSettings;
pub use rk4::{RK4Settings, RK4};
pub use swappable_integrator::{IntegratorType, SwappableIntegrator};
