//! An integrator whose method is chosen when it is made.
use vstd::prelude::*;
use crate::ode::euler::{euler_step, Euler, EulerSettings};
use crate::ode::integrator::Integrator;
use crate::ode::midpoint::{midpoint_step, Midpoint, MidpointSettings};
use crate::ode::model::Model;
use crate::ode::rk4::{rk4_step, RK4Settings, RK4};

verus! {

/// The choice of a method, with its settings.
#[derive(Clone, Copy, Debug, PartialEq, Eq)]
pub enum IntegratorType {
    Euler(EulerSettings),
    Midpoint(MidpointSettings),
    RK4(RK4Settings),
}

/// One of the three methods.
pub enum SwappableIntegrator<M: Model> {
    Euler(Euler<M>),
    Midpoint(Midpoint<M>),
    RK4(RK4<M>),
}

/// The state one step after `(x, t)` by the method that `choice` names.
pub open spec fn chosen_step<M: Model>(
    choice: IntegratorType,
    model: &M,
    x: Seq<M::S>,
    t: M::S,
    h: M::S,
) -> Seq<M::S> {
    match choice {
        IntegratorType::Euler(_) => euler_step(model, x, t, h),
        IntegratorType::Midpoint(_) => midpoint_step(model, x, t, h),
        IntegratorType::RK4(_) => rk4_step(model, x, t, h),
    }
}

impl<M: Model> SwappableIntegrator<M> {
    /// The method of this integrator.
    pub open spec fn choice(&self) -> IntegratorType {
        match self {
            SwappableIntegrator::Euler(_) => IntegratorType::Euler(EulerSettings {  }),
            SwappableIntegrator::Midpoint(_) => IntegratorType::Midpoint(MidpointSettings {  }),
            SwappableIntegrator::RK4(_) => IntegratorType::RK4(RK4Settings {  }),
        }
    }
}

impl<M: Model> Integrator<M> for SwappableIntegrator<M> {
    type Settings = IntegratorType;

    open spec fn settings(&self) -> IntegratorType {
        self.choice()
    }

    open spec fn advanced(
        settings: IntegratorType,
        model: &M,
        x: Seq<M::S>,
        t: M::S,
        h: M::S,
    ) -> Seq<M::S> {
        chosen_step(settings, model, x, t, h)
    }

    fn new(t: IntegratorType) -> (r: Self) {
        match t {
            IntegratorType::Euler(settings) => Self::Euler(Euler::new(settings)),
            IntegratorType::Midpoint(settings) => Self::Midpoint(Midpoint::new(settings)),
            IntegratorType::RK4(settings) => Self::RK4(RK4::new(settings)),
        }
    }

    fn step_internal(
        &mut self,
        model: &M,
        state: &mut M::State,
        time: &M::S,
        time_step: &M::S,
    ) {
        match self {
            Self::Euler(method) => method.step_internal(model, state, time, time_step),
            Self::Midpoint(method) => method.step_internal(model, state, time, time_step),
            Self::RK4(method) => method.step_internal(model, state, time, time_step),
        }
    }
}

} // verus!
