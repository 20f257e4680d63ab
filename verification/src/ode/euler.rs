//! The explicit Euler method.
use vstd::prelude::*;
use crate::ode::integrator::Integrator;
use crate::ode::model::{add_scaled, axpy, Model, ModelState};
use crate::ode::null_settings::NullSettings;

verus! {

/// The Euler method has nothing to set.
pub type EulerSettings = NullSettings;

/// The state after one Euler step: `x + h · f(x, t)`.
pub open spec fn euler_step<M: Model>(model: &M, x: Seq<M::S>, t: M::S, h: M::S) -> Seq<M::S> {
    axpy(x, h, model.rate(x, t))
}

/// The explicit Euler method, with its one buffer for the derivative.
pub struct Euler<M: Model> {
    dxdt: M::State,
}

impl<M: Model> Euler<M> {
    /// The buffers that the method works in: the derivative.
    pub closed spec fn buffers(&self) -> Seq<M::State> {
        seq![self.dxdt]
    }
}

impl<M: Model> Integrator<M> for Euler<M> {
    type Settings = EulerSettings;

    open spec fn settings(&self) -> Self::Settings {
        NullSettings {  }
    }

    open spec fn advanced(
        settings: Self::Settings,
        model: &M,
        x: Seq<M::S>,
        t: M::S,
        h: M::S,
    ) -> Seq<M::S> {
        euler_step(model, x, t, h)
    }

    fn new(_settings: Self::Settings) -> (r: Self)
        ensures
            r.buffers().len() == 1,
            forall|i: int|
                0 <= i < r.buffers().len() ==> (#[trigger] r.buffers()[i]).valid()
                    && r.buffers()[i]@.len() == 0,
    {
        Self { dxdt: M::State::new() }
    }

    fn step_internal(
        &mut self,
        model: &M,
        state: &mut M::State,
        time: &M::S,
        time_step: &M::S,
    ) {
        self.dxdt.zeros_as(state);
        model.derivative(state, &mut self.dxdt, time);
        add_scaled(state, *time_step, &self.dxdt);
    }
}

} // verus!
