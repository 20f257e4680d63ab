//! The explicit midpoint method.
use vstd::prelude::*;
use crate::ode::integrator::Integrator;
use crate::ode::model::{add_scaled, assign_scaled_sum, axpy, Model, ModelState};
use crate::ode::null_settings::NullSettings;
use crate::scalar::Scalar;

verus! {

/// The midpoint method has nothing to set.
pub type MidpointSettings = NullSettings;

/// Half of `h`.
pub open spec fn half<S: Scalar>(h: S) -> S {
    h.quotient(S::of_count(2))
}

/// The state after one midpoint step: with `k1 = f(x, t)` and
/// `k2 = f(x + h/2 · k1, t + h/2)`, it is `x + h · k2`.
pub open spec fn midpoint_step<M: Model>(model: &M, x: Seq<M::S>, t: M::S, h: M::S) -> Seq<M::S> {
    let k1 = model.rate(x, t);
    let k2 = model.rate(axpy(x, half(h), k1), t.sum(half(h)));
    axpy(x, h, k2)
}

/// The explicit midpoint method, with its buffers for the derivative and for
/// the state at the midpoint.
pub struct Midpoint<M: Model> {
    dxdt: M::State,
    midpoint_state: M::State,
}

impl<M: Model> Midpoint<M> {
    /// The buffers that the method works in: the derivative, and the state
    /// at the midpoint.
    pub closed spec fn buffers(&self) -> Seq<M::State> {
        seq![self.dxdt, self.midpoint_state]
    }
}

impl<M: Model> Integrator<M> for Midpoint<M> {
    type Settings = MidpointSettings;

    open spec fn settings(&self) -> Self::Settings {
        NullSettings {  }
    }

    open spec fn advanced(
        settings: Self::Settings,
        model: &M,
        x: Seq<M::S>,
        t: M::S,
        h: M::S,
    ) -> Seq<M::S> {
        midpoint_step(model, x, t, h)
    }

    fn new(_settings: Self::Settings) -> (r: Self)
        ensures
            r.buffers().len() == 2,
            forall|i: int|
                0 <= i < r.buffers().len() ==> (#[trigger] r.buffers()[i]).valid()
                    && r.buffers()[i]@.len() == 0,
    {
        Self { dxdt: M::State::new(), midpoint_state: M::State::new() }
    }

    fn step_internal(
        &mut self,
        model: &M,
        state: &mut M::State,
        time: &M::S,
        time_step: &M::S,
    ) {
        self.dxdt.zeros_as(state);
        self.midpoint_state.zeros_as(state);
        model.derivative(state, &mut self.dxdt, time);
        let half_time_step = time_step.div(M::S::from_usize(2));
        assign_scaled_sum(&mut self.midpoint_state, state, half_time_step, &self.dxdt);
        let midpoint_time = time.add(half_time_step);
        model.derivative(&self.midpoint_state, &mut self.dxdt, &midpoint_time);
        add_scaled(state, *time_step, &self.dxdt);
    }
}

} // verus!
