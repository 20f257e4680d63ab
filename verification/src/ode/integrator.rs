//! The contract that every integrator keeps.
use vstd::prelude::*;
use crate::ode::model::{Model, ModelState};
use crate::scalar::Scalar;

verus! {

/// The state and the time after `n` steps of size `h` from the state `x` at
/// time `t`, where `step` gives the state after one step.
pub open spec fn iterated<S: Scalar>(
    step: spec_fn(Seq<S>, S) -> Seq<S>,
    x: Seq<S>,
    t: S,
    h: S,
    n: nat,
) -> (Seq<S>, S)
    decreases n,
{
    if n == 0 {
        (x, t)
    } else {
        let before = iterated(step, x, t, h, (n - 1) as nat);
        (step(before.0, before.1), before.1.sum(h))
    }
}

/// Two step functions that agree everywhere lead to the same state and time.
pub proof fn lemma_iterated_agrees<S: Scalar>(
    step: spec_fn(Seq<S>, S) -> Seq<S>,
    other: spec_fn(Seq<S>, S) -> Seq<S>,
    x: Seq<S>,
    t: S,
    h: S,
    n: nat,
)
    requires
        forall|y: Seq<S>, s: S| #[trigger] step(y, s) == other(y, s),
    ensures
        iterated(step, x, t, h, n) == iterated(other, x, t, h, n),
    decreases n,
{
    if n > 0 {
        lemma_iterated_agrees(step, other, x, t, h, (n - 1) as nat);
    }
}

/// Steps follow one another: `a + b` steps lead where `b` steps lead from
/// where `a` steps have led.
pub proof fn lemma_iterated_splits<S: Scalar>(
    step: spec_fn(Seq<S>, S) -> Seq<S>,
    x: Seq<S>,
    t: S,
    h: S,
    a: nat,
    b: nat,
)
    ensures
        iterated(step, x, t, h, a + b) == iterated(
            step,
            iterated(step, x, t, h, a).0,
            iterated(step, x, t, h, a).1,
            h,
            b,
        ),
    decreases b,
{
    if b > 0 {
        lemma_iterated_splits(step, x, t, h, a, (b - 1) as nat);
        assert(a + b - 1 == a + (b - 1) as nat);
    }
}

/// An explicit one-step method.
pub trait Integrator<M: Model>: Sized {
    type Settings;

    /// The settings that the integrator was made with. They are all that its
    /// steps depend on: what else it holds is scratch space.
    spec fn settings(&self) -> Self::Settings;

    /// The state one step of size `h` after the state `x` at time `t`.
    spec fn advanced(settings: Self::Settings, model: &M, x: Seq<M::S>, t: M::S, h: M::S) -> Seq<
        M::S,
    >;

    /// An integrator with empty buffers.
    fn new(settings: Self::Settings) -> (r: Self)
        ensures
            r.settings() == settings,
    ;

    /// Advances `state` by one step of size `time_step`.
    fn step_internal(
        &mut self,
        model: &M,
        state: &mut M::State,
        time: &M::S,
        time_step: &M::S,
    )
        requires
            old(state).valid(),
            old(state)@.len() == model.dimension(),
        ensures
            final(state).valid(),
            final(state)@.len() == model.dimension(),
            final(state)@ == Self::advanced(
                old(self).settings(),
                model,
                old(state)@,
                *time,
                *time_step,
            ),
            final(self).settings() == old(self).settings(),
    ;

    /// Advances `state` by one step of size `time_step`, and `time` with it.
    fn step(&mut self, model: &M, state: &mut M::State, time: &mut M::S, time_step: &M::S)
        requires
            old(state).valid(),
            old(state)@.len() == model.dimension(),
        ensures
            final(state).valid(),
            final(state)@.len() == model.dimension(),
            final(state)@ == Self::advanced(
                old(self).settings(),
                model,
                old(state)@,
                *old(time),
                *time_step,
            ),
            *final(time) == old(time).sum(*time_step),
            final(self).settings() == old(self).settings(),
    {
        self.step_internal(model, state, time, time_step);
        *time = time.add(*time_step);
    }

    /// Advances `state` by `steps` steps of size `time_step`, and `time` with
    /// it.
    fn n_steps(
        &mut self,
        model: &M,
        state: &mut M::State,
        time: &mut M::S,
        time_step: &M::S,
        steps: usize,
    )
        requires
            old(state).valid(),
            old(state)@.len() == model.dimension(),
        ensures
            final(state).valid(),
            final(state)@.len() == model.dimension(),
            (final(state)@, *final(time)) == iterated(
                |x: Seq<M::S>, t: M::S| Self::advanced(old(self).settings(), model, x, t, *time_step),
                old(state)@,
                *old(time),
                *time_step,
                steps as nat,
            ),
            final(self).settings() == old(self).settings(),
    {
        let mut done: usize = 0;
        while done < steps
            invariant
                done <= steps,
                state.valid(),
                state@.len() == model.dimension(),
                (state@, *time) == iterated(
                    |x: Seq<M::S>, t: M::S| Self::advanced(old(self).settings(), model, x, t, *time_step),
                    old(state)@,
                    *old(time),
                    *time_step,
                    done as nat,
                ),
                self.settings() == old(self).settings(),
            decreases steps - done,
        {
            let ghost before = (state@, *time);
            let ghost step = |x: Seq<M::S>, t: M::S| Self::advanced(old(self).settings(), model, x, t, *time_step);
            self.step(model, state, time, time_step);
            done += 1;
            proof {
                assert(state@ == step(before.0, before.1));
                assert(iterated(step, old(state)@, *old(time), *time_step, done as nat) == (
                    step(before.0, before.1),
                    before.1.sum(*time_step),
                ));
            }
        }
    }
}

} // verus!
