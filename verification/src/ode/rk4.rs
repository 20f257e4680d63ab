//! The classic Runge-Kutta method of order four.
use vstd::prelude::*;
use crate::ode::integrator::Integrator;
use crate::ode::midpoint::half;
use crate::ode::model::{Model, ModelState};
use crate::ode::null_settings::NullSettings;
use crate::scalar::Scalar;

verus! {

/// The Runge-Kutta method has nothing to set.
pub type RK4Settings = NullSettings;

/// `h · d`, entry by entry.
pub open spec fn increment<S: Scalar>(h: S, d: Seq<S>) -> Seq<S> {
    Seq::new(d.len(), |i: int| h.product(d[i]))
}

/// `x + k / 2`, entry by entry.
pub open spec fn half_way<S: Scalar>(x: Seq<S>, k: Seq<S>) -> Seq<S> {
    Seq::new(x.len(), |i: int| x[i].sum(half(k[i])))
}

/// `x + k`, entry by entry.
pub open spec fn all_the_way<S: Scalar>(x: Seq<S>, k: Seq<S>) -> Seq<S> {
    Seq::new(x.len(), |i: int| x[i].sum(k[i]))
}

/// The weighted mean `(k1 + 2 k2 + 2 k3 + k4) / 6` of four scalars, summed
/// from the left.
pub open spec fn weighted_mean<S: Scalar>(k1: S, k2: S, k3: S, k4: S) -> S {
    k1.sum(S::of_count(2).product(k2)).sum(S::of_count(2).product(k3)).sum(k4).quotient(
        S::of_count(6),
    )
}

/// `x + (k1 + 2 k2 + 2 k3 + k4) / 6`, entry by entry.
pub open spec fn combined<S: Scalar>(
    x: Seq<S>,
    k1: Seq<S>,
    k2: Seq<S>,
    k3: Seq<S>,
    k4: Seq<S>,
) -> Seq<S> {
    Seq::new(x.len(), |i: int| x[i].sum(weighted_mean(k1[i], k2[i], k3[i], k4[i])))
}

/// The state after one step of the classic Runge-Kutta method. With
///
/// - `k1 = h · f(x, t)`,
/// - `k2 = h · f(x + k1 / 2, t + h / 2)`,
/// - `k3 = h · f(x + k2 / 2, t + h / 2)`,
/// - `k4 = h · f(x + k3, t + h)`,
///
/// it is `x + (k1 + 2 k2 + 2 k3 + k4) / 6`.
pub open spec fn rk4_step<M: Model>(model: &M, x: Seq<M::S>, t: M::S, h: M::S) -> Seq<M::S> {
    let k1 = increment(h, model.rate(x, t));
    let k2 = increment(h, model.rate(half_way(x, k1), t.sum(half(h))));
    let k3 = increment(h, model.rate(half_way(x, k2), t.sum(half(h))));
    let k4 = increment(h, model.rate(all_the_way(x, k3), t.sum(h)));
    combined(x, k1, k2, k3, k4)
}

/// The classic Runge-Kutta method, with its buffers: the derivative, the
/// state at which the next derivative is taken, and the four increments.
pub struct RK4<M: Model> {
    dxdt: M::State,
    intermediate_state: M::State,
    k1: M::State,
    k2: M::State,
    k3: M::State,
    k4: M::State,
}

/// Makes `k` the increment `h · d`.
fn assign_increment<S: Scalar, T: ModelState<S>>(k: &mut T, h: S, d: &T)
    requires
        old(k).valid(),
        d.valid(),
        old(k)@.len() == d@.len(),
    ensures
        final(k).valid(),
        final(k)@ == increment(h, d@),
{
    let n: usize = d.len();
    let mut i: usize = 0;
    while i < n
        invariant
            i <= n,
            k.valid(),
            d.valid(),
            n == d@.len(),
            n == k@.len(),
            forall|j: int| 0 <= j < i ==> #[trigger] k@[j] == h.product(d@[j]),
        decreases n - i,
    {
        k.set(i, h.mul(d.get(i)));
        i += 1;
    }
    assert(k@ =~= increment(h, d@));
}

/// Makes `out` the state `x + k / 2`, or `x + k` where `whole` is set.
fn assign_stage<S: Scalar, T: ModelState<S>>(out: &mut T, x: &T, k: &T, whole: bool)
    requires
        old(out).valid(),
        x.valid(),
        k.valid(),
        old(out)@.len() == x@.len(),
        k@.len() == x@.len(),
    ensures
        final(out).valid(),
        final(out)@ == if whole {
            all_the_way(x@, k@)
        } else {
            half_way(x@, k@)
        },
{
    let n: usize = x.len();
    let mut i: usize = 0;
    while i < n
        invariant
            i <= n,
            out.valid(),
            x.valid(),
            k.valid(),
            n == x@.len(),
            n == k@.len(),
            n == out@.len(),
            forall|j: int|
                0 <= j < i ==> #[trigger] out@[j] == if whole {
                    x@[j].sum(k@[j])
                } else {
                    x@[j].sum(half(k@[j]))
                },
        decreases n - i,
    {
        let part = if whole {
            k.get(i)
        } else {
            k.get(i).div(S::from_usize(2))
        };
        out.set(i, x.get(i).add(part));
        i += 1;
    }
    if whole {
        assert(out@ =~= all_the_way(x@, k@));
    } else {
        assert(out@ =~= half_way(x@, k@));
    }
}

/// Adds the weighted mean of the four increments to `x`.
fn add_combined<S: Scalar, T: ModelState<S>>(x: &mut T, k1: &T, k2: &T, k3: &T, k4: &T)
    requires
        old(x).valid(),
        k1.valid(),
        k2.valid(),
        k3.valid(),
        k4.valid(),
        k1@.len() == old(x)@.len(),
        k2@.len() == old(x)@.len(),
        k3@.len() == old(x)@.len(),
        k4@.len() == old(x)@.len(),
    ensures
        final(x).valid(),
        final(x)@ == combined(old(x)@, k1@, k2@, k3@, k4@),
{
    let n: usize = x.len();
    let two = S::from_usize(2);
    let six = S::from_usize(6);
    let mut i: usize = 0;
    while i < n
        invariant
            i <= n,
            x.valid(),
            k1.valid(),
            k2.valid(),
            k3.valid(),
            k4.valid(),
            n == x@.len(),
            n == old(x)@.len(),
            n == k1@.len(),
            n == k2@.len(),
            n == k3@.len(),
            n == k4@.len(),
            two == S::of_count(2),
            six == S::of_count(6),
            forall|j: int|
                0 <= j < i ==> #[trigger] x@[j] == old(x)@[j].sum(
                    weighted_mean(k1@[j], k2@[j], k3@[j], k4@[j]),
                ),
            forall|j: int| i <= j < n ==> #[trigger] x@[j] == old(x)@[j],
        decreases n - i,
    {
        let mean = k1.get(i).add(two.mul(k2.get(i))).add(two.mul(k3.get(i))).add(k4.get(i)).div(
            six,
        );
        x.set(i, x.get(i).add(mean));
        i += 1;
    }
    assert(x@ =~= combined(old(x)@, k1@, k2@, k3@, k4@));
}

impl<M: Model> RK4<M> {
    /// The buffers that the method works in: the derivative, the state at
    /// which the next derivative is taken, and the four increments.
    pub closed spec fn buffers(&self) -> Seq<M::State> {
        seq![self.dxdt, self.intermediate_state, self.k1, self.k2, self.k3, self.k4]
    }
}

impl<M: Model> Integrator<M> for RK4<M> {
    type Settings = RK4Settings;

    open spec fn settings(&self) -> Self::Settings {
        NullSettings {  }
    }

    open spec fn advanced(
        settings: Self::Settings,
        model: &M,
        x: Seq<M::S>,
        t: M::S,
        h: M::S,
    ) -> Seq<M::S> {
        rk4_step(model, x, t, h)
    }

    fn new(_settings: Self::Settings) -> (r: Self)
        ensures
            r.buffers().len() == 6,
            forall|i: int|
                0 <= i < r.buffers().len() ==> (#[trigger] r.buffers()[i]).valid()
                    && r.buffers()[i]@.len() == 0,
    {
        Self {
            dxdt: M::State::new(),
            intermediate_state: M::State::new(),
            k1: M::State::new(),
            k2: M::State::new(),
            k3: M::State::new(),
            k4: M::State::new(),
        }
    }

    fn step_internal(
        &mut self,
        model: &M,
        state: &mut M::State,
        time: &M::S,
        time_step: &M::S,
    ) {
        self.dxdt.zeros_as(state);
        self.intermediate_state.zeros_as(state);
        self.k1.zeros_as(state);
        self.k2.zeros_as(state);
        self.k3.zeros_as(state);
        self.k4.zeros_as(state);
        let half_time = time.add(time_step.div(M::S::from_usize(2)));
        let full_time = time.add(*time_step);

        model.derivative(state, &mut self.dxdt, time);
        assign_increment(&mut self.k1, *time_step, &self.dxdt);
        assign_stage(&mut self.intermediate_state, state, &self.k1, false);

        model.derivative(&self.intermediate_state, &mut self.dxdt, &half_time);
        assign_increment(&mut self.k2, *time_step, &self.dxdt);
        assign_stage(&mut self.intermediate_state, state, &self.k2, false);

        model.derivative(&self.intermediate_state, &mut self.dxdt, &half_time);
        assign_increment(&mut self.k3, *time_step, &self.dxdt);
        assign_stage(&mut self.intermediate_state, state, &self.k3, true);

        model.derivative(&self.intermediate_state, &mut self.dxdt, &full_time);
        assign_increment(&mut self.k4, *time_step, &self.dxdt);

        add_combined(state, &self.k1, &self.k2, &self.k3, &self.k4);
    }
}

} // verus!
