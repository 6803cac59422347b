//! A time-normalised proportional, integral and derivative controller.
//!
//! The controller is agnostic of units: gains are whole numbers of output
//! units per error unit, and the interval handed to `step` is the time that
//! really passed since the previous step, in whatever unit the caller
//! counts time. The output is not limited beyond the `i64` range; a bound
//! such as an actuator's voltage range is the caller's to apply.

use vstd::prelude::*;
use crate::fixed::{saturated, truncated_quotient, saturate, saturating_sum3, product, scaled};

verus! {

/// The mathematical state of a controller.
pub ghost struct PidState {
    pub kp: int,
    pub ki: int,
    pub kd: int,
    pub total_error: int,
    pub last_error: int,
}

impl PidState {
    /// The running integral after a step: the old integral plus the error
    /// held over the interval.
    pub open spec fn integral(self, error: int, delta: int) -> int {
        saturated(self.total_error + error * delta)
    }

    /// The derivative term of a step: the gain times the rate of change of
    /// the error against the previous step, and zero when no time has
    /// passed.
    pub open spec fn derivative(self, error: int, delta: int) -> int {
        if delta > 0 {
            truncated_quotient(self.kd * (error - self.last_error), delta)
        } else {
            0
        }
    }

    /// The control output of a step.
    pub open spec fn output(self, error: int, delta: int) -> int {
        saturated(
            self.kp * error + self.ki * self.integral(error, delta) + self.derivative(
                error,
                delta,
            ),
        )
    }

    /// The state that a step leaves behind.
    pub open spec fn stepped(self, error: int, delta: int) -> PidState {
        PidState {
            total_error: self.integral(error, delta),
            last_error: error,
            ..self
        }
    }

    /// Whether the gains and the accumulators fit the machine
    /// representation.
    pub open spec fn representable(self) -> bool {
        &&& i64::MIN <= self.kp <= i64::MAX
        &&& i64::MIN <= self.ki <= i64::MAX
        &&& i64::MIN <= self.kd <= i64::MAX
        &&& i64::MIN <= self.total_error <= i64::MAX
        &&& i64::MIN <= self.last_error <= i64::MAX
    }

    /// The state after a run of steps that all see the same error, one
    /// step for each interval of `deltas`.
    pub open spec fn held(self, error: int, deltas: Seq<int>) -> PidState
        decreases deltas.len(),
    {
        if deltas.len() == 0 {
            self
        } else {
            self.held(error, deltas.drop_last()).stepped(error, deltas.last())
        }
    }
}

/// The time that a run of intervals spans.
pub open spec fn elapsed(deltas: Seq<int>) -> int
    decreases deltas.len(),
{
    if deltas.len() == 0 {
        0
    } else {
        elapsed(deltas.drop_last()) + deltas.last()
    }
}

/// A run of non-negative intervals spans a non-negative time.
pub proof fn lemma_elapsed_nonnegative(deltas: Seq<int>)
    requires
        forall|i: int| 0 <= i < deltas.len() ==> deltas[i] >= 0,
    ensures
        elapsed(deltas) >= 0,
    decreases deltas.len(),
{
    if deltas.len() > 0 {
        lemma_elapsed_nonnegative(deltas.drop_last());
    }
}

/// The error held over two consecutive spans: the areas add up, and both
/// have the sign of the error.
proof fn lemma_same_sign_areas(error: int, span: int, delta: int)
    by (nonlinear_arith)
    requires
        span >= 0,
        delta >= 0,
    ensures
        error * (span + delta) == error * span + error * delta,
        error >= 0 ==> error * span >= 0 && error * delta >= 0,
        error <= 0 ==> error * span <= 0 && error * delta <= 0,
{
}

/// Multiplying by a gain keeps the order of two values, or turns it round
/// when the gain is negative.
proof fn lemma_gain_keeps_order(gain: int, low: int, high: int)
    by (nonlinear_arith)
    requires
        low <= high,
    ensures
        gain >= 0 ==> gain * low <= gain * high,
        gain <= 0 ==> gain * high <= gain * low,
{
}

/// The sign of a product, from the signs of its factors.
proof fn lemma_sign_of_product(gain: int, error: int)
    by (nonlinear_arith)
    ensures
        gain * error > 0 ==> (gain > 0 && error > 0) || (gain < 0 && error < 0),
        gain * error < 0 ==> (gain > 0 && error < 0) || (gain < 0 && error > 0),
        gain * error == 0 <==> gain == 0 || error == 0,
{
}

/// Under a constant error the integral is the error times the time that
/// has passed, saturated: with no derivative gain, a controller that
/// starts with an empty integral and has run through `deltas` answers the
/// next step, `delta` later, with
/// `kp * error + ki * error * (elapsed(deltas) + delta)`, each product
/// taken with saturation.
pub proof fn lemma_constant_error_output(
    start: PidState,
    error: int,
    deltas: Seq<int>,
    delta: int,
)
    requires
        start.kd == 0,
        start.total_error == 0,
        forall|i: int| 0 <= i < deltas.len() ==> deltas[i] >= 0,
        delta >= 0,
    ensures
        start.held(error, deltas).kp == start.kp,
        start.held(error, deltas).ki == start.ki,
        start.held(error, deltas).kd == 0,
        start.held(error, deltas).total_error == saturated(error * elapsed(deltas)),
        start.held(error, deltas).output(error, delta) == saturated(
            start.kp * error + start.ki * saturated(error * (elapsed(deltas) + delta)),
        ),
    decreases deltas.len(),
{
    lemma_elapsed_nonnegative(deltas);
    if deltas.len() == 0 {
        assert(error * 0 == 0) by (nonlinear_arith);
    } else {
        let front = deltas.drop_last();
        lemma_constant_error_output(start, error, front, deltas.last());
        lemma_elapsed_nonnegative(front);
        lemma_same_sign_areas(error, elapsed(front), deltas.last());
    }
    lemma_same_sign_areas(error, elapsed(deltas), delta);
}

/// Under a constant error and with no derivative gain the output moves in
/// one direction only: from one step to the next it never falls when
/// `ki * error` is positive, never rises when it is negative, and stays
/// where it is when it is zero.
pub proof fn lemma_constant_error_monotone(state: PidState, error: int, first: int, second: int)
    requires
        state.kd == 0,
        first >= 0,
        second >= 0,
    ensures
        state.ki * error >= 0 ==> state.output(error, first) <= state.stepped(error, first).output(
            error,
            second,
        ),
        state.ki * error <= 0 ==> state.output(error, first) >= state.stepped(error, first).output(
            error,
            second,
        ),
{
    let earlier = state.integral(error, first);
    let later = state.stepped(error, first).integral(error, second);
    lemma_same_sign_areas(error, 0, second);
    lemma_sign_of_product(state.ki, error);
    if earlier <= later {
        lemma_gain_keeps_order(state.ki, earlier, later);
    } else {
        lemma_gain_keeps_order(state.ki, later, earlier);
    }
}

/// One independent control loop: fixed gains and the two accumulators that
/// `step` alone reads and writes.
#[allow(non_camel_case_types)]
#[derive(Clone, Copy, Debug)]
pub struct PID {
    kp: i64,
    ki: i64,
    kd: i64,
    total_error: i64,
    last_error: i64,
}

impl View for PID {
    type V = PidState;

    closed spec fn view(&self) -> PidState {
        PidState {
            kp: self.kp as int,
            ki: self.ki as int,
            kd: self.kd as int,
            total_error: self.total_error as int,
            last_error: self.last_error as int,
        }
    }
}

impl PID {
    /// What a controller holds fits the machine representation.
    pub proof fn lemma_view_representable(&self)
        ensures
            self@.representable(),
    {
    }

    /// A controller with the given gains and both accumulators at zero.
    pub fn new(kp: i64, ki: i64, kd: i64) -> (pid: PID)
        ensures
            pid@ == (PidState {
                kp: kp as int,
                ki: ki as int,
                kd: kd as int,
                total_error: 0,
                last_error: 0,
            }),
    {
        PID { kp, ki, kd, total_error: 0, last_error: 0 }
    }

    /// Advances the controller by one cycle and returns the control output.
    ///
    /// `error` is the current error and `delta` the time since the previous
    /// step. A `delta` that is zero or negative yields no derivative term.
    pub fn step(&mut self, error: i64, delta: i64) -> (out: i64)
        ensures
            out == old(self)@.output(error as int, delta as int),
            final(self)@ == old(self)@.stepped(error as int, delta as int),
            old(self)@.representable(),
            final(self)@.representable(),
            delta == 0 ==> final(self)@.total_error == old(self)@.total_error,
            delta <= 0 ==> out == saturated(
                old(self)@.kp * error + old(self)@.ki * final(self)@.total_error,
            ),
    {
        proof {
            assert(delta == 0 ==> error * delta == 0) by (nonlinear_arith);
        }
        let area: i128 = product(error, delta);
        self.total_error = saturate(self.total_error as i128 + area);

        let d: i128 = if delta > 0 {
            scaled(error as i128 - self.last_error as i128, self.kd) / delta as i128
        } else {
            0
        };

        let p: i128 = product(self.kp, error);
        let i: i128 = product(self.ki, self.total_error);

        self.last_error = error;

        saturating_sum3(p, i, d)
    }
}

} // verus!
