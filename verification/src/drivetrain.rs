//! The heading-hold maneuver: turning on the spot until the robot points
//! at a target heading.
//!
//! The maneuver is a state machine that is advanced once per cycle with the
//! latest heading and the current time, and answers with the command for
//! the two sides of the drive. It ends in one of two ways: the heading has
//! stayed within tolerance for enough consecutive cycles, or the time
//! allowed for the maneuver has run out.

use vstd::prelude::*;
use crate::PID::{PidState, PID};
use crate::fixed::{limit_symmetric, limited, magnitude, saturated, truncated_quotient};
use crate::utils::{angle_error, lemma_wrapped_turns, wrapped};

verus! {

/// The largest heading error that counts as on target, in microdegrees.
pub const TOLERANCE: i64 = 500_000;

/// What one cycle within tolerance adds to the settling accumulator.
pub const SETTLE_STEP: u64 = 20;

/// The settling accumulator at which the maneuver has converged.
pub const SETTLE_THRESHOLD: u64 = 200;

/// The time allowed for a maneuver, in microseconds.
pub const TIMEOUT: u64 = 5_000_000;

/// The largest voltage that a drive side takes, in microvolts.
pub const MAX_VOLTAGE: i64 = 12_000_000;

/// The proportional gain of the turn controller, in volts per turn of
/// heading error.
pub const TURN_GAIN: i64 = 24;

/// The number of degrees in a turn. The controller works on the error in
/// microdegrees, and its output divided by this is the voltage in
/// microvolts; the gain is applied before the division, so that no part of
/// the error is lost ahead of it.
pub const DEGREES_PER_TURN: i64 = 360;

/// Where a maneuver stands.
#[derive(Clone, Copy, Debug, PartialEq, Eq, Structural)]
pub enum ManeuverState {
    /// Active, and the last heading was out of tolerance.
    Turning,
    /// Active, and the heading has been within tolerance for one or more
    /// consecutive cycles.
    Settling,
    /// Ended: the heading stayed within tolerance for long enough.
    Converged,
    /// Ended: the time allowed ran out first.
    TimedOut,
}

/// What the drive is to do after a cycle. Voltages are in microvolts.
#[derive(Clone, Copy, Debug, PartialEq, Eq, Structural)]
pub enum DriveCommand {
    /// Apply these voltages to the two sides.
    Drive { left: i64, right: i64 },
    /// Hold both sides in place.
    Hold,
    /// Apply these voltages, then hold both sides in place at once.
    DriveThenHold { left: i64, right: i64 },
}

/// The mathematical state of a maneuver.
pub ghost struct HoldState {
    pub target: int,
    pub pid: PidState,
    pub start: int,
    pub last_loop: int,
    pub settling: int,
    pub state: ManeuverState,
}

impl HoldState {
    /// A maneuver that starts at time `now`.
    pub open spec fn initial(target: int, now: int) -> HoldState {
        HoldState {
            target,
            pid: PidState {
                kp: TURN_GAIN as int,
                ki: 0,
                kd: 0,
                total_error: 0,
                last_error: 0,
            },
            start: now,
            last_loop: now,
            settling: 0,
            state: ManeuverState::Turning,
        }
    }

    /// Whether the maneuver is still running.
    pub open spec fn active(self) -> bool {
        self.state == ManeuverState::Turning || self.state == ManeuverState::Settling
    }

    /// The signed shortest way round from `heading` to the target.
    pub open spec fn error(self, heading: int) -> int {
        wrapped(self.target - heading)
    }

    /// Whether `heading` is on target.
    pub open spec fn in_tolerance(self, heading: int) -> bool {
        magnitude(self.error(heading)) <= TOLERANCE
    }

    /// The settling accumulator after a cycle that sees `heading`: one
    /// step further, up to the threshold, within tolerance, and back to
    /// zero outside it.
    pub open spec fn settled(self, heading: int) -> int {
        if !self.in_tolerance(heading) {
            0
        } else if self.settling + SETTLE_STEP >= SETTLE_THRESHOLD {
            SETTLE_THRESHOLD as int
        } else {
            self.settling + SETTLE_STEP
        }
    }

    /// Whether a cycle that sees `heading` ends the maneuver as converged.
    pub open spec fn converges(self, heading: int) -> bool {
        self.in_tolerance(heading) && self.settling + SETTLE_STEP >= SETTLE_THRESHOLD
    }

    /// The time since the maneuver started; zero for a clock that ran
    /// backwards.
    pub open spec fn elapsed(self, now: int) -> int {
        if now > self.start { now - self.start } else { 0 }
    }

    /// Whether the time allowed has run out at `now`.
    pub open spec fn times_out(self, now: int) -> bool {
        self.elapsed(now) >= TIMEOUT
    }

    /// The time since the previous cycle, as the controller is given it.
    pub open spec fn interval(self, now: int) -> int {
        if now > self.last_loop { saturated(now - self.last_loop) } else { 0 }
    }

    /// The voltage for the left side: the controller's output on the
    /// heading error, brought from degrees to turns and limited to what
    /// the drive takes. The right side gets the opposite.
    pub open spec fn spin(self, heading: int, now: int) -> int {
        limited(
            truncated_quotient(
                self.pid.output(self.error(heading), self.interval(now)),
                DEGREES_PER_TURN as int,
            ),
            MAX_VOLTAGE as int,
        )
    }

    /// Whether the controller has the gains of a turn: proportional only.
    pub open spec fn tuned(self) -> bool {
        self.pid.kp == TURN_GAIN && self.pid.ki == 0 && self.pid.kd == 0
    }

    /// Whether the state fits the machine representation.
    pub open spec fn representable(self) -> bool {
        &&& i64::MIN <= self.target <= i64::MAX
        &&& self.pid.representable()
        &&& 0 <= self.start <= u64::MAX
        &&& 0 <= self.last_loop <= u64::MAX
        &&& 0 <= self.settling <= u64::MAX
    }

    /// The state after a cycle that sees `heading` at time `now`.
    pub open spec fn stepped(self, heading: int, now: int) -> HoldState {
        if !self.active() {
            self
        } else if self.converges(heading) {
            HoldState { settling: self.settled(heading), state: ManeuverState::Converged, ..self }
        } else {
            HoldState {
                pid: self.pid.stepped(self.error(heading), self.interval(now)),
                last_loop: now,
                settling: self.settled(heading),
                state: if self.times_out(now) {
                    ManeuverState::TimedOut
                } else if self.settled(heading) > 0 {
                    ManeuverState::Settling
                } else {
                    ManeuverState::Turning
                },
                ..self
            }
        }
    }

    /// The command of a cycle that sees `heading` at time `now`.
    pub open spec fn command(self, heading: int, now: int) -> DriveCommand {
        let spin = self.spin(heading, now);
        if !self.active() || self.converges(heading) {
            DriveCommand::Hold
        } else if self.times_out(now) {
            DriveCommand::DriveThenHold { left: spin as i64, right: (-spin) as i64 }
        } else {
            DriveCommand::Drive { left: spin as i64, right: (-spin) as i64 }
        }
    }
}

/// What a cycle is given: the heading read and the time of the reading.
pub ghost struct Sample {
    pub heading: int,
    pub now: int,
}

impl HoldState {
    /// The state after one cycle on each of `samples`, in order.
    pub open spec fn run(self, samples: Seq<Sample>) -> HoldState
        decreases samples.len(),
    {
        if samples.len() == 0 {
            self
        } else {
            self.run(samples.drop_last()).stepped(samples.last().heading, samples.last().now)
        }
    }
}

/// Whether a voltage goes the way of a heading error: never against it,
/// and with it wherever the gain times the error comes to a microvolt or
/// more.
pub open spec fn follows(voltage: int, error: int) -> bool {
    &&& error >= 0 ==> voltage >= 0
    &&& error <= 0 ==> voltage <= 0
    &&& TURN_GAIN * error >= DEGREES_PER_TURN ==> voltage > 0
    &&& TURN_GAIN * error <= -DEGREES_PER_TURN ==> voltage < 0
}

/// With the gains of a turn the voltage is the gain times the heading
/// error, brought from degrees to turns, rounded toward zero and limited.
/// So it never has the sign opposite to the error, it is zero for no
/// error, and it has the sign of the error wherever the gain times the
/// error comes to a microvolt or more.
pub proof fn lemma_spin_follows_error(state: HoldState, heading: int, now: int)
    requires
        state.tuned(),
    ensures
        state.spin(heading, now) == limited(
            truncated_quotient(TURN_GAIN * state.error(heading), DEGREES_PER_TURN as int),
            MAX_VOLTAGE as int,
        ),
        follows(state.spin(heading, now), state.error(heading)),
{
    let error = state.error(heading);
    let delta = state.interval(now);
    lemma_wrapped_turns(state.target - heading);
    assert(state.pid.kd * (error - state.pid.last_error) == 0) by (nonlinear_arith)
        requires
            state.pid.kd == 0,
    ;
    assert(state.pid.ki * state.pid.integral(error, delta) == 0) by (nonlinear_arith)
        requires
            state.pid.ki == 0,
    ;
    assert(state.pid.derivative(error, delta) == 0);
    assert(state.pid.output(error, delta) == TURN_GAIN * error);
}

/// A run changes neither the target, nor the start of the maneuver, nor
/// the gains of its controller.
pub proof fn lemma_run_keeps_target(state: HoldState, samples: Seq<Sample>)
    ensures
        state.run(samples).target == state.target,
        state.run(samples).start == state.start,
        state.tuned() ==> state.run(samples).tuned(),
    decreases samples.len(),
{
    if samples.len() > 0 {
        lemma_run_keeps_target(state, samples.drop_last());
    }
}

/// A maneuver that has ended stays ended, whatever it is given, and asks
/// for nothing but to hold.
pub proof fn lemma_end_is_final(state: HoldState, samples: Seq<Sample>, heading: int, now: int)
    requires
        !state.active(),
    ensures
        state.run(samples) == state,
        state.command(heading, now) == DriveCommand::Hold,
    decreases samples.len(),
{
    if samples.len() > 0 {
        lemma_end_is_final(state, samples.drop_last(), heading, now);
    }
}

/// Settling counts consecutive cycles only: a cycle out of tolerance puts
/// the accumulator back to zero, however far a cycle within tolerance had
/// brought it.
pub proof fn lemma_leaving_tolerance_resets(state: HoldState, inside: Sample, outside: Sample)
    requires
        state.active(),
        state.settling >= 0,
        state.in_tolerance(inside.heading),
        !state.in_tolerance(outside.heading),
    ensures
        state.stepped(inside.heading, inside.now).active() ==> state.stepped(
            inside.heading,
            inside.now,
        ).settling > 0,
        state.stepped(inside.heading, inside.now).active() ==> state.stepped(
            inside.heading,
            inside.now,
        ).stepped(outside.heading, outside.now).settling == 0,
{
}

/// While the heading stays within tolerance and time has not run out, each
/// cycle adds one step to the accumulator, and the maneuver goes on for as
/// long as the accumulator is short of the threshold.
pub proof fn lemma_steady_heading_settles(state: HoldState, samples: Seq<Sample>)
    requires
        state.active(),
        state.settling >= 0,
        state.settling + samples.len() * SETTLE_STEP < SETTLE_THRESHOLD,
        forall|i: int| 0 <= i < samples.len() ==> state.in_tolerance(#[trigger] samples[i].heading),
        forall|i: int| 0 <= i < samples.len() ==> !state.times_out(#[trigger] samples[i].now),
    ensures
        state.run(samples).active(),
        state.run(samples).settling == state.settling + samples.len() * SETTLE_STEP,
        samples.len() > 0 ==> state.run(samples).state == ManeuverState::Settling,
    decreases samples.len(),
{
    if samples.len() > 0 {
        let front = samples.drop_last();
        lemma_steady_heading_settles(state, front);
        lemma_run_keeps_target(state, front);
    }
}

/// A heading that is within tolerance from the first cycle of a maneuver
/// on brings convergence in exactly as many cycles as steps make up the
/// threshold: the maneuver is active after each cycle before the last, and
/// converged after the last, which asks the drive to hold and nothing
/// else. Time may run out on that last cycle without changing this.
pub proof fn lemma_steady_heading_converges(state: HoldState, samples: Seq<Sample>)
    requires
        state.state == ManeuverState::Turning,
        state.settling == 0,
        samples.len() * SETTLE_STEP == SETTLE_THRESHOLD,
        forall|i: int| 0 <= i < samples.len() ==> state.in_tolerance(#[trigger] samples[i].heading),
        forall|i: int| 0 <= i < samples.len() - 1 ==> !state.times_out(#[trigger] samples[i].now),
    ensures
        forall|k: int|
            0 <= k < samples.len() ==> (#[trigger] state.run(samples.take(k))).active()
                && state.run(samples.take(k)).settling == k * SETTLE_STEP,
        state.run(samples).state == ManeuverState::Converged,
        state.run(samples.drop_last()).command(samples.last().heading, samples.last().now)
            == DriveCommand::Hold,
{
    assert forall|k: int| 0 <= k < samples.len() implies (#[trigger] state.run(
        samples.take(k),
    )).active() && state.run(samples.take(k)).settling == k * SETTLE_STEP by {
        lemma_steady_heading_settles(state, samples.take(k));
    }
    assert(samples.drop_last() =~= samples.take(samples.len() - 1));
    lemma_run_keeps_target(state, samples.drop_last());
}

/// A heading that never comes within tolerance never brings convergence,
/// and the maneuver ends, timed out, on the first cycle at which the time
/// allowed has run out.
pub proof fn lemma_stuck_heading_times_out(state: HoldState, samples: Seq<Sample>)
    requires
        state.active(),
        forall|i: int|
            0 <= i < samples.len() ==> !state.in_tolerance(#[trigger] samples[i].heading),
    ensures
        state.run(samples).state != ManeuverState::Converged,
        state.run(samples).state == ManeuverState::TimedOut <==> exists|i: int|
            0 <= i < samples.len() && state.times_out(#[trigger] samples[i].now),
        samples.len() > 0 ==> state.run(samples).settling == 0,
    decreases samples.len(),
{
    if samples.len() > 0 {
        let front = samples.drop_last();
        lemma_stuck_heading_times_out(state, front);
        lemma_run_keeps_target(state, front);
        if state.run(front).state == ManeuverState::TimedOut {
            let i = choose|i: int| 0 <= i < front.len() && state.times_out(#[trigger] front[i].now);
            assert(state.times_out(samples[i].now));
        } else if state.times_out(samples.last().now) {
            assert(state.times_out(samples[samples.len() - 1].now));
        } else {
            assert forall|i: int| 0 <= i < samples.len() implies !state.times_out(
                #[trigger] samples[i].now,
            ) by {
                if i < front.len() {
                    assert(front[i] == samples[i]);
                }
            }
        }
    }
}

/// A maneuver overruns the time allowed by less than one cycle period: if
/// it was still active after one cycle and timed out on the next, the time
/// allowed had not run out at the first and had at the second.
pub proof fn lemma_timeout_within_one_cycle(state: HoldState, earlier: Sample, later: Sample)
    requires
        state.active(),
        state.stepped(earlier.heading, earlier.now).active(),
        state.stepped(earlier.heading, earlier.now).stepped(later.heading, later.now).state
            == ManeuverState::TimedOut,
    ensures
        state.elapsed(earlier.now) < TIMEOUT <= state.elapsed(later.now),
        state.elapsed(later.now) - TIMEOUT < later.now - earlier.now,
{
}

/// One heading-hold maneuver. It owns its controller, so nothing that one
/// maneuver has integrated reaches the next.
pub struct HeadingHold {
    target: i64,
    pid: PID,
    start: u64,
    last_loop: u64,
    settling: u64,
    state: ManeuverState,
}

impl View for HeadingHold {
    type V = HoldState;

    closed spec fn view(&self) -> HoldState {
        HoldState {
            target: self.target as int,
            pid: self.pid@,
            start: self.start as int,
            last_loop: self.last_loop as int,
            settling: self.settling as int,
            state: self.state,
        }
    }
}

impl HeadingHold {
    #[verifier::type_invariant]
    spec fn has_turn_gains(self) -> bool {
        self.pid@.kp == TURN_GAIN && self.pid@.ki == 0 && self.pid@.kd == 0
    }

    /// What a maneuver holds fits the machine representation. That its
    /// controller has the gains of a turn is what `new`, `step`, `state`
    /// and `settling` establish.
    pub proof fn lemma_view_representable(&self)
        ensures
            self@.representable(),
    {
        self.pid.lemma_view_representable();
    }

    /// A maneuver towards `target_angle`, in microdegrees, that starts at
    /// `now`, in microseconds.
    pub fn new(target_angle: i64, now: u64) -> (hold: HeadingHold)
        ensures
            hold@ == HoldState::initial(target_angle as int, now as int),
            hold@.tuned(),
            hold@.representable(),
    {
        HeadingHold {
            target: target_angle,
            pid: PID::new(TURN_GAIN, 0, 0),
            start: now,
            last_loop: now,
            settling: 0,
            state: ManeuverState::Turning,
        }
    }

    /// Where the maneuver stands.
    pub fn state(&self) -> (state: ManeuverState)
        ensures
            state == self@.state,
            self@.tuned(),
            self@.representable(),
    {
        proof {
            use_type_invariant(self);
            self.lemma_view_representable();
        }
        self.state
    }

    /// The settling accumulator.
    pub fn settling(&self) -> (settling: u64)
        ensures
            settling == self@.settling,
            self@.tuned(),
            self@.representable(),
    {
        proof {
            use_type_invariant(self);
            self.lemma_view_representable();
        }
        self.settling
    }

    /// Runs one cycle on the heading `current_angle`, in microdegrees,
    /// read at time `now`, in microseconds, and returns the command for
    /// the drive.
    ///
    /// A maneuver that has ended stays as it is and answers `Hold`.
    pub fn step(&mut self, current_angle: i64, now: u64) -> (command: DriveCommand)
        ensures
            final(self)@ == old(self)@.stepped(current_angle as int, now as int),
            command == old(self)@.command(current_angle as int, now as int),
            old(self)@.tuned() && old(self)@.representable(),
            final(self)@.tuned() && final(self)@.representable(),
            old(self)@.spin(current_angle as int, now as int) == limited(
                truncated_quotient(
                    TURN_GAIN * old(self)@.error(current_angle as int),
                    DEGREES_PER_TURN as int,
                ),
                MAX_VOLTAGE as int,
            ),
            old(self)@.active() && !old(self)@.in_tolerance(current_angle as int)
                ==> final(self)@.settling == 0,
            !final(self)@.active() ==> !(command is Drive),
            match command {
                DriveCommand::Drive { left, right } => left == -right && -MAX_VOLTAGE <= left
                    <= MAX_VOLTAGE && follows(left as int, old(self)@.error(current_angle as int)),
                DriveCommand::DriveThenHold { left, right } => left == -right && -MAX_VOLTAGE
                    <= left <= MAX_VOLTAGE && follows(
                    left as int,
                    old(self)@.error(current_angle as int),
                ),
                DriveCommand::Hold => true,
            },
    {
        proof {
            use_type_invariant(&*self);
            self.lemma_view_representable();
            lemma_spin_follows_error(self@, current_angle as int, now as int);
        }
        match self.state {
            ManeuverState::Converged | ManeuverState::TimedOut => {
                return DriveCommand::Hold;
            },
            _ => {},
        }
        let error: i64 = angle_error(self.target, current_angle);
        let in_tolerance: bool = -TOLERANCE <= error && error <= TOLERANCE;
        let settling: u64 = if !in_tolerance {
            0
        } else if self.settling >= SETTLE_THRESHOLD - SETTLE_STEP {
            SETTLE_THRESHOLD
        } else {
            self.settling + SETTLE_STEP
        };
        self.settling = settling;
        if in_tolerance && settling >= SETTLE_THRESHOLD {
            self.state = ManeuverState::Converged;
            return DriveCommand::Hold;
        }
        let delta: i64 = if now > self.last_loop {
            let passed: u64 = now - self.last_loop;
            if passed > i64::MAX as u64 {
                i64::MAX
            } else {
                passed as i64
            }
        } else {
            0
        };
        let mut pid: PID = self.pid;
        let output: i64 = pid.step(error, delta);
        self.pid = pid;
        let spin: i64 = limit_symmetric(output / DEGREES_PER_TURN, MAX_VOLTAGE);
        self.last_loop = now;
        let elapsed: u64 = if now > self.start {
            now - self.start
        } else {
            0
        };
        if elapsed >= TIMEOUT {
            self.state = ManeuverState::TimedOut;
            DriveCommand::DriveThenHold { left: spin, right: -spin }
        } else {
            self.state = if settling > 0 {
                ManeuverState::Settling
            } else {
                ManeuverState::Turning
            };
            DriveCommand::Drive { left: spin, right: -spin }
        }
    }
}

} // verus!
