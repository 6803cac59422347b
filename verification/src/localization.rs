//! Pose estimation from two heading sensors and two tracking wheels.
//!
//! One estimator cycle takes a frame of sensor readings, each of which may
//! be missing, and produces the next pose in one piece. Where the estimator
//! runs and how the readings are obtained is the caller's business.
//!
//! Position is accumulated in the robot's own frame: the displacement of a
//! cycle is not rotated by the heading before it is added. This is a
//! deliberate simplification.

use vstd::prelude::*;
use crate::fixed::{saturated, truncated_quotient, saturate, product, lemma_product_magnitude};
use crate::utils::{
    angle_error, degree_wrap, is_canonical, lemma_wrapped_ignores_turns, lemma_wrapped_negation,
    lemma_wrapped_of_canonical, lemma_wrapped_turns, wrapped, FULL_TURN, HALF_TURN,
};

verus! {

/// The denominator of the fixed-point fractions in a `Geometry`.
pub const UNIT: i64 = 1_000_000;

/// The robot's best estimate of where it is and where it points: position
/// in micrometres, `x` along the robot's forward axis and `y` sideways,
/// heading in microdegrees, and the time of the readings it was computed
/// from, in microseconds.
#[derive(Clone, Copy, Debug, PartialEq, Eq, Structural)]
pub struct Pose {
    pub x: i64,
    pub y: i64,
    pub rot: i64,
    pub timestamp: u64,
}

/// How the tracking wheels are built into the robot.
#[derive(Clone, Copy, Debug, PartialEq, Eq, Structural)]
pub struct Geometry {
    /// Circumference of a tracking wheel, in micrometres.
    pub wheel_circumference: i64,
    /// Cosine of the angle at which the wheels are mounted, in millionths.
    pub mount_cos: i32,
    /// Sine of the angle at which the wheels are mounted, in millionths.
    pub mount_sin: i32,
}

/// What the sensors gave in one cycle. A reading that failed is `None`,
/// never a made-up value.
#[derive(Clone, Copy, Debug, PartialEq, Eq, Structural)]
pub struct SensorFrame {
    /// Heading of the first inertial sensor, in microdegrees.
    pub heading_1: Option<i64>,
    /// Heading of the second inertial sensor, in microdegrees.
    pub heading_2: Option<i64>,
    /// Cumulative rotation of the first tracking wheel, in microdegrees.
    pub wheel_1: Option<i64>,
    /// Cumulative rotation of the second tracking wheel, in microdegrees.
    pub wheel_2: Option<i64>,
    /// When the readings were taken, in microseconds.
    pub timestamp: u64,
}

/// The circular mean of two headings: the direction of the sum of their
/// unit vectors. That direction bisects the shorter arc between the two.
/// The arc is walked in the positive sense, from whichever heading it
/// starts at, and halved rounding down, so the order of the two headings
/// makes no difference. Two opposite headings cancel; the direction of the
/// zero vector is taken as zero.
pub open spec fn circular_mean(first: int, second: int) -> int {
    let gap = wrapped(second - first);
    if gap == HALF_TURN {
        0
    } else if gap < 0 {
        wrapped(second + (-gap) / 2)
    } else {
        wrapped(first + gap / 2)
    }
}

/// The heading that a cycle settles on: the circular mean of two valid
/// readings, the valid one of two where the other failed, and the previous
/// heading where both failed.
pub open spec fn fused(first: Option<i64>, second: Option<i64>, previous: int) -> int {
    match (first, second) {
        (Some(a), Some(b)) => circular_mean(a as int, b as int),
        (Some(a), None) => wrapped(a as int),
        (None, Some(b)) => wrapped(b as int),
        (None, None) => previous,
    }
}

/// The circular mean does not depend on the order of the two headings.
pub proof fn lemma_circular_mean_symmetric(first: int, second: int)
    ensures
        circular_mean(first, second) == circular_mean(second, first),
{
    lemma_wrapped_negation(second - first);
    assert(first - second == -(second - first));
    let gap = wrapped(second - first);
    if gap == 0 {
        let gap_turns = lemma_wrapped_turns(second - first);
        lemma_wrapped_ignores_turns(first, -gap_turns);
    }
}

/// The fused heading does not depend on which sensor gave which reading.
pub proof fn lemma_fused_symmetric(first: Option<i64>, second: Option<i64>, previous: int)
    ensures
        fused(first, second, previous) == fused(second, first, previous),
{
    if first.is_some() && second.is_some() {
        lemma_circular_mean_symmetric(first.unwrap() as int, second.unwrap() as int);
    }
}

/// The circular mean lies on the shorter arc between the two headings, as
/// far from the one as from the other, up to the one microdegree that
/// halving an odd gap loses: the way from the first heading to the mean
/// and the way from the mean to the second add up to the way from the
/// first to the second, and differ by one microdegree at most.
pub proof fn lemma_circular_mean_bisects(first: int, second: int)
    requires
        wrapped(second - first) != HALF_TURN,
    ensures
        is_canonical(circular_mean(first, second)),
        wrapped(circular_mean(first, second) - first) + wrapped(
            second - circular_mean(first, second),
        ) == wrapped(second - first),
        -1 <= wrapped(circular_mean(first, second) - first) - wrapped(
            second - circular_mean(first, second),
        ) <= 1,
{
    let gap = wrapped(second - first);
    let gap_turns = lemma_wrapped_turns(second - first);
    if gap < 0 {
        let half = (-gap) / 2;
        let mean_turns = lemma_wrapped_turns(second + half);
        lemma_wrapped_ignores_turns(gap + half, mean_turns - gap_turns);
        lemma_wrapped_of_canonical(gap + half);
        lemma_wrapped_ignores_turns(-half, -mean_turns);
        lemma_wrapped_of_canonical(-half);
    } else {
        let half = gap / 2;
        let mean_turns = lemma_wrapped_turns(first + half);
        lemma_wrapped_ignores_turns(half, mean_turns);
        lemma_wrapped_of_canonical(half);
        lemma_wrapped_ignores_turns(gap - half, -(gap_turns + mean_turns));
        lemma_wrapped_of_canonical(gap - half);
    }
}

/// Two readings of the same direction fuse to that direction.
pub proof fn lemma_circular_mean_of_equal(first: int, second: int)
    requires
        wrapped(first) == wrapped(second),
    ensures
        circular_mean(first, second) == wrapped(first),
{
    let first_turns = lemma_wrapped_turns(first);
    let second_turns = lemma_wrapped_turns(second);
    lemma_wrapped_ignores_turns(0, second_turns - first_turns);
    lemma_wrapped_of_canonical(0);
}

/// The circular mean of two headings, wrapped to the canonical range. The
/// order of the two makes no difference.
pub fn mean_heading(first: i64, second: i64) -> (mean: i64)
    ensures
        mean == circular_mean(first as int, second as int),
        mean == circular_mean(second as int, first as int),
        is_canonical(mean as int),
{
    proof {
        lemma_circular_mean_symmetric(first as int, second as int);
    }
    let gap: i64 = angle_error(second, first);
    if gap == HALF_TURN {
        0
    } else if gap < 0 {
        proof {
            let turns = lemma_wrapped_turns(second as int);
            lemma_wrapped_ignores_turns(second + (-gap) / 2, turns);
        }
        degree_wrap(degree_wrap(second) + (-gap) / 2)
    } else {
        proof {
            let turns = lemma_wrapped_turns(first as int);
            lemma_wrapped_ignores_turns(first + gap / 2, turns);
        }
        degree_wrap(degree_wrap(first) + gap / 2)
    }
}

/// Fuses the two heading readings of a cycle into one heading.
pub fn fuse_headings(first: Option<i64>, second: Option<i64>, previous: i64) -> (rot: i64)
    ensures
        rot == fused(first, second, previous as int),
        rot == fused(second, first, previous as int),
        is_canonical(previous as int) ==> is_canonical(rot as int),
        first.is_some() && second.is_none() ==> rot == wrapped(first.unwrap() as int),
        first.is_none() && second.is_some() ==> rot == wrapped(second.unwrap() as int),
        first.is_none() && second.is_none() ==> rot == previous,
{
    proof {
        lemma_fused_symmetric(first, second, previous as int);
    }
    match (first, second) {
        (Some(a), Some(b)) => mean_heading(a, b),
        (Some(a), None) => degree_wrap(a),
        (None, Some(b)) => degree_wrap(b),
        (None, None) => previous,
    }
}

/// The distance that a tracking wheel has rolled when its encoder shows
/// `position` microdegrees: that share of a full turn, times the
/// circumference.
pub open spec fn travelled(position: int, circumference: int) -> int {
    saturated(truncated_quotient(position * circumference, FULL_TURN as int))
}

/// The cumulative distance of a wheel after a cycle: what its encoder
/// shows, or the distance of the cycle before where the reading failed.
pub open spec fn wheel_distance(reading: Option<i64>, previous: int, circumference: int) -> int {
    match reading {
        Some(position) => travelled(position as int, circumference),
        None => previous,
    }
}

/// The forward part of a cycle's displacement: the sum of the two wheel
/// increments, scaled by the cosine of the mounting angle.
pub open spec fn forward_shift(first: int, second: int, geometry: Geometry) -> int {
    truncated_quotient((first + second) * geometry.mount_cos, UNIT as int)
}

/// The sideways part of a cycle's displacement: the difference of the two
/// wheel increments, scaled by the sine of the mounting angle.
pub open spec fn sideways_shift(first: int, second: int, geometry: Geometry) -> int {
    truncated_quotient((first - second) * geometry.mount_sin, UNIT as int)
}

/// The mathematical state of the estimator: the pose it publishes, and the
/// cumulative distance of each tracking wheel as of the last cycle.
pub ghost struct OdometryState {
    pub x: int,
    pub y: int,
    pub rot: int,
    pub timestamp: int,
    pub wheel_1: int,
    pub wheel_2: int,
    pub geometry: Geometry,
}

impl OdometryState {
    /// The state at the start of a session: at the origin, heading zero,
    /// wheels at zero.
    pub open spec fn initial(geometry: Geometry) -> OdometryState {
        OdometryState { x: 0, y: 0, rot: 0, timestamp: 0, wheel_1: 0, wheel_2: 0, geometry }
    }

    /// Whether the state fits the machine representation, with the
    /// heading in the canonical range.
    pub open spec fn representable(self) -> bool {
        &&& i64::MIN <= self.x <= i64::MAX
        &&& i64::MIN <= self.y <= i64::MAX
        &&& is_canonical(self.rot)
        &&& 0 <= self.timestamp <= u64::MAX
        &&& i64::MIN <= self.wheel_1 <= i64::MAX
        &&& i64::MIN <= self.wheel_2 <= i64::MAX
    }

    /// The state after one cycle on the readings of `frame`.
    pub open spec fn updated(self, frame: SensorFrame) -> OdometryState {
        let circumference = self.geometry.wheel_circumference as int;
        let wheel_1 = wheel_distance(frame.wheel_1, self.wheel_1, circumference);
        let wheel_2 = wheel_distance(frame.wheel_2, self.wheel_2, circumference);
        let first = wheel_1 - self.wheel_1;
        let second = wheel_2 - self.wheel_2;
        OdometryState {
            x: saturated(self.x + forward_shift(first, second, self.geometry)),
            y: saturated(self.y + sideways_shift(first, second, self.geometry)),
            rot: fused(frame.heading_1, frame.heading_2, self.rot),
            timestamp: frame.timestamp as int,
            wheel_1,
            wheel_2,
            geometry: self.geometry,
        }
    }
}

/// The readings of a cycle with the two heading sensors exchanged.
pub open spec fn with_headings_swapped(frame: SensorFrame) -> SensorFrame {
    SensorFrame { heading_1: frame.heading_2, heading_2: frame.heading_1, ..frame }
}

/// Which heading sensor gave which reading makes no difference to the
/// pose that a cycle publishes.
pub proof fn lemma_update_ignores_sensor_order(state: OdometryState, frame: SensorFrame)
    ensures
        state.updated(with_headings_swapped(frame)) == state.updated(frame),
{
    lemma_fused_symmetric(frame.heading_1, frame.heading_2, state.rot);
}

/// A cycle leaves a state that fits the machine representation, whatever
/// the readings, provided the heading it may have to hold is canonical.
pub proof fn lemma_update_representable(state: OdometryState, frame: SensorFrame)
    requires
        is_canonical(state.rot),
        i64::MIN <= state.wheel_1 <= i64::MAX,
        i64::MIN <= state.wheel_2 <= i64::MAX,
    ensures
        state.updated(frame).representable(),
{
    if frame.heading_1.is_some() && frame.heading_2.is_some() {
        let first = frame.heading_1.unwrap() as int;
        let second = frame.heading_2.unwrap() as int;
        if wrapped(second - first) != HALF_TURN {
            lemma_circular_mean_bisects(first, second);
        }
    } else if frame.heading_1.is_some() {
        lemma_wrapped_turns(frame.heading_1.unwrap() as int);
    } else if frame.heading_2.is_some() {
        lemma_wrapped_turns(frame.heading_2.unwrap() as int);
    }
}

/// The pose estimator. It alone writes the pose; readers get a copy.
pub struct Odometry {
    pose: Pose,
    tw_1_distance: i64,
    tw_2_distance: i64,
    geometry: Geometry,
}

impl View for Odometry {
    type V = OdometryState;

    closed spec fn view(&self) -> OdometryState {
        OdometryState {
            x: self.pose.x as int,
            y: self.pose.y as int,
            rot: self.pose.rot as int,
            timestamp: self.pose.timestamp as int,
            wheel_1: self.tw_1_distance as int,
            wheel_2: self.tw_2_distance as int,
            geometry: self.geometry,
        }
    }
}

fn rolled(position: i64, circumference: i64) -> (distance: i64)
    ensures
        distance == travelled(position as int, circumference as int),
{
    saturate(product(position, circumference) / FULL_TURN as i128)
}

fn shifted(coordinate: i64, increment: i128, fraction: i32) -> (moved: i64)
    requires
        -0x2_0000_0000_0000_0000 <= increment <= 0x2_0000_0000_0000_0000,
    ensures
        moved == saturated(coordinate + truncated_quotient(increment * fraction, UNIT as int)),
{
    proof {
        lemma_product_magnitude(
            increment as int,
            fraction as int,
            0x2_0000_0000_0000_0000,
            0x8000_0000,
        );
    }
    saturate(coordinate as i128 + (increment * fraction as i128) / UNIT as i128)
}

impl Odometry {
    #[verifier::type_invariant]
    spec fn heading_is_canonical(self) -> bool {
        is_canonical(self.pose.rot as int)
    }

    /// What an estimator holds fits the machine representation. That its
    /// heading is canonical is what `new`, `update` and `pose` establish.
    pub proof fn lemma_view_representable(&self)
        requires
            is_canonical(self@.rot),
        ensures
            self@.representable(),
    {
    }

    /// An estimator at the start of a session.
    pub fn new(geometry: Geometry) -> (odometry: Odometry)
        ensures
            odometry@ == OdometryState::initial(geometry),
            odometry@.representable(),
    {
        Odometry {
            pose: Pose { x: 0, y: 0, rot: 0, timestamp: 0 },
            tw_1_distance: 0,
            tw_2_distance: 0,
            geometry,
        }
    }

    /// The pose as of the last cycle. Its heading is canonical.
    pub fn pose(&self) -> (pose: Pose)
        ensures
            pose.x == self@.x,
            pose.y == self@.y,
            pose.rot == self@.rot,
            pose.timestamp == self@.timestamp,
            is_canonical(pose.rot as int),
            self@.representable(),
    {
        proof {
            use_type_invariant(self);
        }
        self.pose
    }

    /// Runs one estimator cycle on the readings of `frame`.
    ///
    /// A failed heading reading is made up for by the other sensor, and
    /// the heading is held when both fail; a failed wheel reading counts
    /// as no movement of that wheel. The new pose replaces the old one in
    /// a single assignment.
    pub fn update(&mut self, frame: SensorFrame)
        ensures
            final(self)@ == old(self)@.updated(frame),
            final(self)@ == old(self)@.updated(with_headings_swapped(frame)),
            old(self)@.representable(),
            final(self)@.representable(),
            frame.heading_1.is_none() && frame.heading_2.is_none()
                ==> final(self)@.rot == old(self)@.rot,
    {
        proof {
            use_type_invariant(&*self);
            lemma_update_ignores_sensor_order(self@, frame);
        }
        let wheel_1: i64 = match frame.wheel_1 {
            Some(position) => rolled(position, self.geometry.wheel_circumference),
            None => self.tw_1_distance,
        };
        let wheel_2: i64 = match frame.wheel_2 {
            Some(position) => rolled(position, self.geometry.wheel_circumference),
            None => self.tw_2_distance,
        };
        let first: i128 = wheel_1 as i128 - self.tw_1_distance as i128;
        let second: i128 = wheel_2 as i128 - self.tw_2_distance as i128;

        self.pose = Pose {
            x: shifted(self.pose.x, first + second, self.geometry.mount_cos),
            y: shifted(self.pose.y, first - second, self.geometry.mount_sin),
            rot: fuse_headings(frame.heading_1, frame.heading_2, self.pose.rot),
            timestamp: frame.timestamp,
        };
        self.tw_1_distance = wheel_1;
        self.tw_2_distance = wheel_2;
    }
}

} // verus!
