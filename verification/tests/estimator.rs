use robot_motion::localization::{
    fuse_headings, mean_heading, Geometry, Odometry, Pose, SensorFrame,
};

const DEG: i64 = 1_000_000;

fn diagonal() -> Geometry {
    Geometry { wheel_circumference: 360_000, mount_cos: 707_107, mount_sin: 707_107 }
}

fn headings(first: Option<i64>, second: Option<i64>, timestamp: u64) -> SensorFrame {
    SensorFrame { heading_1: first, heading_2: second, wheel_1: None, wheel_2: None, timestamp }
}

fn wheels(first: Option<i64>, second: Option<i64>, timestamp: u64) -> SensorFrame {
    SensorFrame { heading_1: None, heading_2: None, wheel_1: first, wheel_2: second, timestamp }
}

#[test]
fn fusing_across_the_wrap_boundary_gives_zero() {
    assert_eq!(fuse_headings(Some(359 * DEG), Some(DEG), 77 * DEG), 0);
    assert_eq!(fuse_headings(Some(DEG), Some(359 * DEG), 77 * DEG), 0);
}

#[test]
fn fusing_takes_the_middle_of_the_shorter_arc() {
    assert_eq!(mean_heading(10 * DEG, 20 * DEG), 15 * DEG);
    assert_eq!(mean_heading(20 * DEG, 10 * DEG), 15 * DEG);
    assert_eq!(mean_heading(170 * DEG, 190 * DEG), 180 * DEG);
    assert_eq!(mean_heading(170 * DEG, -170 * DEG), 180 * DEG);
    assert_eq!(mean_heading(350 * DEG, 30 * DEG), 10 * DEG);
    assert_eq!(mean_heading(0, 179 * DEG), 89 * DEG + 500_000);
    assert_eq!(mean_heading(0, 181 * DEG), -89 * DEG - 500_000);
    assert_eq!(mean_heading(90 * DEG, 90 * DEG), 90 * DEG);
    assert_eq!(mean_heading(450 * DEG, 90 * DEG), 90 * DEG);
}

#[test]
fn fusing_an_odd_gap_rounds_alike_for_both_orders() {
    assert_eq!(mean_heading(0, 3), 1);
    assert_eq!(mean_heading(3, 0), 1);
    assert_eq!(mean_heading(0, -3), -2);
    assert_eq!(mean_heading(-3, 0), -2);
    assert_eq!(mean_heading(179_999_999, -179_999_998), 180_000_000);
    assert_eq!(mean_heading(-179_999_998, 179_999_999), 180_000_000);
}

#[test]
fn fusing_does_not_depend_on_the_order_of_the_sensors() {
    let samples = [
        0,
        1,
        3,
        -3,
        DEG,
        359 * DEG,
        90 * DEG + 1,
        -90 * DEG,
        180 * DEG,
        179_999_999,
        -179_999_999,
        i64::MAX,
        i64::MIN,
    ];
    for a in samples {
        for b in samples {
            assert_eq!(mean_heading(a, b), mean_heading(b, a));
            assert_eq!(
                fuse_headings(Some(a), Some(b), 7),
                fuse_headings(Some(b), Some(a), 7)
            );
        }
        assert_eq!(fuse_headings(Some(a), None, 7), fuse_headings(None, Some(a), 7));
    }
}

#[test]
fn estimator_publishes_the_same_heading_with_the_sensors_swapped() {
    let mut one = Odometry::new(diagonal());
    let mut other = Odometry::new(diagonal());
    one.update(headings(Some(0), Some(3), 10_000));
    other.update(headings(Some(3), Some(0), 10_000));
    assert_eq!(one.pose(), other.pose());
    assert_eq!(one.pose().rot, 1);
    one.update(headings(Some(350 * DEG), Some(25 * DEG + 1), 20_000));
    other.update(headings(Some(25 * DEG + 1), Some(350 * DEG), 20_000));
    assert_eq!(one.pose(), other.pose());
    assert_eq!(one.pose().rot, 7 * DEG + 500_000);
}

#[test]
fn opposite_headings_cancel_to_zero() {
    assert_eq!(mean_heading(0, 180 * DEG), 0);
    assert_eq!(mean_heading(90 * DEG, 270 * DEG), 0);
    assert_eq!(mean_heading(-45 * DEG, 135 * DEG), 0);
}

#[test]
fn one_failed_sensor_leaves_the_other_reading() {
    assert_eq!(fuse_headings(None, Some(90 * DEG), 5 * DEG), 90 * DEG);
    assert_eq!(fuse_headings(Some(90 * DEG), None, 5 * DEG), 90 * DEG);
    assert_eq!(fuse_headings(None, Some(270 * DEG), 5 * DEG), -90 * DEG);
    assert_eq!(fuse_headings(Some(359 * DEG), None, 5 * DEG), -DEG);
    assert_eq!(fuse_headings(None, Some(0), 5 * DEG), 0);
}

#[test]
fn two_failed_sensors_hold_the_previous_heading() {
    assert_eq!(fuse_headings(None, None, 5 * DEG), 5 * DEG);
    assert_eq!(fuse_headings(None, None, -179 * DEG), -179 * DEG);
    assert_eq!(fuse_headings(None, None, 0), 0);
}

#[test]
fn estimator_starts_at_the_origin() {
    let odometry = Odometry::new(diagonal());
    assert_eq!(odometry.pose(), Pose { x: 0, y: 0, rot: 0, timestamp: 0 });
}

#[test]
fn estimator_holds_the_heading_while_both_sensors_fail() {
    let mut odometry = Odometry::new(diagonal());
    odometry.update(headings(Some(40 * DEG), Some(50 * DEG), 10_000));
    assert_eq!(odometry.pose().rot, 45 * DEG);
    odometry.update(headings(None, None, 20_000));
    assert_eq!(odometry.pose().rot, 45 * DEG);
    assert_eq!(odometry.pose().timestamp, 20_000);
    odometry.update(headings(None, None, 30_000));
    assert_eq!(odometry.pose().rot, 45 * DEG);
    odometry.update(headings(None, Some(90 * DEG), 40_000));
    assert_eq!(odometry.pose().rot, 90 * DEG);
}

#[test]
fn estimator_combines_wheel_increments() {
    let mut odometry = Odometry::new(diagonal());
    // the first wheel has rolled 1000 micrometres, the second did not read
    odometry.update(wheels(Some(DEG), None, 10_000));
    assert_eq!(odometry.pose(), Pose { x: 707, y: 707, rot: 0, timestamp: 10_000 });
    // increments 2000 and -1000: sum 1000, difference 3000
    odometry.update(wheels(Some(3 * DEG), Some(-DEG), 20_000));
    assert_eq!(odometry.pose(), Pose { x: 1414, y: 2828, rot: 0, timestamp: 20_000 });
    // no movement
    odometry.update(wheels(Some(3 * DEG), Some(-DEG), 30_000));
    assert_eq!(odometry.pose(), Pose { x: 1414, y: 2828, rot: 0, timestamp: 30_000 });
}

#[test]
fn estimator_counts_a_failed_wheel_as_standing_still() {
    let mut odometry = Odometry::new(diagonal());
    odometry.update(wheels(Some(DEG), Some(DEG), 1));
    assert_eq!(odometry.pose(), Pose { x: 1414, y: 0, rot: 0, timestamp: 1 });
    odometry.update(wheels(None, None, 2));
    assert_eq!(odometry.pose(), Pose { x: 1414, y: 0, rot: 0, timestamp: 2 });
    // the distance missed while the reading failed shows up afterwards
    odometry.update(wheels(Some(2 * DEG), None, 3));
    assert_eq!(odometry.pose(), Pose { x: 2121, y: 707, rot: 0, timestamp: 3 });
}

#[test]
fn estimator_rounds_displacements_toward_zero() {
    let mut odometry = Odometry::new(diagonal());
    odometry.update(wheels(Some(-1_500_000), None, 1));
    // -1500 * 707107 / 1000000 = -1060.66
    assert_eq!(odometry.pose(), Pose { x: -1060, y: -1060, rot: 0, timestamp: 1 });
}

#[test]
fn estimator_rounds_wheel_distance_toward_zero() {
    let straight = Geometry { wheel_circumference: 1_000, mount_cos: 1_000_000, mount_sin: 0 };
    let mut odometry = Odometry::new(straight);
    // 719999 / 360000 = 1.99
    odometry.update(wheels(Some(719_999_000), None, 1));
    assert_eq!(odometry.pose().x, 1_999);
    assert_eq!(odometry.pose().y, 0);
    let mut odometry = Odometry::new(straight);
    odometry.update(wheels(Some(-359_999), None, 1));
    assert_eq!(odometry.pose().x, 0);
}

#[test]
fn estimator_saturates_position() {
    let huge = Geometry { wheel_circumference: i64::MAX, mount_cos: i32::MAX, mount_sin: i32::MIN };
    let mut odometry = Odometry::new(huge);
    odometry.update(wheels(Some(i64::MAX), Some(i64::MIN), 1));
    // wheel distances saturate at both ends; their sum is -1, their
    // difference 2^64 - 1
    assert_eq!(odometry.pose().x, -2_147);
    assert_eq!(odometry.pose().y, i64::MIN);
}

#[test]
fn estimator_fuses_and_moves_in_one_cycle() {
    let mut odometry = Odometry::new(diagonal());
    odometry.update(SensorFrame {
        heading_1: Some(359 * DEG),
        heading_2: Some(DEG),
        wheel_1: Some(DEG),
        wheel_2: Some(DEG),
        timestamp: 7,
    });
    assert_eq!(odometry.pose(), Pose { x: 1414, y: 0, rot: 0, timestamp: 7 });
}
