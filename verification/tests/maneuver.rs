use robot_motion::drivetrain::{
    DriveCommand, HeadingHold, ManeuverState, MAX_VOLTAGE, SETTLE_STEP, SETTLE_THRESHOLD, TIMEOUT,
    TOLERANCE,
};

const DEG: i64 = 1_000_000;
const PERIOD: u64 = 10_000;

#[test]
fn a_new_maneuver_is_turning() {
    let hold = HeadingHold::new(90 * DEG, 1_234);
    assert_eq!(hold.state(), ManeuverState::Turning);
    assert_eq!(hold.settling(), 0);
}

#[test]
fn steady_heading_converges_after_ten_cycles() {
    let mut hold = HeadingHold::new(90 * DEG, 0);
    for cycle in 1..=9u64 {
        let command = hold.step(90 * DEG + 300_000, cycle * PERIOD);
        assert_eq!(command, DriveCommand::Drive { left: -20_000, right: 20_000 });
        assert_eq!(hold.state(), ManeuverState::Settling);
        assert_eq!(hold.settling(), cycle * SETTLE_STEP);
    }
    let command = hold.step(90 * DEG + 300_000, 10 * PERIOD);
    assert_eq!(command, DriveCommand::Hold);
    assert_eq!(hold.state(), ManeuverState::Converged);
    assert_eq!(hold.settling(), SETTLE_THRESHOLD);
    for cycle in 11..=20u64 {
        let command = hold.step(45 * DEG, cycle * PERIOD);
        assert_eq!(command, DriveCommand::Hold);
        assert_eq!(hold.state(), ManeuverState::Converged);
    }
}

#[test]
fn stuck_heading_times_out_on_the_first_cycle_past_the_limit() {
    let mut hold = HeadingHold::new(90 * DEG, 0);
    let mut now = 0;
    let mut cycles = 0;
    loop {
        now += PERIOD;
        cycles += 1;
        let command = hold.step(0, now);
        if hold.state() == ManeuverState::TimedOut {
            assert_eq!(command, DriveCommand::DriveThenHold { left: 6_000_000, right: -6_000_000 });
            break;
        }
        assert_eq!(command, DriveCommand::Drive { left: 6_000_000, right: -6_000_000 });
        assert_eq!(hold.state(), ManeuverState::Turning);
        assert!(now < TIMEOUT);
    }
    assert_eq!(cycles, 500);
    assert!(now >= TIMEOUT && now - TIMEOUT < PERIOD);
    assert_eq!(hold.step(0, now + PERIOD), DriveCommand::Hold);
    assert_eq!(hold.step(90 * DEG, now + 2 * PERIOD), DriveCommand::Hold);
    assert_eq!(hold.state(), ManeuverState::TimedOut);
}

#[test]
fn timeout_is_measured_from_the_start() {
    let start = 1_000_000;
    let mut hold = HeadingHold::new(0, start);
    hold.step(90 * DEG, start + TIMEOUT - 1);
    assert_eq!(hold.state(), ManeuverState::Turning);
    hold.step(90 * DEG, start + TIMEOUT);
    assert_eq!(hold.state(), ManeuverState::TimedOut);
}

#[test]
fn leaving_tolerance_resets_the_accumulator() {
    let mut hold = HeadingHold::new(0, 0);
    hold.step(100_000, PERIOD);
    assert_eq!(hold.settling(), 20);
    assert_eq!(hold.state(), ManeuverState::Settling);
    hold.step(600_000, 2 * PERIOD);
    assert_eq!(hold.settling(), 0);
    assert_eq!(hold.state(), ManeuverState::Turning);
    hold.step(-100_000, 3 * PERIOD);
    assert_eq!(hold.settling(), 20);
}

#[test]
fn interrupted_settling_starts_over() {
    let mut hold = HeadingHold::new(0, 0);
    let mut now = 0;
    for _ in 0..9 {
        now += PERIOD;
        hold.step(0, now);
    }
    assert_eq!(hold.settling(), 180);
    now += PERIOD;
    hold.step(DEG, now);
    assert_eq!(hold.settling(), 0);
    for cycle in 1..=9u64 {
        now += PERIOD;
        hold.step(0, now);
        assert_eq!(hold.settling(), cycle * SETTLE_STEP);
        assert_eq!(hold.state(), ManeuverState::Settling);
    }
    now += PERIOD;
    assert_eq!(hold.step(0, now), DriveCommand::Hold);
    assert_eq!(hold.state(), ManeuverState::Converged);
}

#[test]
fn tolerance_includes_its_boundary() {
    let mut hold = HeadingHold::new(0, 0);
    hold.step(TOLERANCE, PERIOD);
    assert_eq!(hold.settling(), 20);
    hold.step(-TOLERANCE, 2 * PERIOD);
    assert_eq!(hold.settling(), 40);
    hold.step(TOLERANCE + 1, 3 * PERIOD);
    assert_eq!(hold.settling(), 0);
    hold.step(-TOLERANCE - 1, 4 * PERIOD);
    assert_eq!(hold.settling(), 0);
}

#[test]
fn the_two_sides_get_opposite_voltages() {
    let mut hold = HeadingHold::new(0, 0);
    // error -36 degrees: a tenth of a turn, times the gain of 24
    assert_eq!(
        hold.step(36 * DEG, PERIOD),
        DriveCommand::Drive { left: -2_400_000, right: 2_400_000 }
    );
    assert_eq!(
        hold.step(-36 * DEG, 2 * PERIOD),
        DriveCommand::Drive { left: 2_400_000, right: -2_400_000 }
    );
    // the gain is applied before the division by 360
    assert_eq!(hold.step(-359, 3 * PERIOD), DriveCommand::Drive { left: 23, right: -23 });
    assert_eq!(hold.step(-360, 4 * PERIOD), DriveCommand::Drive { left: 24, right: -24 });
}

#[test]
fn a_small_error_keeps_its_sign_in_the_voltage() {
    let mut hold = HeadingHold::new(0, 0);
    assert_eq!(hold.step(-100, PERIOD), DriveCommand::Drive { left: 6, right: -6 });
    assert_eq!(hold.step(100, 2 * PERIOD), DriveCommand::Drive { left: -6, right: 6 });
    // 24 * 15 / 360 is the first whole microvolt
    assert_eq!(hold.step(-15, 3 * PERIOD), DriveCommand::Drive { left: 1, right: -1 });
    assert_eq!(hold.step(15, 4 * PERIOD), DriveCommand::Drive { left: -1, right: 1 });
    assert_eq!(hold.step(-14, 5 * PERIOD), DriveCommand::Drive { left: 0, right: 0 });
    assert_eq!(hold.step(14, 6 * PERIOD), DriveCommand::Drive { left: 0, right: 0 });
    assert_eq!(hold.step(0, 7 * PERIOD), DriveCommand::Drive { left: 0, right: 0 });
}

#[test]
fn the_voltage_reaches_its_limit_at_half_a_turn() {
    let mut hold = HeadingHold::new(180 * DEG, 0);
    assert_eq!(
        hold.step(0, PERIOD),
        DriveCommand::Drive { left: MAX_VOLTAGE, right: -MAX_VOLTAGE }
    );
    let mut hold = HeadingHold::new(0, 0);
    assert_eq!(
        hold.step(179 * DEG, PERIOD),
        DriveCommand::Drive { left: -11_933_333, right: 11_933_333 }
    );
}

#[test]
fn the_error_goes_the_short_way_round() {
    let mut hold = HeadingHold::new(170 * DEG, 0);
    // error -20 degrees
    assert_eq!(
        hold.step(-170 * DEG, PERIOD),
        DriveCommand::Drive { left: -1_333_333, right: 1_333_333 }
    );
}

#[test]
fn timeout_ends_a_maneuver_that_is_settling() {
    let mut hold = HeadingHold::new(0, 0);
    hold.step(0, PERIOD);
    assert_eq!(hold.state(), ManeuverState::Settling);
    assert_eq!(hold.step(0, TIMEOUT), DriveCommand::DriveThenHold { left: 0, right: 0 });
    assert_eq!(hold.state(), ManeuverState::TimedOut);
    assert_eq!(hold.settling(), 40);
}

#[test]
fn convergence_wins_over_a_timeout_in_the_same_cycle() {
    let mut hold = HeadingHold::new(0, 0);
    for cycle in 1..=9u64 {
        hold.step(0, cycle * PERIOD);
    }
    assert_eq!(hold.step(0, TIMEOUT + 1), DriveCommand::Hold);
    assert_eq!(hold.state(), ManeuverState::Converged);
}

#[test]
fn a_clock_that_runs_backwards_counts_as_no_time() {
    let mut hold = HeadingHold::new(0, 10 * TIMEOUT);
    assert_eq!(
        hold.step(90 * DEG, 0),
        DriveCommand::Drive { left: -6_000_000, right: 6_000_000 }
    );
    assert_eq!(hold.state(), ManeuverState::Turning);
    hold.step(90 * DEG, u64::MAX);
    assert_eq!(hold.state(), ManeuverState::TimedOut);
}
