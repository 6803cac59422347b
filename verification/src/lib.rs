//! Fixed-point motion control for a differential-drive robot.
//!
//! Every quantity is an integer count of micro-units: angles in
//! microdegrees, voltages in microvolts, distances in micrometres and time
//! in microseconds. Contracts are stated over mathematical integers.

#[allow(non_snake_case)]
pub mod PID;
pub mod drivetrain;
pub mod fixed;
pub mod localization;
pub mod utils;
