//! Motion-control engine for a differential (two-wheel-driven) mobile robot.
//!
//! The library converts high-level movement goals ("drive this far", "turn to
//! this heading", "follow this path") into per-side motor voltage commands.
//! It covers the closed-loop PID control engine with its Linear/Angular/Swing
//! modes and anti-windup logic, the arc controller used for curved motion, the
//! pure-pursuit path-tracking geometry, and the odometry fusion step that
//! supplies the controller's notion of current pose.
//!
//! All quantities are fixed-point: an `i64` holds thousandths of the working
//! unit (inches, radians, volts), written "milli-units" throughout. The
//! hardware layer (motors, sensors, timers) stays outside the library; every
//! function here is pure and takes sensor readings as plain values.

pub mod arcpid;
pub mod config;
pub mod follow;
pub mod geo;
pub mod num;
pub mod odom;
pub mod pid;
pub mod pursuit;
