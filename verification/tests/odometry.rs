//! Odometry fusion and drivetrain conversion: the fixed-point trigonometry,
//! tracker conversions, pose integration, and rotation-to-distance gearing.

use motioncore::config::DrivetrainConfig;
use motioncore::odom::{
    cos_milli, odom_update, sin_milli, OdomMovement, OdomValues, Trackers, WheelTracker,
};

fn tracker(offset: i64, wheel_diameter: i64, reverse: bool) -> WheelTracker {
    WheelTracker { offset, wheel_diameter, reverse }
}

#[test]
fn sine_quarter_turns() {
    assert_eq!(sin_milli(0), 0);
    assert_eq!(sin_milli(1_571), 1_000);
    assert_eq!(sin_milli(3_142), 0);
    assert_eq!(sin_milli(4_712), -1_000);
    assert_eq!(sin_milli(6_283), 0);
    assert_eq!(sin_milli(-1_571), -1_000);
}

#[test]
fn cosine_quarter_turns() {
    assert_eq!(cos_milli(0), 1_000);
    assert_eq!(cos_milli(1_571), 0);
    assert_eq!(cos_milli(3_142), -1_000);
    assert_eq!(cos_milli(-3_142), -1_000);
}

#[test]
fn sine_wraps_whole_turns() {
    assert_eq!(sin_milli(6_283 + 1_571), 1_000);
    assert_eq!(sin_milli(-4_712), 1_000);
    assert_eq!(sin_milli(100_000), sin_milli(100_000 % 6_283));
}

#[test]
fn sine_intermediate_angles() {
    // the rational approximation's exact values at pi/4 and pi/3
    assert_eq!(sin_milli(785), 706);
    assert_eq!(sin_milli(1_047), 865);
    assert_eq!(cos_milli(1_047), 500);
}

#[test]
fn tracker_rotation_to_distance() {
    // one full rotation of a wheel of diameter 2.0: travel = 2 pi r = 6.283
    let t = tracker(0, 2_000, false);
    assert_eq!(t.travel(6_283), 6_283);
    let reversed = tracker(0, 2_000, true);
    assert_eq!(reversed.travel(6_283), -6_283);
    assert_eq!(t.travel(0), 0);
}

#[test]
fn tracker_arc_correction() {
    // no wheel rotation, but the robot turned one radian: a tracker offset
    // 2.0 from the center reports the induced arc, removed by the correction
    let t = tracker(2_000, 2_000, false);
    assert_eq!(t.corrected(0, 1_000), -2_000);
    // zero offset: no correction
    let centered = tracker(0, 2_000, false);
    assert_eq!(centered.corrected(1_000, 1_000), centered.travel(1_000));
}

#[test]
fn pose_integration_cardinal_directions() {
    // forward 1.0 at heading 0: +x
    let mut pose = OdomValues { global_x: 0, global_y: 0, global_heading: 0 };
    odom_update(&mut pose, 1_000, 0, 0);
    assert_eq!((pose.global_x, pose.global_y, pose.global_heading), (1_000, 0, 0));
    // forward 1.0 at heading pi/2: +y
    let mut pose = OdomValues { global_x: 0, global_y: 0, global_heading: 1_571 };
    odom_update(&mut pose, 1_000, 0, 1_571);
    assert_eq!((pose.global_x, pose.global_y, pose.global_heading), (0, 1_000, 1_571));
    // leftward 1.0 at heading 0: +y
    let mut pose = OdomValues { global_x: 0, global_y: 0, global_heading: 0 };
    odom_update(&mut pose, 0, 1_000, 0);
    assert_eq!((pose.global_x, pose.global_y), (0, 1_000));
}

#[test]
fn pose_integration_uses_midpoint_heading() {
    // a quarter turn during the tick: the displacement is rotated by the
    // midpoint heading pi/4
    let mut pose = OdomValues { global_x: 0, global_y: 0, global_heading: 0 };
    odom_update(&mut pose, 1_000, 0, 1_571);
    assert_eq!((pose.global_x, pose.global_y, pose.global_heading), (706, 706, 1_571));
}

#[test]
fn odometry_step_folds_trackers_into_pose() {
    let trackers = Trackers {
        horizontal: tracker(0, 2_000, false),
        vertical: tracker(0, 2_000, false),
    };
    let origin = OdomValues { global_x: 0, global_y: 0, global_heading: 0 };
    let mut movement = OdomMovement::new(origin, trackers);
    // forward tracker turns one radian at heading 0: one unit forward
    movement.step(0, 1_000, 0);
    assert_eq!((movement.pose.global_x, movement.pose.global_y), (1_000, 0));
    // the next tick continues from the running pose
    movement.step(0, 1_000, 0);
    assert_eq!((movement.pose.global_x, movement.pose.global_y), (2_000, 0));
    assert_eq!(movement.pose.global_heading, 0);
}

#[test]
fn drivetrain_rotation_to_distance() {
    // wheel 3.25, gearing 36:60, one motor revolution
    let cfg = DrivetrainConfig::new(3_250, 36, 60, 300_000);
    assert_eq!(cfg.wheel_travel(6_283), 6_126);
    assert_eq!(cfg.wheel_travel(0), 0);
    assert_eq!(cfg.wheel_travel(-6_283), -6_126);
    // direct drive keeps the full rotation
    let direct = DrivetrainConfig::new(2_000, 36, 36, 300_000);
    assert_eq!(direct.wheel_travel(6_283), 6_283);
}
