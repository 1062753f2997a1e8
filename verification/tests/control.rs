//! The PID engine's behavioral guarantees on concrete runs: anti-windup,
//! output saturation, mode sign conventions, settle-and-reset, and a
//! closed-loop drive simulated against a first-order motor response.

use motioncore::arcpid::{arc_tick, ArcPID, ArcVars};
use motioncore::pid::{abscap, pid_tick, PIDControl, PIDType, PIDVars, PID};

fn gains(kp: i64, ki: i64, kd: i64, leeway: i64) -> PID {
    PID::new(kp, ki, kd, leeway)
}

/// The test plant's response: division rounded to nearest, ties away from
/// zero, matching the library's fixed-point quotient.
fn rdiv64(n: i64, d: i64) -> i64 {
    let (nn, dd) = (n.unsigned_abs(), d.unsigned_abs());
    let q = ((nn + dd / 2) / dd) as i64;
    if (n < 0) == (d < 0) {
        q
    } else {
        -q
    }
}

#[test]
fn abscap_values() {
    assert_eq!(abscap(500, 1000), 500);
    assert_eq!(abscap(1500, 1000), 1000);
    assert_eq!(abscap(-1500, 1000), -1000);
    assert_eq!(abscap(-1000, 1000), -1000);
    assert_eq!(abscap(0, 0), 0);
}

#[test]
fn integral_clamped_by_anti_windup_bound() {
    // ki = 0.5, maxpwr = 12.0: the accumulated integral stays in
    // [-maxpwr/ki, maxpwr/ki] = [-24.0, 24.0] whatever the error history
    let mut ctrl = PIDControl::new(gains(0, 500, 0, 0), gains(0, 500, 0, 0));
    ctrl.set_command(PIDType::Linear, 1_000_000, 12_000);
    let mut vars = PIDVars::new();
    for _ in 0..10 {
        pid_tick(&ctrl, &mut vars, 0, 0);
        assert!(vars.ierror_left <= 24_000 && vars.ierror_left >= -24_000);
        assert!(vars.ierror_right <= 24_000 && vars.ierror_right >= -24_000);
    }
    // error 1000.0 accumulates 10.0 per tick and pins at the bound
    assert_eq!(vars.ierror_left, 24_000);
    assert_eq!(vars.ierror_right, 24_000);

    // the bound holds from below as well
    let mut ctrl2 = PIDControl::new(gains(0, 500, 0, 0), gains(0, 500, 0, 0));
    ctrl2.set_command(PIDType::Linear, -1_000_000, 12_000);
    let mut vars2 = PIDVars::new();
    for _ in 0..10 {
        pid_tick(&ctrl2, &mut vars2, 0, 0);
    }
    assert_eq!(vars2.ierror_left, -24_000);
}

#[test]
fn output_never_exceeds_power_cap() {
    // a gain large enough to saturate in one tick, in every mode
    let big = gains(1_000_000, 0, 0, 0);
    for (mode, target) in [
        (PIDType::Linear, 1_000_000),
        (PIDType::Angular, 1_000_000),
        (PIDType::Swing, 1_000_000),
        (PIDType::Swing, -1_000_000),
    ] {
        let mut ctrl = PIDControl::new(big, big);
        ctrl.set_command(mode, target, 12_000);
        let mut vars = PIDVars::new();
        let out = pid_tick(&ctrl, &mut vars, 0, 0);
        assert!(out.u_left.abs() <= 12_000, "left exceeded cap");
        assert!(out.u_right.abs() <= 12_000, "right exceeded cap");
    }
    // a negative power cap bounds by its magnitude
    let mut ctrl = PIDControl::new(big, big);
    ctrl.set_command(PIDType::Linear, 1_000_000, -12_000);
    let mut vars = PIDVars::new();
    let out = pid_tick(&ctrl, &mut vars, 0, 0);
    assert_eq!(out.u_left, 12_000);
    assert_eq!(out.u_right, 12_000);
}

#[test]
fn output_bounded_at_extreme_magnitudes() {
    // the largest gains, target and cap the engine accepts
    let extreme = gains(1_000_000_000, 1_000_000_000, 1_000_000_000, 0);
    let mut ctrl = PIDControl::new(extreme, extreme);
    ctrl.set_command(PIDType::Angular, 1_000_000_000, 1_000_000_000);
    let mut vars = PIDVars::new();
    for _ in 0..5 {
        let out = pid_tick(&ctrl, &mut vars, -1_000_000_000, 1_000_000_000);
        assert!(out.u_left.abs() <= 1_000_000_000);
        assert!(out.u_right.abs() <= 1_000_000_000);
    }
}

#[test]
fn mode_sign_conventions() {
    let g = gains(100, 50, 10, 0);
    // identical error on both sides
    let mut linear = PIDControl::new(g, g);
    linear.set_command(PIDType::Linear, 5_000, 12_000);
    let mut vars = PIDVars::new();
    let out = pid_tick(&linear, &mut vars, 1_000, 1_000);
    assert_eq!(out.u_left, out.u_right);
    assert!(out.u_left > 0);

    let mut angular = PIDControl::new(g, g);
    angular.set_command(PIDType::Angular, 5_000, 12_000);
    let mut vars = PIDVars::new();
    let out = pid_tick(&angular, &mut vars, 1_000, 1_000);
    assert_eq!(out.u_left, -out.u_right);
    assert!(out.u_left > 0);

    let mut swing_pos = PIDControl::new(g, g);
    swing_pos.set_command(PIDType::Swing, 5_000, 12_000);
    let mut vars = PIDVars::new();
    let out = pid_tick(&swing_pos, &mut vars, 1_000, 1_000);
    assert_eq!(out.u_right, 0);
    assert!(out.u_left != 0);

    let mut swing_neg = PIDControl::new(g, g);
    swing_neg.set_command(PIDType::Swing, -5_000, 12_000);
    let mut vars = PIDVars::new();
    let out = pid_tick(&swing_neg, &mut vars, -1_000, -1_000);
    assert_eq!(out.u_left, 0);
    assert!(out.u_right != 0);
}

#[test]
fn settle_zeroes_outputs_and_resets_integrals() {
    // both side errors inside the leeway band: outputs zeroed, integral
    // accumulators reset, command reported settled
    let g = gains(100, 50, 10, 50);
    let mut ctrl = PIDControl::new(g, g);
    ctrl.set_command(PIDType::Linear, 100, 12_000);
    let mut vars = PIDVars::new();
    vars.ierror_left = 777;
    vars.ierror_right = -777;
    let out = pid_tick(&ctrl, &mut vars, 95, 120);
    assert!(out.settled);
    assert_eq!(out.u_left, 0);
    assert_eq!(out.u_right, 0);
    assert_eq!(vars.ierror_left, 0);
    assert_eq!(vars.ierror_right, 0);
    // the issuer then clears the active flag; the loop itself keeps running
    ctrl.set_active(false);
    assert!(!ctrl.is_active());
}

#[test]
fn not_settled_outside_band() {
    let g = gains(100, 0, 0, 50);
    let mut ctrl = PIDControl::new(g, g);
    ctrl.set_command(PIDType::Linear, 100, 12_000);
    let mut vars = PIDVars::new();
    let out = pid_tick(&ctrl, &mut vars, 0, 0);
    assert!(!out.settled);
    assert!(out.u_left != 0);
}

#[test]
fn closed_loop_drive_monotone_and_bounded() {
    // kp = 0.1, ki = 0, kd = 0.01, target = 10.0, maxpwr = 12.0, start at 0:
    // against a first-order motor response the output magnitude decreases
    // monotonically as the error shrinks and never exceeds 12.0
    let g = gains(100, 0, 10, 1_500);
    let mut ctrl = PIDControl::new(g, g);
    ctrl.set_command(PIDType::Linear, 10_000, 12_000);
    let mut vars = PIDVars::new();
    // the loop has been watching the plant at rest: previous error is the
    // initial error
    vars.perror_left = 10_000;
    vars.perror_right = 10_000;
    let mut pos: i64 = 0;
    let mut prev_mag: i64 = i64::MAX;
    let mut settled_tick: Option<usize> = None;
    for n in 0..600 {
        let out = pid_tick(&ctrl, &mut vars, pos, pos);
        assert!(out.u_left.abs() <= 12_000);
        assert!(out.u_left.abs() <= prev_mag, "output magnitude rose at tick {}", n);
        prev_mag = out.u_left.abs();
        if out.settled && settled_tick.is_none() {
            settled_tick = Some(n);
        }
        // first-order response: velocity proportional to applied voltage
        pos += rdiv64(out.u_left, 24);
    }
    let settle = settled_tick.expect("the drive settles");
    assert_eq!(settle, 474);
    assert_eq!(prev_mag, 0);
    assert!((10_000 - pos).abs() < 1_500);
}

#[test]
fn arc_controller_blends_base_speed_and_correction() {
    let mut ctrl = ArcPID::new(100, 500, 0, 50, 12_000);
    ctrl.set_target(1_000);
    ctrl.set_active(true);
    let mut vars = ArcVars::new();
    let out = arc_tick(&ctrl, &mut vars, 0, 5_000);
    // correction u = kp*e + ki*i = 100 + 5; asymmetric around the base speed
    assert_eq!(out.u_left, 5_105);
    assert_eq!(out.u_right, 4_895);
    assert!(!out.settled);
    assert_eq!(vars.ierror, 10);
    assert_eq!(vars.perror, 1_000);
}

#[test]
fn arc_controller_applies_offset_and_caps() {
    let mut ctrl = ArcPID::new(100, 0, 0, 50, 12_000);
    ctrl.set_target(1_000);
    ctrl.set_offset(300);
    ctrl.set_active(true);
    let mut vars = ArcVars::new();
    let out = arc_tick(&ctrl, &mut vars, 0, 5_000);
    assert_eq!(out.u_left, 5_400);
    assert_eq!(out.u_right, 5_200);
    // base speed near the cap: both sides stay within it
    let mut vars2 = ArcVars::new();
    let out2 = arc_tick(&ctrl, &mut vars2, 0, 11_990);
    assert!(out2.u_left.abs() <= 12_000);
    assert!(out2.u_right.abs() <= 12_000);
    assert_eq!(out2.u_left, 12_000);
}

#[test]
fn inactive_arc_controller_drives_nothing() {
    let mut ctrl = ArcPID::new(100, 500, 10, 50, 12_000);
    ctrl.set_target(1_000);
    assert!(!ctrl.is_active());
    let mut vars = ArcVars::new();
    vars.ierror = 42;
    let out = arc_tick(&ctrl, &mut vars, 0, 5_000);
    assert_eq!(out.u_left, 0);
    assert_eq!(out.u_right, 0);
    assert_eq!(vars.ierror, 42);
    // within tolerance it still reports settled
    let out2 = arc_tick(&ctrl, &mut vars, 990, 5_000);
    assert!(out2.settled);
}

#[test]
fn arc_integral_respects_anti_windup() {
    let mut ctrl = ArcPID::new(0, 500, 0, 0, 12_000);
    ctrl.set_target(1_000_000);
    ctrl.set_active(true);
    let mut vars = ArcVars::new();
    for _ in 0..10 {
        arc_tick(&ctrl, &mut vars, 0, 0);
        assert!(vars.ierror.abs() <= 24_000);
    }
    assert_eq!(vars.ierror, 24_000);
}
