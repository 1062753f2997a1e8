//! Odometry fusion: converts the two orthogonal wheel trackers' rotation
//! deltas into local displacement (with the heading-induced arc correction
//! for each tracker's offset from the rotational center), rotates that
//! displacement into the field frame with a fixed-point sine/cosine, and
//! integrates the running global pose.
//!
//! Angles are milli-radians; distances are milli-units. The heading measures
//! counterclockwise from the field's x-axis: the robot's forward axis is
//! `(cos h, sin h)` and its leftward axis `(-sin h, cos h)`.

use vstd::prelude::*;

use crate::num::{iabs, lemma_mul_abs_bound, lemma_rdiv_abs_le, lemma_rdiv_bound, rdiv, rdiv_i128, SCALE};

verus! {

/// Pi in milli-radians, rounded to the nearest.
pub const PI_MRAD: i64 = 3142;

/// Half pi in milli-radians, rounded to the nearest.
pub const HALF_PI_MRAD: i64 = 1571;

/// Two pi in milli-radians, rounded to the nearest.
pub const TWO_PI_MRAD: i64 = 6283;

/// Largest angle magnitude (milli-radians) the trigonometry accepts.
pub const ANGLE_MAG: i64 = 1_000_000_000;

/// Largest per-tick displacement magnitude (milli-units) accepted by the
/// pose integration step.
pub const STEP_LIMIT: i64 = 100_000;

/// Largest pose coordinate magnitude the integration step maintains.
pub const POSE_LIMIT: i64 = 10_000_000;

/// The rational sine approximation on `[0, pi]`, in milli-units:
/// `16 q / (5 pi^2 - 4 q)` with `q = x (pi - x)`, rounded.
pub open spec fn bhaskara_spec(x: int) -> int {
    let q = x * (PI_MRAD - x);
    rdiv(16000 * q, 5 * (PI_MRAD as int * PI_MRAD as int) - 4 * q)
}

/// Sine of an angle in milli-radians, in milli-units: the angle is reduced
/// modulo two pi, the first half-turn uses the rational approximation, the
/// second its negation.
pub open spec fn sin_spec(a: int) -> int {
    let x = a % (TWO_PI_MRAD as int);
    if x <= PI_MRAD {
        bhaskara_spec(x)
    } else {
        -bhaskara_spec(x - PI_MRAD)
    }
}

/// Cosine in milli-units: sine shifted by a quarter turn.
pub open spec fn cos_spec(a: int) -> int {
    sin_spec(a + HALF_PI_MRAD)
}

/// The rational sine approximation on the first half-turn.
fn bhaskara(x: i64) -> (r: i64)
    requires
        0 <= x <= PI_MRAD,
    ensures
        r == bhaskara_spec(x as int),
        0 <= r <= SCALE,
{
    proof {
        lemma_mul_abs_bound(x as int, PI_MRAD - x, PI_MRAD as int, PI_MRAD as int);
    }
    let q: i64 = x * (PI_MRAD - x);
    proof {
        assert(q >= 0) by (nonlinear_arith)
            requires
                q == x * (PI_MRAD - x),
                0 <= x <= PI_MRAD,
        ;
        assert(4 * q <= PI_MRAD as int * PI_MRAD as int) by (nonlinear_arith)
            requires
                q == x * (PI_MRAD - x),
        ;
    }
    let num: i64 = 16000 * q;
    let den: i64 = 5 * (PI_MRAD * PI_MRAD) - 4 * q;
    proof {
        assert(16000 * q <= den as int * SCALE as int);
        lemma_rdiv_bound(num as int, den as int, SCALE as int);
        crate::num::lemma_rdiv_nonneg(num as int, den as int);
    }
    let r: i128 = rdiv_i128(num as i128, den as i128);
    r as i64
}

/// Sine of an angle in milli-radians, as milli-units in `[-1000, 1000]`.
pub fn sin_milli(a: i64) -> (r: i64)
    ensures
        r == sin_spec(a as int),
        iabs(r as int) <= SCALE,
{
    let x: i64 = match a.checked_rem_euclid(TWO_PI_MRAD) {
        Some(v) => v,
        None => 0,
    };
    if x <= PI_MRAD {
        bhaskara(x)
    } else {
        -bhaskara(x - PI_MRAD)
    }
}

/// Cosine of an angle in milli-radians, as milli-units in `[-1000, 1000]`.
pub fn cos_milli(a: i64) -> (r: i64)
    requires
        iabs(a as int) <= 4 * ANGLE_MAG,
    ensures
        r == cos_spec(a as int),
        iabs(r as int) <= SCALE,
{
    sin_milli(a + HALF_PI_MRAD)
}

/// One wheel tracker: converts a rotation-sensor reading into linear travel
/// of its free-spinning wheel. `offset` is the wheel's perpendicular
/// distance from the robot's rotational center (used for the arc
/// correction), `reverse` flips the sensor's sign.
#[derive(Clone, Copy, PartialEq, Eq, Structural, Debug)]
pub struct WheelTracker {
    /// Perpendicular distance from the rotational center, milli-units.
    pub offset: i64,
    /// The tracking wheel's diameter, milli-units.
    pub wheel_diameter: i64,
    /// Whether the sensor reads backwards.
    pub reverse: bool,
}

/// Tracker geometry within the accepted magnitudes.
pub open spec fn tracker_ok(t: WheelTracker) -> bool {
    &&& iabs(t.offset as int) <= 1_000_000
    &&& 0 <= t.wheel_diameter <= 1_000_000
}

/// Linear travel of the tracking wheel for a rotation delta: the rotation
/// (milli-radians) times the wheel radius, sign-flipped when reversed.
pub open spec fn travel_spec(t: WheelTracker, rot: int) -> int {
    let d = rdiv(rot * t.wheel_diameter, 2 * SCALE as int);
    if t.reverse {
        -d
    } else {
        d
    }
}

/// The tracker's local displacement for a rotation delta, corrected for the
/// displacement its offset from the rotational center induces when the
/// robot turns: `travel - dheading * offset`.
pub open spec fn corrected_spec(t: WheelTracker, rot: int, dheading: int) -> int {
    travel_spec(t, rot) - rdiv(dheading * t.offset, SCALE as int)
}

impl WheelTracker {
    /// Linear travel for a rotation delta of `rot` milli-radians.
    pub fn travel(&self, rot: i64) -> (d: i64)
        requires
            tracker_ok(*self),
            iabs(rot as int) <= ANGLE_MAG,
        ensures
            d == travel_spec(*self, rot as int),
            iabs(d as int) <= 500_000_000_000,
    {
        proof {
            lemma_mul_abs_bound(
                rot as int,
                self.wheel_diameter as int,
                ANGLE_MAG as int,
                1_000_000int,
            );
            lemma_rdiv_bound(
                (rot as i128 * self.wheel_diameter as i128) as int,
                2 * SCALE as int,
                500_000_000_000int,
            );
        }
        let d: i128 = rdiv_i128(rot as i128 * self.wheel_diameter as i128, 2 * SCALE as i128);
        if self.reverse {
            -(d as i64)
        } else {
            d as i64
        }
    }

    /// Local displacement for a rotation delta, with the heading-induced arc
    /// correction.
    pub fn corrected(&self, rot: i64, dheading: i64) -> (d: i64)
        requires
            tracker_ok(*self),
            iabs(rot as int) <= ANGLE_MAG,
            iabs(dheading as int) <= 2 * ANGLE_MAG,
        ensures
            d == corrected_spec(*self, rot as int, dheading as int),
    {
        let t = self.travel(rot);
        proof {
            lemma_mul_abs_bound(
                dheading as int,
                self.offset as int,
                2 * ANGLE_MAG as int,
                1_000_000int,
            );
            lemma_rdiv_bound(
                (dheading as i128 * self.offset as i128) as int,
                SCALE as int,
                2_000_000_000_000int,
            );
        }
        let arc: i128 = rdiv_i128(dheading as i128 * self.offset as i128, SCALE as i128);
        (t as i128 - arc) as i64
    }
}

/// The orthogonal tracker pair: one wheel measuring leftward (lateral)
/// travel, one measuring forward travel. The heading itself comes from the
/// inertial sensor, read by the caller.
#[derive(Clone, Copy, PartialEq, Eq, Structural, Debug)]
pub struct Trackers {
    /// The lateral (strafe) tracking wheel.
    pub horizontal: WheelTracker,
    /// The forward tracking wheel.
    pub vertical: WheelTracker,
}

pub open spec fn trackers_ok(t: Trackers) -> bool {
    tracker_ok(t.horizontal) && tracker_ok(t.vertical)
}

/// The robot's pose in the field frame: the single source of truth for
/// position, written only by the odometry step and read by pursuit.
#[derive(Clone, Copy, PartialEq, Eq, Structural, Debug)]
pub struct OdomValues {
    /// Field x, milli-units.
    pub global_x: i64,
    /// Field y, milli-units.
    pub global_y: i64,
    /// Heading, milli-radians counterclockwise from the field x-axis.
    pub global_heading: i64,
}

/// A pose within the bounds the integration step maintains.
pub open spec fn pose_ok(p: OdomValues) -> bool {
    &&& iabs(p.global_x as int) <= POSE_LIMIT
    &&& iabs(p.global_y as int) <= POSE_LIMIT
    &&& iabs(p.global_heading as int) <= ANGLE_MAG
}

/// The x displacement in the field frame for local displacement
/// `(forward, left)` at heading `h`.
pub open spec fn global_dx_spec(forward: int, left: int, h: int) -> int {
    rdiv(forward * cos_spec(h) - left * sin_spec(h), SCALE as int)
}

/// The y displacement in the field frame for local displacement
/// `(forward, left)` at heading `h`.
pub open spec fn global_dy_spec(forward: int, left: int, h: int) -> int {
    rdiv(forward * sin_spec(h) + left * cos_spec(h), SCALE as int)
}

/// The heading used to rotate one tick's local displacement: the midpoint
/// of the old and new headings.
pub open spec fn mid_heading_spec(h_old: int, h_new: int) -> int {
    h_old + rdiv(h_new - h_old, 2)
}

/// Integrates one tick's local displacement into the global pose, rotating
/// by the midpoint heading, and stores the new heading.
pub fn odom_update(pose: &mut OdomValues, forward: i64, left: i64, heading_new: i64)
    requires
        pose_ok(*old(pose)),
        iabs(old(pose).global_x as int) <= POSE_LIMIT - 2 * STEP_LIMIT,
        iabs(old(pose).global_y as int) <= POSE_LIMIT - 2 * STEP_LIMIT,
        iabs(forward as int) <= STEP_LIMIT,
        iabs(left as int) <= STEP_LIMIT,
        iabs(heading_new as int) <= ANGLE_MAG,
    ensures
        pose_ok(*final(pose)),
        ({
            let mid = mid_heading_spec(old(pose).global_heading as int, heading_new as int);
            &&& final(pose).global_x == old(pose).global_x + global_dx_spec(
                forward as int,
                left as int,
                mid,
            )
            &&& final(pose).global_y == old(pose).global_y + global_dy_spec(
                forward as int,
                left as int,
                mid,
            )
            &&& final(pose).global_heading == heading_new
        }),
{
    proof {
        lemma_rdiv_abs_le((heading_new as i128 - pose.global_heading as i128) as int, 2);
    }
    let half_turn: i128 = rdiv_i128(
        heading_new as i128 - pose.global_heading as i128,
        2,
    );
    let mid: i64 = (pose.global_heading as i128 + half_turn) as i64;
    proof {
        assert(iabs(mid as int) <= 2 * ANGLE_MAG);
    }
    let c = cos_milli(mid);
    let s = sin_milli(mid);
    proof {
        lemma_mul_abs_bound(forward as int, c as int, STEP_LIMIT as int, SCALE as int);
        lemma_mul_abs_bound(left as int, s as int, STEP_LIMIT as int, SCALE as int);
        lemma_mul_abs_bound(forward as int, s as int, STEP_LIMIT as int, SCALE as int);
        lemma_mul_abs_bound(left as int, c as int, STEP_LIMIT as int, SCALE as int);
        lemma_rdiv_bound(
            (forward as i128 * c as i128 - left as i128 * s as i128) as int,
            SCALE as int,
            2 * STEP_LIMIT as int,
        );
        lemma_rdiv_bound(
            (forward as i128 * s as i128 + left as i128 * c as i128) as int,
            SCALE as int,
            2 * STEP_LIMIT as int,
        );
    }
    let dx: i128 = rdiv_i128(forward as i128 * c as i128 - left as i128 * s as i128, SCALE as i128);
    let dy: i128 = rdiv_i128(forward as i128 * s as i128 + left as i128 * c as i128, SCALE as i128);
    pose.global_x = (pose.global_x as i128 + dx) as i64;
    pose.global_y = (pose.global_y as i128 + dy) as i64;
    pose.global_heading = heading_new;
}

/// Odometry as a value: the running pose plus the tracker pair. One `step`
/// per tick folds the raw sensor deltas into the pose.
#[derive(Clone, Copy, PartialEq, Eq, Structural, Debug)]
pub struct OdomMovement {
    pub pose: OdomValues,
    pub trackers: Trackers,
}

impl OdomMovement {
    /// Starts odometry at a caller-chosen origin pose.
    pub fn new(pose: OdomValues, trackers: Trackers) -> (m: OdomMovement)
        requires
            pose_ok(pose),
            trackers_ok(trackers),
        ensures
            m == (OdomMovement { pose, trackers }),
    {
        OdomMovement { pose, trackers }
    }

    /// One odometry tick: converts the two trackers' rotation deltas
    /// (milli-radians) into arc-corrected local displacement and integrates
    /// it into the pose at the midpoint heading; the new heading is stored.
    pub fn step(&mut self, horiz_rot: i64, vert_rot: i64, heading_new: i64)
        requires
            trackers_ok(old(self).trackers),
            pose_ok(old(self).pose),
            iabs(old(self).pose.global_x as int) <= POSE_LIMIT - 2 * STEP_LIMIT,
            iabs(old(self).pose.global_y as int) <= POSE_LIMIT - 2 * STEP_LIMIT,
            iabs(horiz_rot as int) <= 100_000,
            iabs(vert_rot as int) <= 100_000,
            iabs(heading_new as int) <= ANGLE_MAG,
            iabs(corrected_spec(
                old(self).trackers.vertical,
                vert_rot as int,
                heading_new - old(self).pose.global_heading,
            )) <= STEP_LIMIT,
            iabs(corrected_spec(
                old(self).trackers.horizontal,
                horiz_rot as int,
                heading_new - old(self).pose.global_heading,
            )) <= STEP_LIMIT,
        ensures
            trackers_ok(final(self).trackers),
            final(self).trackers == old(self).trackers,
            pose_ok(final(self).pose),
            ({
                let dh = heading_new - old(self).pose.global_heading;
                let fwd = corrected_spec(old(self).trackers.vertical, vert_rot as int, dh);
                let lft = corrected_spec(old(self).trackers.horizontal, horiz_rot as int, dh);
                let mid = mid_heading_spec(old(self).pose.global_heading as int, heading_new as int);
                &&& final(self).pose.global_x == old(self).pose.global_x + global_dx_spec(
                    fwd,
                    lft,
                    mid,
                )
                &&& final(self).pose.global_y == old(self).pose.global_y + global_dy_spec(
                    fwd,
                    lft,
                    mid,
                )
                &&& final(self).pose.global_heading == heading_new
            }),
    {
        let dh: i64 = heading_new - self.pose.global_heading;
        let fwd = self.trackers.vertical.corrected(vert_rot, dh);
        let lft = self.trackers.horizontal.corrected(horiz_rot, dh);
        odom_update(&mut self.pose, fwd, lft, heading_new);
    }
}

} // verus!
