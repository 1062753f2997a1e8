//! Static per-robot drivetrain geometry, used to convert motor rotation to
//! linear distance. Never mutated after construction.

use vstd::prelude::*;

use crate::num::{iabs, lemma_mul_abs_bound, lemma_rdiv_abs_le, rdiv, rdiv_i128};

verus! {

/// Physical configuration of the drivetrain: wheel diameter and track width
/// in milli-units, gear tooth counts for the driving (motor-side) and driven
/// (wheel-side) gears.
#[derive(Clone, Copy, PartialEq, Eq, Structural, Debug)]
pub struct DrivetrainConfig {
    /// The drive wheel diameter, milli-units.
    pub wheel_diameter: i64,
    /// Teeth on the driving (motor-side) gear.
    pub driving_gear: i64,
    /// Teeth on the driven (wheel-side) gear.
    pub driven_gear: i64,
    /// Distance between the left and right wheels, milli-units.
    pub track_width: i64,
}

/// A drivetrain configuration with positive, bounded geometry.
pub open spec fn config_ok(c: DrivetrainConfig) -> bool {
    &&& 0 < c.wheel_diameter <= 1_000_000
    &&& 0 < c.driving_gear <= 1_000_000
    &&& 0 < c.driven_gear <= 1_000_000
    &&& 0 < c.track_width <= 10_000_000
}

/// Linear wheel travel for a motor rotation of `rot` milli-radians: the
/// rotation is geared down by `driving / driven`, then scaled by the wheel
/// radius.
pub open spec fn wheel_travel_spec(c: DrivetrainConfig, rot: int) -> int {
    let geared = rdiv(rot * c.driving_gear, c.driven_gear as int);
    rdiv(geared * c.wheel_diameter, 2000)
}

impl DrivetrainConfig {
    pub fn new(wheel_diameter: i64, driving_gear: i64, driven_gear: i64, track_width: i64) -> (c:
        DrivetrainConfig)
        ensures
            c == (DrivetrainConfig { wheel_diameter, driving_gear, driven_gear, track_width }),
    {
        DrivetrainConfig { wheel_diameter, driving_gear, driven_gear, track_width }
    }

    /// Linear distance the drive wheels travel for a motor rotation of
    /// `rot` milli-radians.
    pub fn wheel_travel(&self, rot: i64) -> (d: i64)
        requires
            config_ok(*self),
            iabs(rot as int) <= 1_000_000_000,
        ensures
            d == wheel_travel_spec(*self, rot as int),
    {
        proof {
            lemma_mul_abs_bound(
                rot as int,
                self.driving_gear as int,
                1_000_000_000int,
                1_000_000int,
            );
            lemma_rdiv_abs_le((rot as i128 * self.driving_gear as i128) as int, self.driven_gear as int);
        }
        let geared: i128 = rdiv_i128(rot as i128 * self.driving_gear as i128, self.driven_gear as i128);
        proof {
            lemma_mul_abs_bound(
                geared as int,
                self.wheel_diameter as int,
                1_000_000_000_000_000int,
                1_000_000int,
            );
            crate::num::lemma_rdiv_bound(
                (geared * self.wheel_diameter as i128) as int,
                2000,
                500_000_000_000_000_000int,
            );
        }
        let d: i128 = rdiv_i128(geared * self.wheel_diameter as i128, 2000);
        d as i64
    }
}

} // verus!
