//! The pursuit orchestrator's per-tick decision: from the current pose and
//! the path to the next aim point, the steering error handed to the arc
//! controller, and whether the path is exhausted. The loop around it — the
//! timer wait, the odometry reads, the actuation — stays outside the
//! library; an unresolved target (see `pursuit::pp_target_resolved`) is
//! reported so the caller can hold its previous target rather than steer
//! toward the origin.

use vstd::prelude::*;

use crate::geo::{Circle, Path, Point};
use crate::num::{iabs, lemma_mul_abs_bound, lemma_rdiv_bound, rdiv, SCALE};
use crate::odom::{cos_spec, pose_ok, sin_spec, OdomValues};
use crate::pursuit::{
    any_resolves, candidates_spec, circle_ok, coord_ok, dsq, path_ok, pp_target_resolved,
    pp_target_spec, pt_ok, pt_view, COORD_LIMIT,
};

verus! {

/// Static tuning of one pursuit run: the lookahead circle's radius and the
/// arrival tolerance, both milli-units.
#[derive(Clone, Copy, PartialEq, Eq, Structural, Debug)]
pub struct PursuitConfig {
    pub lookahead: i64,
    pub tolerance: i64,
}

/// A pursuit configuration within the accepted magnitudes.
pub open spec fn pursuit_config_ok(c: PursuitConfig) -> bool {
    &&& 0 <= c.lookahead <= COORD_LIMIT
    &&& 0 <= c.tolerance <= COORD_LIMIT
}

/// One orchestrator tick's decision: the aim point, the steering error for
/// the arc controller, whether the aim point resolved at all, and whether
/// the path is exhausted.
#[derive(Clone, Copy, PartialEq, Eq, Structural, Debug)]
pub struct PursuitStep {
    pub target: Point,
    pub steer_error: i64,
    pub resolved: bool,
    pub done: bool,
}

/// The lookahead circle of a pose: centered on the robot, with the
/// configured radius.
pub open spec fn lookahead_circle(pose: OdomValues, lookahead: i64) -> Circle {
    Circle { x: pose.global_x, y: pose.global_y, r: lookahead }
}

/// The steering error handed to the arc controller: the aim point's lateral
/// (leftward) offset in the robot's frame, from the fixed-point rotation of
/// the pose-relative aim point by the heading.
pub open spec fn steer_error_spec(target: (int, int), pose: OdomValues) -> int {
    let rx = target.0 - pose.global_x;
    let ry = target.1 - pose.global_y;
    rdiv(
        ry * cos_spec(pose.global_heading as int) - rx * sin_spec(pose.global_heading as int),
        SCALE as int,
    )
}

/// Whether the run is over: the aim point has come within tolerance of the
/// path's final waypoint and so has the robot itself.
pub open spec fn pursuit_done_spec(
    ws: Seq<Point>,
    target: (int, int),
    pose: OdomValues,
    tolerance: int,
) -> bool {
    let last = pt_view(ws[ws.len() - 1]);
    &&& dsq(target, last) <= tolerance * tolerance
    &&& dsq((pose.global_x as int, pose.global_y as int), last) <= tolerance * tolerance
}

/// One tick of the pursuit orchestrator: selects the aim point inside the
/// lookahead circle and converts it to a steering error. When no candidate's
/// path progress resolves, `resolved` is false, the target and steering
/// error are zero, and the caller holds its previous target; a degenerate
/// path (fewer than two waypoints) then counts as exhausted.
pub fn pursuit_step(path: &Path, pose: &OdomValues, cfg: &PursuitConfig) -> (step: PursuitStep)
    requires
        path_ok(path.waypoints@),
        pose_ok(*pose),
        pursuit_config_ok(*cfg),
    ensures
        ({
            let c = lookahead_circle(*pose, cfg.lookahead);
            &&& step.resolved == any_resolves(
                candidates_spec(path.waypoints@, c),
                path.waypoints@,
            )
            &&& step.resolved ==> {
                &&& pt_view(step.target) == pp_target_spec(path.waypoints@, c)
                &&& pt_ok(step.target)
                &&& step.steer_error == steer_error_spec(pt_view(step.target), *pose)
                &&& step.done == (path.waypoints@.len() >= 1 && pursuit_done_spec(
                    path.waypoints@,
                    pt_view(step.target),
                    *pose,
                    cfg.tolerance as int,
                ))
            }
            &&& !step.resolved ==> {
                &&& step.target == (Point { x: 0, y: 0 })
                &&& step.steer_error == 0
                &&& step.done == (path.waypoints@.len() < 2)
            }
        }),
        iabs(step.steer_error as int) <= 41_000_000,
{
    let cir = Circle { x: pose.global_x, y: pose.global_y, r: cfg.lookahead };
    let got = pp_target_resolved(path, cir);
    match got {
        None => {
            let done = path.waypoints.len() < 2;
            PursuitStep { target: Point { x: 0, y: 0 }, steer_error: 0, resolved: false, done }
        },
        Some(target) => {
            let rx: i64 = target.x - pose.global_x;
            let ry: i64 = target.y - pose.global_y;
            let c = crate::odom::cos_milli(pose.global_heading);
            let s = crate::odom::sin_milli(pose.global_heading);
            proof {
                lemma_mul_abs_bound(ry as int, c as int, 2 * COORD_LIMIT as int, 1000);
                lemma_mul_abs_bound(rx as int, s as int, 2 * COORD_LIMIT as int, 1000);
                lemma_rdiv_bound(
                    (ry as i128 * c as i128 - rx as i128 * s as i128) as int,
                    SCALE as int,
                    41_000_000int,
                );
            }
            let steer: i128 = crate::num::rdiv_i128(
                ry as i128 * c as i128 - rx as i128 * s as i128,
                SCALE as i128,
            );
            let steer_error: i64 = steer as i64;
            let done: bool;
            if path.waypoints.len() >= 1 {
                let last = path.waypoints[path.waypoints.len() - 1];
                let d_target = crate::pursuit::dist_sq(target, last);
                let d_pose = crate::pursuit::dist_sq(
                    Point { x: pose.global_x, y: pose.global_y },
                    last,
                );
                proof {
                    lemma_mul_abs_bound(
                        cfg.tolerance as int,
                        cfg.tolerance as int,
                        COORD_LIMIT as int,
                        COORD_LIMIT as int,
                    );
                }
                let tol_sq: i128 = cfg.tolerance as i128 * cfg.tolerance as i128;
                done = d_target as i128 <= tol_sq && d_pose as i128 <= tol_sq;
            } else {
                done = false;
            }
            PursuitStep { target, steer_error, resolved: true, done }
        },
    }
}

} // verus!
