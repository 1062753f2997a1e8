//! Arc controller for curved motion: holds a near-constant base forward
//! speed while a single PID gain set corrects the steering error, producing
//! asymmetric left/right output instead of the discrete engine's three
//! modes. A steady `offset` is folded additively into each side to correct
//! systematic drift, and `active` gates whether any output is driven at all.
//! This controller is the actuation layer beneath the pursuit orchestrator:
//! it keeps the vehicle moving between aim points rather than stopping to
//! settle.

use vstd::prelude::*;

use crate::num::iabs;
use crate::pid::{
    abscap_wide, gains_of, imax, integ_next, integ_step, pid_ok, side_u, side_u_exec,
    GAIN_LIMIT, I_SAT, PID, PID_MAG,
};

verus! {

/// The arc controller's shared state: gains, the settle tolerance, the power
/// cap, the current steering-error target, the steady per-side offset, and
/// the activity gate.
#[derive(Clone, Copy, PartialEq, Eq, Structural, Debug)]
pub struct ArcPID {
    pub kp: i64,
    pub ki: i64,
    pub kd: i64,
    pub tolerance: i64,
    pub maxpwr: i64,
    pub target: i64,
    pub offset: i64,
    pub active: bool,
}

/// The arc control loop's local variables: steering integral accumulator and
/// previous steering error.
#[derive(Clone, Copy, PartialEq, Eq, Structural, Debug)]
pub struct ArcVars {
    pub ierror: i64,
    pub perror: i64,
}

/// One arc tick's actuation: per-side voltages and whether the steering
/// error currently lies inside the tolerance band.
#[derive(Clone, Copy, PartialEq, Eq, Structural, Debug)]
pub struct ArcOutput {
    pub u_left: i64,
    pub u_right: i64,
    pub settled: bool,
}

/// Arc-controller state within the accepted magnitudes.
pub open spec fn arc_ok(c: ArcPID) -> bool {
    &&& iabs(c.kp as int) <= GAIN_LIMIT
    &&& iabs(c.ki as int) <= GAIN_LIMIT
    &&& iabs(c.kd as int) <= GAIN_LIMIT
    &&& iabs(c.tolerance as int) <= PID_MAG
    &&& iabs(c.maxpwr as int) <= PID_MAG
    &&& iabs(c.target as int) <= PID_MAG
    &&& iabs(c.offset as int) <= PID_MAG
}

/// Arc loop variables within the bounds every tick preserves.
pub open spec fn arc_vars_ok(v: ArcVars) -> bool {
    &&& iabs(v.ierror as int) <= I_SAT
    &&& iabs(v.perror as int) <= 2 * PID_MAG
}

/// The gain set the arc controller runs, as one PID record.
pub open spec fn arc_gains(c: ArcPID) -> PID {
    PID { kp: c.kp, ki: c.ki, kd: c.kd, leeway: c.tolerance }
}

/// The complete per-tick function of the arc controller, as a mathematical
/// value: `(ierror', perror', u_left, u_right, settled)`. The steering
/// correction `u` is capped, then each side is `base + offset` plus or minus
/// `u`, capped again; an inactive controller drives nothing and leaves its
/// variables untouched.
pub open spec fn arc_tick_spec(c: ArcPID, v: ArcVars, current: int, base: int) -> (
    int,
    int,
    int,
    int,
    bool,
) {
    let e = c.target - current;
    let settled = iabs(e) < c.tolerance;
    if !c.active {
        (v.ierror as int, v.perror as int, 0, 0, settled)
    } else {
        let cap = iabs(c.maxpwr as int);
        let i = integ_next(v.ierror as int, e, c.ki as int, c.maxpwr as int);
        let u = crate::pid::abscap_s(side_u(arc_gains(c), e, i, v.perror as int), cap);
        let ul = crate::pid::abscap_s(base + u + c.offset, cap);
        let ur = crate::pid::abscap_s(base - u + c.offset, cap);
        (i, e, ul, ur, settled)
    }
}

/// One tick of the arc controller: from the shared state, the loop variables
/// and the measured steering value to per-side voltages. Output magnitudes
/// never exceed the power cap; with `ki != 0` the stored integral stays
/// inside the anti-windup bound; an inactive controller drives zero.
pub fn arc_tick(ctrl: &ArcPID, vars: &mut ArcVars, current: i64, base: i64) -> (out: ArcOutput)
    requires
        arc_ok(*ctrl),
        arc_vars_ok(*old(vars)),
        iabs(current as int) <= PID_MAG,
        iabs(base as int) <= PID_MAG,
    ensures
        arc_vars_ok(*final(vars)),
        ({
            let (i, pe, ul, ur, settled) = arc_tick_spec(
                *ctrl,
                *old(vars),
                current as int,
                base as int,
            );
            &&& final(vars).ierror == i
            &&& final(vars).perror == pe
            &&& out.u_left == ul
            &&& out.u_right == ur
            &&& out.settled == settled
        }),
        iabs(out.u_left as int) <= iabs(ctrl.maxpwr as int),
        iabs(out.u_right as int) <= iabs(ctrl.maxpwr as int),
        ctrl.active && ctrl.ki != 0 ==> iabs(final(vars).ierror as int) <= imax(
            ctrl.maxpwr as int,
            ctrl.ki as int,
        ),
        !ctrl.active ==> out.u_left == 0 && out.u_right == 0 && *final(vars) == *old(vars),
        out.settled == (iabs(ctrl.target - current) < ctrl.tolerance),
{
    let e: i64 = ctrl.target - current;
    let ae: i64 = if e < 0 {
        -e
    } else {
        e
    };
    let settled: bool = ae < ctrl.tolerance;
    if !ctrl.active {
        return ArcOutput { u_left: 0, u_right: 0, settled };
    }
    let cap: i64 = if ctrl.maxpwr < 0 {
        -ctrl.maxpwr
    } else {
        ctrl.maxpwr
    };
    let gains = PID { kp: ctrl.kp, ki: ctrl.ki, kd: ctrl.kd, leeway: ctrl.tolerance };
    let i = integ_step(vars.ierror, e, ctrl.ki, ctrl.maxpwr);
    let u_raw = side_u_exec(&gains, e, i, vars.perror);
    let u: i64 = abscap_wide(u_raw, cap);
    let ul: i64 = abscap_wide(base as i128 + u as i128 + ctrl.offset as i128, cap);
    let ur: i64 = abscap_wide(base as i128 - u as i128 + ctrl.offset as i128, cap);
    vars.ierror = i;
    vars.perror = e;
    ArcOutput { u_left: ul, u_right: ur, settled }
}

impl ArcVars {
    /// Fresh arc loop variables: accumulator and previous error at zero.
    pub fn new() -> (v: ArcVars)
        ensures
            v == (ArcVars { ierror: 0, perror: 0 }),
            arc_vars_ok(v),
    {
        ArcVars { ierror: 0, perror: 0 }
    }
}

impl ArcPID {
    /// A fresh arc controller: gains and tolerance set, no target, no
    /// offset, inactive.
    pub fn new(kp: i64, ki: i64, kd: i64, tolerance: i64, maxpwr: i64) -> (c: ArcPID)
        requires
            iabs(kp as int) <= GAIN_LIMIT,
            iabs(ki as int) <= GAIN_LIMIT,
            iabs(kd as int) <= GAIN_LIMIT,
            iabs(tolerance as int) <= PID_MAG,
            iabs(maxpwr as int) <= PID_MAG,
        ensures
            c == (ArcPID { kp, ki, kd, tolerance, maxpwr, target: 0, offset: 0, active: false }),
            arc_ok(c),
    {
        ArcPID { kp, ki, kd, tolerance, maxpwr, target: 0, offset: 0, active: false }
    }

    /// Sets the steering-error target the next ticks will correct toward.
    pub fn set_target(&mut self, target: i64)
        requires
            arc_ok(*old(self)),
            iabs(target as int) <= PID_MAG,
        ensures
            *final(self) == (ArcPID { target, ..*old(self) }),
            arc_ok(*final(self)),
    {
        self.target = target;
    }

    /// Sets the steady per-side offset that corrects systematic drift.
    pub fn set_offset(&mut self, offset: i64)
        requires
            arc_ok(*old(self)),
            iabs(offset as int) <= PID_MAG,
        ensures
            *final(self) == (ArcPID { offset, ..*old(self) }),
            arc_ok(*final(self)),
    {
        self.offset = offset;
    }

    /// Gates whether the controller drives any output.
    pub fn set_active(&mut self, active: bool)
        ensures
            *final(self) == (ArcPID { active, ..*old(self) }),
    {
        self.active = active;
    }

    /// Whether the controller is currently driving output.
    pub fn is_active(&self) -> (r: bool)
        ensures
            r == self.active,
    {
        self.active
    }
}

} // verus!
