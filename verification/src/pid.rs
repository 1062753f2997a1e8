//! Closed-loop PID control engine for a differential drivetrain, with the
//! three mutually exclusive behavioral modes (straight-line drive, in-place
//! rotation, one-sided swing turn) and anti-windup on the integral term.
//!
//! The engine is the per-tick decision function of the control loop: it takes
//! the command state, the loop's integrator/previous-error variables, and the
//! two side positions read from the motor groups, and produces the per-side
//! voltages, the updated variables, and whether the command has settled. The
//! hardware loop around it (position reads, voltage writes, the fixed-period
//! wait) stays outside the library.
//!
//! Positions, targets and voltages are milli-units; gains are milli-units per
//! unit. The loop period is `DT_MILLI` milliseconds of a one-second unit, so
//! `error * dt` and `delta / dt` are fixed-point products and quotients.

use vstd::prelude::*;

use crate::num::{clamp_i128, clamp_s, iabs, rdiv, rdiv_i128, SCALE};
use crate::num::{lemma_mul_abs_bound, lemma_rdiv_abs_le, lemma_rdiv_nonneg};

verus! {

/// The control loop's fixed period, as milli-seconds of the one-second unit
/// (ten milliseconds).
pub const DT_MILLI: i64 = 10;

/// Largest magnitude accepted for targets, positions and the power cap.
pub const PID_MAG: i64 = 1_000_000_000;

/// Largest gain magnitude accepted.
pub const GAIN_LIMIT: i64 = 1_000_000_000;

/// Saturation bound of the raw integral accumulator. When `ki != 0` the
/// anti-windup clamp is far tighter; when `ki == 0` the integral contributes
/// nothing to the output, and saturation only keeps the accumulator finite
/// where the real-valued loop would let it grow without effect.
pub const I_SAT: i64 = 4_000_000_000_000_000_000;

/// One gain set: proportional, integral, derivative, and the tolerance band
/// under which a move counts as complete.
#[derive(Clone, Copy, PartialEq, Eq, Structural, Debug)]
pub struct PID {
    pub kp: i64,
    pub ki: i64,
    pub kd: i64,
    pub leeway: i64,
}

/// The three mutually exclusive behavioral modes of the engine.
#[derive(Clone, Copy, PartialEq, Eq, Structural, Debug)]
pub enum PIDType {
    /// Both sides receive the same signed output: straight-line drive.
    Linear,
    /// The sides receive opposite outputs: in-place rotation.
    Angular,
    /// Only one side is driven, chosen by the sign of the target: a pivot
    /// turn about one side's wheels.
    Swing,
}

/// The shared command state: one writer sets mode, target, power cap and
/// `active` to issue a command; the control loop reads it each tick and
/// clears `active` on arrival.
#[derive(Clone, Copy, PartialEq, Eq, Structural, Debug)]
pub struct PIDControl {
    pub linear_pid: PID,
    pub angular_pid: PID,
    pub state: PIDType,
    pub target: i64,
    pub maxpwr: i64,
    pub active: bool,
}

/// The control loop's local variables: per-side integral accumulators and
/// previous errors.
#[derive(Clone, Copy, PartialEq, Eq, Structural, Debug)]
pub struct PIDVars {
    pub ierror_left: i64,
    pub ierror_right: i64,
    pub perror_left: i64,
    pub perror_right: i64,
}

/// One tick's actuation: the per-side voltages to command and whether both
/// side errors fell inside the tolerance band.
#[derive(Clone, Copy, PartialEq, Eq, Structural, Debug)]
pub struct PIDOutput {
    pub u_left: i64,
    pub u_right: i64,
    pub settled: bool,
}

/// A gain set within the accepted magnitudes.
pub open spec fn pid_ok(g: PID) -> bool {
    &&& iabs(g.kp as int) <= GAIN_LIMIT
    &&& iabs(g.ki as int) <= GAIN_LIMIT
    &&& iabs(g.kd as int) <= GAIN_LIMIT
    &&& iabs(g.leeway as int) <= PID_MAG
}

/// A command state within the accepted magnitudes.
pub open spec fn control_ok(c: PIDControl) -> bool {
    &&& pid_ok(c.linear_pid)
    &&& pid_ok(c.angular_pid)
    &&& iabs(c.target as int) <= PID_MAG
    &&& iabs(c.maxpwr as int) <= PID_MAG
}

/// Loop variables within the bounds every tick preserves.
pub open spec fn vars_ok(v: PIDVars) -> bool {
    &&& iabs(v.ierror_left as int) <= I_SAT
    &&& iabs(v.ierror_right as int) <= I_SAT
    &&& iabs(v.perror_left as int) <= 2 * PID_MAG
    &&& iabs(v.perror_right as int) <= 2 * PID_MAG
}

/// The gain set the current mode selects: the linear set for `Linear`, the
/// angular set for `Angular` and `Swing`.
pub open spec fn gains_of(c: PIDControl) -> PID {
    if c.state is Linear {
        c.linear_pid
    } else {
        c.angular_pid
    }
}

/// `val` capped to `[-cap, cap]`.
pub open spec fn abscap_s(val: int, cap: int) -> int {
    if val > cap {
        cap
    } else if val < -cap {
        -cap
    } else {
        val
    }
}

/// Caps a value's magnitude at `cap`.
pub fn abscap(val: i64, cap: i64) -> (r: i64)
    requires
        cap != i64::MIN,
    ensures
        r == abscap_s(val as int, cap as int),
{
    let result: i64;
    if val > cap {
        result = cap;
    } else if val < -cap {
        result = -cap;
    } else {
        result = val;
    }
    result
}

/// The anti-windup clamp bound: `|maxpwr| / |ki|` as a fixed-point quotient.
pub open spec fn imax(maxpwr: int, ki: int) -> int {
    rdiv(iabs(maxpwr) * SCALE, iabs(ki))
}

/// The integral accumulator after one tick: the error, scaled by the tick
/// period, is added; with `ki != 0` the sum is clamped to the anti-windup
/// bound, otherwise it saturates at `I_SAT`.
pub open spec fn integ_next(ierror: int, e: int, ki: int, maxpwr: int) -> int {
    let raw = ierror + rdiv(e * DT_MILLI, SCALE as int);
    if ki != 0 {
        clamp_s(raw, -imax(maxpwr, ki), imax(maxpwr, ki))
    } else {
        clamp_s(raw, -(I_SAT as int), I_SAT as int)
    }
}

/// One side's raw PID output: `kp * e + ki * i + kd * de/dt`, each product a
/// fixed-point multiplication, the derivative the fixed-point quotient of the
/// error change by the tick period.
pub open spec fn side_u(g: PID, e: int, i: int, pe: int) -> int {
    rdiv(g.kp * e, SCALE as int) + rdiv(g.ki * i, SCALE as int) + rdiv(
        g.kd * rdiv((e - pe) * SCALE, DT_MILLI as int),
        SCALE as int,
    )
}

/// Whether both side errors lie strictly inside the mode's tolerance band.
pub open spec fn in_band(c: PIDControl, el: int, er: int) -> bool {
    let lw = if c.state is Linear {
        c.linear_pid.leeway
    } else {
        c.angular_pid.leeway
    };
    iabs(el) < lw && iabs(er) < lw
}

/// The complete per-tick function of the engine, as a mathematical value:
/// given the command, the loop variables and the two side positions, yields
/// `(ierror_left', ierror_right', u_left, u_right, settled)`. On settling the
/// outputs are zeroed and both accumulators reset.
pub open spec fn pid_tick_spec(c: PIDControl, v: PIDVars, curr_left: int, curr_right: int) -> (
    int,
    int,
    int,
    int,
    bool,
) {
    let el = c.target - curr_left;
    let er = c.target - curr_right;
    let g = gains_of(c);
    let cap = iabs(c.maxpwr as int);
    let il = integ_next(v.ierror_left as int, el, g.ki as int, c.maxpwr as int);
    let ir = integ_next(v.ierror_right as int, er, g.ki as int, c.maxpwr as int);
    let ul_raw = side_u(g, el, il, v.perror_left as int);
    let ur_raw = side_u(g, er, ir, v.perror_right as int);
    let ul = match c.state {
        PIDType::Linear => abscap_s(ul_raw, cap),
        PIDType::Angular => abscap_s(ul_raw, cap),
        PIDType::Swing => if c.target >= 0 {
            abscap_s(ul_raw, cap)
        } else {
            0
        },
    };
    let ur = match c.state {
        PIDType::Linear => abscap_s(ur_raw, cap),
        PIDType::Angular => -abscap_s(ur_raw, cap),
        PIDType::Swing => if c.target >= 0 {
            0
        } else {
            abscap_s(ur_raw, cap)
        },
    };
    if in_band(c, el, er) {
        (0, 0, 0, 0, true)
    } else {
        (il, ir, ul, ur, false)
    }
}

/// One step of the integral accumulator.
pub(crate) fn integ_step(ierror: i64, e: i64, ki: i64, maxpwr: i64) -> (r: i64)
    requires
        iabs(ierror as int) <= I_SAT,
        iabs(e as int) <= 2 * PID_MAG,
        iabs(ki as int) <= GAIN_LIMIT,
        iabs(maxpwr as int) <= PID_MAG,
    ensures
        r == integ_next(ierror as int, e as int, ki as int, maxpwr as int),
        iabs(r as int) <= I_SAT,
        ki != 0 ==> iabs(r as int) <= imax(maxpwr as int, ki as int),
{
    proof {
        lemma_rdiv_abs_le((e * DT_MILLI) as int, SCALE as int);
    }
    let step: i128 = rdiv_i128(e as i128 * DT_MILLI as i128, SCALE as i128);
    let raw: i128 = ierror as i128 + step;
    if ki != 0 {
        let aki: i64 = if ki < 0 {
            -ki
        } else {
            ki
        };
        let amp: i64 = if maxpwr < 0 {
            -maxpwr
        } else {
            maxpwr
        };
        proof {
            lemma_rdiv_nonneg((amp as i128 * SCALE as i128) as int, aki as int);
        }
        let im: i128 = rdiv_i128(amp as i128 * SCALE as i128, aki as i128);
        clamp_i128(raw, -im, im) as i64
    } else {
        clamp_i128(raw, -(I_SAT as i128), I_SAT as i128) as i64
    }
}

/// One side's raw PID output, before mode wiring and capping.
pub(crate) fn side_u_exec(g: &PID, e: i64, i: i64, pe: i64) -> (u: i128)
    requires
        pid_ok(*g),
        iabs(e as int) <= 2 * PID_MAG,
        iabs(i as int) <= I_SAT,
        iabs(pe as int) <= 2 * PID_MAG,
    ensures
        u == side_u(*g, e as int, i as int, pe as int),
{
    proof {
        lemma_mul_abs_bound(g.kp as int, e as int, GAIN_LIMIT as int, 2 * PID_MAG as int);
        lemma_mul_abs_bound(g.ki as int, i as int, GAIN_LIMIT as int, I_SAT as int);
        lemma_rdiv_abs_le((g.kp as i128 * e as i128) as int, SCALE as int);
        lemma_rdiv_abs_le((g.ki as i128 * i as i128) as int, SCALE as int);
    }
    let p_term: i128 = rdiv_i128(g.kp as i128 * e as i128, SCALE as i128);
    let i_term: i128 = rdiv_i128(g.ki as i128 * i as i128, SCALE as i128);
    proof {
        lemma_rdiv_abs_le(((e - pe) as i128 * SCALE as i128) as int, DT_MILLI as int);
    }
    let de: i128 = rdiv_i128((e as i128 - pe as i128) * SCALE as i128, DT_MILLI as i128);
    proof {
        lemma_mul_abs_bound(g.kd as int, de as int, GAIN_LIMIT as int, 4_000_000_000_000int);
        lemma_rdiv_abs_le((g.kd as i128 * de) as int, SCALE as int);
    }
    let d_term: i128 = rdiv_i128(g.kd as i128 * de, SCALE as i128);
    p_term + i_term + d_term
}

/// One tick of the control loop's decision: from the command state, the loop
/// variables and the two side positions (each the group-average motor angle)
/// to the per-side voltages. The voltages never exceed the power cap in
/// magnitude; with `ki != 0` the stored integral stays inside the anti-windup
/// bound; and once both side errors fall inside the tolerance band the
/// outputs are zeroed, both accumulators reset, and the command reports
/// settled.
pub fn pid_tick(ctrl: &PIDControl, vars: &mut PIDVars, curr_left: i64, curr_right: i64) -> (out:
    PIDOutput)
    requires
        control_ok(*ctrl),
        vars_ok(*old(vars)),
        iabs(curr_left as int) <= PID_MAG,
        iabs(curr_right as int) <= PID_MAG,
    ensures
        vars_ok(*final(vars)),
        ({
            let (il, ir, ul, ur, settled) = pid_tick_spec(
                *ctrl,
                *old(vars),
                curr_left as int,
                curr_right as int,
            );
            &&& final(vars).ierror_left == il
            &&& final(vars).ierror_right == ir
            &&& out.u_left == ul
            &&& out.u_right == ur
            &&& out.settled == settled
        }),
        final(vars).perror_left == ctrl.target - curr_left,
        final(vars).perror_right == ctrl.target - curr_right,
        iabs(out.u_left as int) <= iabs(ctrl.maxpwr as int),
        iabs(out.u_right as int) <= iabs(ctrl.maxpwr as int),
        gains_of(*ctrl).ki != 0 ==> iabs(final(vars).ierror_left as int) <= imax(
            ctrl.maxpwr as int,
            gains_of(*ctrl).ki as int,
        ) && iabs(final(vars).ierror_right as int) <= imax(
            ctrl.maxpwr as int,
            gains_of(*ctrl).ki as int,
        ),
        in_band(*ctrl, ctrl.target - curr_left, ctrl.target - curr_right) ==> out.u_left == 0
            && out.u_right == 0 && out.settled && final(vars).ierror_left == 0
            && final(vars).ierror_right == 0,
{
    let el: i64 = ctrl.target - curr_left;
    let er: i64 = ctrl.target - curr_right;
    let gains: PID = match ctrl.state {
        PIDType::Linear => ctrl.linear_pid,
        PIDType::Angular => ctrl.angular_pid,
        PIDType::Swing => ctrl.angular_pid,
    };
    let cap: i64 = if ctrl.maxpwr < 0 {
        -ctrl.maxpwr
    } else {
        ctrl.maxpwr
    };
    let il = integ_step(vars.ierror_left, el, gains.ki, ctrl.maxpwr);
    let ir = integ_step(vars.ierror_right, er, gains.ki, ctrl.maxpwr);
    let ul_raw = side_u_exec(&gains, el, il, vars.perror_left);
    let ur_raw = side_u_exec(&gains, er, ir, vars.perror_right);
    let ul_cap: i64 = abscap_wide(ul_raw, cap);
    let ur_cap: i64 = abscap_wide(ur_raw, cap);
    let u_left: i64;
    let u_right: i64;
    match ctrl.state {
        PIDType::Linear => {
            u_left = ul_cap;
            u_right = ur_cap;
        },
        PIDType::Angular => {
            u_left = ul_cap;
            u_right = -ur_cap;
        },
        PIDType::Swing => {
            if ctrl.target >= 0 {
                u_left = ul_cap;
                u_right = 0;
            } else {
                u_left = 0;
                u_right = ur_cap;
            }
        },
    }
    let lw: i64 = match ctrl.state {
        PIDType::Linear => ctrl.linear_pid.leeway,
        PIDType::Angular => ctrl.angular_pid.leeway,
        PIDType::Swing => ctrl.angular_pid.leeway,
    };
    let ael: i64 = if el < 0 {
        -el
    } else {
        el
    };
    let aer: i64 = if er < 0 {
        -er
    } else {
        er
    };
    let settled: bool = ael < lw && aer < lw;
    if settled {
        vars.ierror_left = 0;
        vars.ierror_right = 0;
        vars.perror_left = el;
        vars.perror_right = er;
        PIDOutput { u_left: 0, u_right: 0, settled: true }
    } else {
        vars.ierror_left = il;
        vars.ierror_right = ir;
        vars.perror_left = el;
        vars.perror_right = er;
        PIDOutput { u_left, u_right, settled: false }
    }
}

/// Mode sign convention: with identical error, integral and previous-error
/// state on both sides, `Linear` commands equal signed voltage to both sides,
/// `Angular` commands equal-magnitude opposite-signed voltage, and `Swing`
/// holds exactly the side chosen by the sign of the target at zero.
pub proof fn lemma_mode_sign_convention(c: PIDControl, v: PIDVars, curr: int)
    requires
        control_ok(c),
        vars_ok(v),
        v.ierror_left == v.ierror_right,
        v.perror_left == v.perror_right,
        iabs(curr) <= PID_MAG,
    ensures
        ({
            let (il, ir, ul, ur, settled) = pid_tick_spec(c, v, curr, curr);
            &&& c.state is Linear ==> ul == ur
            &&& c.state is Angular ==> ul == -ur
            &&& c.state is Swing ==> (if c.target >= 0 {
                ur == 0
            } else {
                ul == 0
            })
        }),
{
}

impl PID {
    pub fn new(kp: i64, ki: i64, kd: i64, leeway: i64) -> (g: PID)
        ensures
            g == (PID { kp, ki, kd, leeway }),
    {
        PID { kp, ki, kd, leeway }
    }
}

impl PIDVars {
    /// Fresh loop variables: both accumulators and previous errors at zero.
    pub fn new() -> (v: PIDVars)
        ensures
            v == (PIDVars { ierror_left: 0, ierror_right: 0, perror_left: 0, perror_right: 0 }),
            vars_ok(v),
    {
        PIDVars { ierror_left: 0, ierror_right: 0, perror_left: 0, perror_right: 0 }
    }
}

impl PIDControl {
    /// A fresh command state: no target, no power, inactive, linear mode.
    pub fn new(linear_pid: PID, angular_pid: PID) -> (c: PIDControl)
        requires
            pid_ok(linear_pid),
            pid_ok(angular_pid),
        ensures
            c == (PIDControl {
                linear_pid,
                angular_pid,
                state: PIDType::Linear,
                target: 0,
                maxpwr: 0,
                active: false,
            }),
            control_ok(c),
    {
        PIDControl {
            linear_pid,
            angular_pid,
            state: PIDType::Linear,
            target: 0,
            maxpwr: 0,
            active: false,
        }
    }

    /// Issues a command: sets the mode, target and power cap and marks the
    /// command active; the gain sets are untouched. Takes effect on the
    /// control loop's next tick.
    pub fn set_command(&mut self, state: PIDType, target: i64, maxpwr: i64)
        requires
            control_ok(*old(self)),
            iabs(target as int) <= PID_MAG,
            iabs(maxpwr as int) <= PID_MAG,
        ensures
            final(self).linear_pid == old(self).linear_pid,
            final(self).angular_pid == old(self).angular_pid,
            final(self).state == state,
            final(self).target == target,
            final(self).maxpwr == maxpwr,
            final(self).active,
            control_ok(*final(self)),
    {
        self.state = state;
        self.target = target;
        self.maxpwr = maxpwr;
        self.active = true;
    }

    /// Marks the command active or inactive, leaving everything else as it
    /// stands.
    pub fn set_active(&mut self, active: bool)
        ensures
            *final(self) == (PIDControl { active, ..*old(self) }),
    {
        self.active = active;
    }

    /// Whether a command is still in flight; cleared by the loop on arrival.
    pub fn is_active(&self) -> (r: bool)
        ensures
            r == self.active,
    {
        self.active
    }
}

/// Caps a wide intermediate value's magnitude at `cap`.
pub(crate) fn abscap_wide(val: i128, cap: i64) -> (r: i64)
    requires
        0 <= cap,
    ensures
        r == abscap_s(val as int, cap as int),
        iabs(r as int) <= cap,
{
    if val > cap as i128 {
        cap
    } else if val < -(cap as i128) {
        -cap
    } else {
        val as i64
    }
}

} // verus!
