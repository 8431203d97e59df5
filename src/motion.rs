//! Tuning values and the asymmetric velocity-smoothing integrator.
//!
//! One tick blends the current velocity toward the target velocity with a
//! semi-implicit step:
//! `new = (current + s * target) / (1 + alpha * s)` where `s = dt / t_acc`.
//! `alpha` is `1.0` while accelerating, `alpha_stop` when the target is zero and
//! `alpha_rev` when the target points against the current velocity.

use vstd::prelude::*;
use crate::arith::{DIV_LIMIT, div_toward, round_toward, lemma_floor_between, lemma_ceil_between};

verus! {

/// A damping multiplier of `1.0`: multipliers are given in thousandths.
pub const ALPHA_ONE: u32 = 1000;

/// Microseconds in a second: durations are given in microseconds.
pub const MICROS_PER_SECOND: i64 = 1_000_000;

/// Largest accepted top speed, in length units per second.
pub const MAX_SPEED_LIMIT: i64 = 1_000_000_000;

/// Largest accepted acceleration time constant, in microseconds.
pub const T_ACC_LIMIT: i64 = 100_000_000;

/// Largest accepted damping multiplier, in thousandths.
pub const ALPHA_LIMIT: u32 = 1_000_000;

/// Largest accepted gravity strength.
pub const GRAVITY_STRENGTH_LIMIT: u32 = 1000;

/// Gravity strength used by the constructors.
pub const DEFAULT_GRAVITY_STRENGTH: u32 = 20;

/// Longest accepted tick, in microseconds.
pub const DT_LIMIT: i64 = 1_000_000;

/// Largest magnitude of a target velocity.
pub const TARGET_LIMIT: i64 = 100_000_000_000;

/// Largest magnitude of a velocity: a tick never leaves this range.
pub const VELOCITY_LIMIT: i64 = 100_000_000_000_000_000;

/// Which controller the sandbox runs.
#[derive(Clone, Copy, Debug, PartialEq, Eq, Structural)]
pub enum PlayMode {
    TopDown,
    SideScroll,
}

impl PlayMode {
    pub open spec fn label_spec(self) -> Seq<char> {
        match self {
            PlayMode::TopDown => "Top Down"@,
            PlayMode::SideScroll => "Side Scroll"@,
        }
    }

    /// The human-readable name of the mode.
    pub fn label(&self) -> (s: String)
        ensures
            s@ == self.label_spec(),
    {
        match self {
            PlayMode::TopDown => String::from_str("Top Down"),
            PlayMode::SideScroll => String::from_str("Side Scroll"),
        }
    }
}

/// Why a set of tuning values was refused.
#[derive(Clone, Copy, Debug, PartialEq, Eq, Structural)]
pub enum ParamError {
    /// The top speed is zero or negative.
    NonPositiveMaxSpeed,
    /// The acceleration time constant is zero or negative.
    NonPositiveTimeConstant,
    /// A value lies beyond the range this library computes in.
    OutOfRange,
}

/// Per-run tuning of the integrator. Speeds are in length units per second,
/// `t_acc` in microseconds, multipliers in thousandths.
#[derive(Clone, Copy, Debug, PartialEq, Eq, Structural)]
pub struct MotionParameters {
    pub max_speed: i64,
    pub alpha_rev: u32,
    pub alpha_stop: u32,
    pub alpha_turn: u32,
    pub t_acc: i64,
    pub gravity_strength: u32,
}

/// The error, if any, for a set of tuning values.
pub open spec fn param_check(
    max_speed: int,
    t_acc: int,
    alpha_stop: int,
    alpha_rev: int,
    alpha_turn: int,
) -> Option<ParamError> {
    if max_speed <= 0 {
        Some(ParamError::NonPositiveMaxSpeed)
    } else if t_acc <= 0 {
        Some(ParamError::NonPositiveTimeConstant)
    } else if max_speed > MAX_SPEED_LIMIT || t_acc > T_ACC_LIMIT || alpha_stop > ALPHA_LIMIT
        || alpha_rev > ALPHA_LIMIT || alpha_turn > ALPHA_LIMIT {
        Some(ParamError::OutOfRange)
    } else {
        None
    }
}

impl MotionParameters {
    pub open spec fn valid(self) -> bool {
        &&& 0 < self.max_speed <= MAX_SPEED_LIMIT
        &&& 0 < self.t_acc <= T_ACC_LIMIT
        &&& self.alpha_rev <= ALPHA_LIMIT
        &&& self.alpha_stop <= ALPHA_LIMIT
        &&& self.alpha_turn <= ALPHA_LIMIT
        &&& self.gravity_strength <= GRAVITY_STRENGTH_LIMIT
    }

    /// Tuning values with every multiplier neutral.
    pub fn basic(max_speed: i64, t_acc: i64) -> (r: Result<Self, ParamError>)
        ensures
            match param_check(max_speed as int, t_acc as int, 1000, 1000, 1000) {
                Some(e) => r == Err::<Self, ParamError>(e),
                None => r == Ok::<Self, ParamError>(MotionParameters {
                    max_speed,
                    t_acc,
                    alpha_rev: ALPHA_ONE,
                    alpha_stop: ALPHA_ONE,
                    alpha_turn: ALPHA_ONE,
                    gravity_strength: DEFAULT_GRAVITY_STRENGTH,
                }),
            },
    {
        Self::full_with_separate_turn(max_speed, t_acc, ALPHA_ONE, ALPHA_ONE, ALPHA_ONE)
    }

    /// Tuning values with a stopping multiplier; the others neutral.
    pub fn with_stopping(max_speed: i64, t_acc: i64, alpha_stop: u32) -> (r: Result<
        Self,
        ParamError,
    >)
        ensures
            match param_check(max_speed as int, t_acc as int, alpha_stop as int, 1000, 1000) {
                Some(e) => r == Err::<Self, ParamError>(e),
                None => r == Ok::<Self, ParamError>(MotionParameters {
                    max_speed,
                    t_acc,
                    alpha_rev: ALPHA_ONE,
                    alpha_stop,
                    alpha_turn: ALPHA_ONE,
                    gravity_strength: DEFAULT_GRAVITY_STRENGTH,
                }),
            },
    {
        Self::full_with_separate_turn(max_speed, t_acc, alpha_stop, ALPHA_ONE, ALPHA_ONE)
    }

    /// Tuning values with stopping and reversing multipliers; turning damps as
    /// reversing does.
    pub fn full(max_speed: i64, t_acc: i64, alpha_stop: u32, alpha_rev: u32) -> (r: Result<
        Self,
        ParamError,
    >)
        ensures
            match param_check(
                max_speed as int,
                t_acc as int,
                alpha_stop as int,
                alpha_rev as int,
                alpha_rev as int,
            ) {
                Some(e) => r == Err::<Self, ParamError>(e),
                None => r == Ok::<Self, ParamError>(MotionParameters {
                    max_speed,
                    t_acc,
                    alpha_rev,
                    alpha_stop,
                    alpha_turn: alpha_rev,
                    gravity_strength: DEFAULT_GRAVITY_STRENGTH,
                }),
            },
    {
        Self::full_with_separate_turn(max_speed, t_acc, alpha_stop, alpha_rev, alpha_rev)
    }

    /// Tuning values with every multiplier given.
    pub fn full_with_separate_turn(
        max_speed: i64,
        t_acc: i64,
        alpha_stop: u32,
        alpha_rev: u32,
        alpha_turn: u32,
    ) -> (r: Result<Self, ParamError>)
        ensures
            match param_check(
                max_speed as int,
                t_acc as int,
                alpha_stop as int,
                alpha_rev as int,
                alpha_turn as int,
            ) {
                Some(e) => r == Err::<Self, ParamError>(e),
                None => r == Ok::<Self, ParamError>(MotionParameters {
                    max_speed,
                    t_acc,
                    alpha_rev,
                    alpha_stop,
                    alpha_turn,
                    gravity_strength: DEFAULT_GRAVITY_STRENGTH,
                }),
            },
            r is Ok ==> r->Ok_0.valid(),
    {
        if max_speed <= 0 {
            Err(ParamError::NonPositiveMaxSpeed)
        } else if t_acc <= 0 {
            Err(ParamError::NonPositiveTimeConstant)
        } else if max_speed > MAX_SPEED_LIMIT || t_acc > T_ACC_LIMIT || alpha_stop > ALPHA_LIMIT
            || alpha_rev > ALPHA_LIMIT || alpha_turn > ALPHA_LIMIT {
            Err(ParamError::OutOfRange)
        } else {
            Ok(
                MotionParameters {
                    max_speed,
                    t_acc,
                    alpha_rev,
                    alpha_stop,
                    alpha_turn,
                    gravity_strength: DEFAULT_GRAVITY_STRENGTH,
                },
            )
        }
    }
}

/// Which of the three time constants a tick uses.
#[derive(Clone, Copy, Debug, PartialEq, Eq, Structural)]
pub enum AlphaBranch {
    /// Target and velocity agree in sign: plain acceleration, `alpha = 1.0`.
    Accelerate,
    /// The target is zero: coasting to a stop, `alpha = alpha_stop`.
    Stop,
    /// The target points against the velocity: reversal braking, `alpha = alpha_rev`.
    Reverse,
}

/// The branch for a target and a current velocity. The sign of a velocity is
/// its effective sign: zero counts as positive.
pub open spec fn branch_of(target: int, current: int) -> AlphaBranch {
    if target == 0 {
        AlphaBranch::Stop
    } else if (target < 0) != (current < 0) {
        AlphaBranch::Reverse
    } else {
        AlphaBranch::Accelerate
    }
}

/// The multiplier, in thousandths, of a branch.
pub open spec fn alpha_of(p: MotionParameters, b: AlphaBranch) -> int {
    match b {
        AlphaBranch::Accelerate => ALPHA_ONE as int,
        AlphaBranch::Stop => p.alpha_stop as int,
        AlphaBranch::Reverse => p.alpha_rev as int,
    }
}

/// The velocity after one tick of `dt` microseconds toward `target`, with
/// multiplier `alpha`, in exact arithmetic rounded toward the target.
pub open spec fn blend(p: MotionParameters, alpha: int, current: int, target: int, dt: int) -> int {
    round_toward(
        1000 * p.t_acc * current + 1000 * dt * target,
        1000 * p.t_acc + alpha * dt,
        target,
    )
}

/// The velocity after one tick of the scalar integrator.
pub open spec fn next_velocity(p: MotionParameters, current: int, target: int, dt: int) -> int {
    blend(p, alpha_of(p, branch_of(target, current)), current, target, dt)
}

/// The branch for a target and a current velocity; see [`branch_of`].
pub fn select_branch(target: i64, current: i64) -> (b: AlphaBranch)
    ensures
        b == branch_of(target as int, current as int),
{
    if target == 0 {
        AlphaBranch::Stop
    } else if (target < 0) != (current < 0) {
        AlphaBranch::Reverse
    } else {
        AlphaBranch::Accelerate
    }
}

/// The multiplier, in thousandths, for a target and a current velocity:
/// `1.0` when their signs match, `alpha_rev` when they are opposite and
/// `alpha_stop` when the target is zero.
pub fn select_alpha(params: &MotionParameters, target: i64, current: i64) -> (alpha: u32)
    ensures
        alpha == alpha_of(*params, branch_of(target as int, current as int)),
        target == 0 ==> alpha == params.alpha_stop,
        target != 0 && (target < 0) == (current < 0) ==> alpha == ALPHA_ONE,
        target != 0 && (target < 0) != (current < 0) ==> alpha == params.alpha_rev,
{
    match select_branch(target, current) {
        AlphaBranch::Accelerate => ALPHA_ONE,
        AlphaBranch::Stop => params.alpha_stop,
        AlphaBranch::Reverse => params.alpha_rev,
    }
}

/// One semi-implicit step with a given multiplier.
pub fn blend_velocity(params: &MotionParameters, alpha: u32, current: i64, target: i64, dt: i64) -> (v: i64)
    requires
        params.valid(),
        alpha <= ALPHA_LIMIT,
        0 < dt <= DT_LIMIT,
        -VELOCITY_LIMIT <= current <= VELOCITY_LIMIT,
        -VELOCITY_LIMIT <= target <= VELOCITY_LIMIT,
        -VELOCITY_LIMIT as int * (1000 * params.t_acc + alpha * dt) <= 1000 * params.t_acc * current
            + 1000 * dt * target <= VELOCITY_LIMIT as int * (1000 * params.t_acc + alpha * dt),
    ensures
        v == blend(*params, alpha as int, current as int, target as int, dt as int),
        -VELOCITY_LIMIT <= v <= VELOCITY_LIMIT,
{
    let t = params.t_acc as i128;
    let pt = 1000 * t;
    let qt = 1000 * (dt as i128);
    proof {
        assert(-100_000_000_000_000_000_000_000_000_000 <= pt * current <= 100_000_000_000_000_000_000_000_000_000) by (nonlinear_arith)
            requires
                0 < pt <= 1000 * T_ACC_LIMIT,
                -VELOCITY_LIMIT <= current <= VELOCITY_LIMIT,
        {}
        assert(-100_000_000_000_000_000_000_000_000_000 <= qt * target <= 100_000_000_000_000_000_000_000_000_000) by (nonlinear_arith)
            requires
                0 < qt <= 1000 * DT_LIMIT,
                -VELOCITY_LIMIT <= target <= VELOCITY_LIMIT,
        {}
        assert(0 <= alpha * dt <= ALPHA_LIMIT * DT_LIMIT) by (nonlinear_arith)
            requires
                alpha <= ALPHA_LIMIT,
                0 < dt <= DT_LIMIT,
        {}
    }
    let n = pt * (current as i128) + qt * (target as i128);
    let d = pt + (alpha as i128) * (dt as i128);
    proof {
        assert(-DIV_LIMIT < target * d < DIV_LIMIT) by (nonlinear_arith)
            requires
                0 < d <= 1000 * T_ACC_LIMIT + ALPHA_LIMIT * DT_LIMIT,
                -VELOCITY_LIMIT <= target <= VELOCITY_LIMIT,
        {}
        let vl = VELOCITY_LIMIT as int;
        assert((-vl - 1) * d < n && n < (vl + 1) * d) by (nonlinear_arith)
            requires
                d > 0,
                -vl * d <= n <= vl * d,
        {}
        lemma_floor_between(n as int, d as int, -(VELOCITY_LIMIT as int), VELOCITY_LIMIT as int + 1);
        lemma_ceil_between(n as int, d as int, -(VELOCITY_LIMIT as int) - 1, VELOCITY_LIMIT as int);
    }
    div_toward(n, d, target as i128) as i64
}

/// A tick keeps a velocity within [`VELOCITY_LIMIT`] when the target stays
/// within [`TARGET_LIMIT`].
pub proof fn lemma_blend_stays_bounded(p: MotionParameters, current: int, target: int, dt: int)
    requires
        p.valid(),
        0 < dt <= DT_LIMIT,
        -VELOCITY_LIMIT <= current <= VELOCITY_LIMIT,
        -TARGET_LIMIT <= target <= TARGET_LIMIT,
    ensures
        ({
            let alpha = alpha_of(p, branch_of(target, current));
            let n = 1000 * p.t_acc * current + 1000 * dt * target;
            let d = 1000 * p.t_acc + alpha * dt;
            -VELOCITY_LIMIT * d <= n <= VELOCITY_LIMIT * d
        }),
{
    let alpha = alpha_of(p, branch_of(target, current));
    let pt = 1000 * p.t_acc;
    let qt = 1000 * dt;
    let vl = VELOCITY_LIMIT as int;
    let tl = TARGET_LIMIT as int;
    assert(0 <= alpha * dt) by (nonlinear_arith)
        requires
            0 <= alpha,
            0 < dt,
    {}
    match branch_of(target, current) {
        AlphaBranch::Accelerate => {
            assert(-vl * (pt + qt) <= pt * current + qt * target <= vl * (pt + qt)) by (nonlinear_arith)
                requires
                    pt > 0,
                    qt > 0,
                    -vl <= current <= vl,
                    -tl <= target <= tl,
                    tl <= vl,
            {}
        },
        AlphaBranch::Stop => {
            assert(-vl * (pt + alpha * dt) <= pt * current <= vl * (pt + alpha * dt)) by (nonlinear_arith)
                requires
                    pt > 0,
                    alpha * dt >= 0,
                    -vl <= current <= vl,
            {}
        },
        AlphaBranch::Reverse => {
            assert(-vl * (pt + alpha * dt) <= pt * current + qt * target <= vl * (pt + alpha * dt)) by (nonlinear_arith)
                requires
                    pt >= 1000,
                    0 < qt <= 1000 * DT_LIMIT,
                    alpha * dt >= 0,
                    -vl <= current <= vl,
                    -tl <= target <= tl,
                    vl == tl * DT_LIMIT,
                    (target < 0) != (current < 0),
            {}
        },
    }
}

/// One tick of the scalar integrator: picks the multiplier from the signs of
/// `target` and `current` and blends.
pub fn integrate_velocity(params: &MotionParameters, current: i64, target: i64, dt: i64) -> (v: i64)
    requires
        params.valid(),
        0 < dt <= DT_LIMIT,
        -VELOCITY_LIMIT <= current <= VELOCITY_LIMIT,
        -TARGET_LIMIT <= target <= TARGET_LIMIT,
    ensures
        v == next_velocity(*params, current as int, target as int, dt as int),
        -VELOCITY_LIMIT <= v <= VELOCITY_LIMIT,
{
    let alpha = select_alpha(params, target, current);
    proof {
        lemma_blend_stays_bounded(*params, current as int, target as int, dt as int);
    }
    blend_velocity(params, alpha, current, target, dt)
}

/// The velocity after `k` ticks of `dt` toward a constant target.
pub open spec fn velocity_after(p: MotionParameters, current: int, target: int, dt: int, k: nat) -> int
    decreases k,
{
    if k == 0 {
        current
    } else {
        next_velocity(p, velocity_after(p, current, target, dt, (k - 1) as nat), target, dt)
    }
}

/// The damping that lets repeated ticks settle on `target` without passing it:
/// a positive stopping multiplier for a zero target, and reversal braking no
/// weaker than `1 - t_acc / dt` for any other.
pub open spec fn settles_on(p: MotionParameters, target: int, dt: int) -> bool {
    &&& target == 0 ==> p.alpha_stop > 0
    &&& target != 0 ==> 1000 * p.t_acc + p.alpha_rev * dt >= 1000 * dt
}

/// One tick moves a velocity strictly toward the target and never past it.
pub proof fn lemma_tick_approaches(p: MotionParameters, current: int, target: int, dt: int)
    requires
        p.valid(),
        dt > 0,
        settles_on(p, target, dt),
    ensures
        ({
            let v = next_velocity(p, current, target, dt);
            &&& current < target ==> current < v <= target
            &&& current > target ==> target <= v < current
            &&& current == target ==> v == target
        }),
{
    let b = branch_of(target, current);
    let alpha = alpha_of(p, b);
    let pt = 1000 * p.t_acc;
    let qt = 1000 * dt;
    let n = pt * current + qt * target;
    let d = pt + alpha * dt;
    let ad = alpha * dt;
    assert(ad >= 0) by (nonlinear_arith)
        requires
            alpha >= 0,
            dt > 0,
            ad == alpha * dt,
    {}
    assert(b == AlphaBranch::Accelerate ==> ad == qt);
    assert(b == AlphaBranch::Stop ==> ad > 0) by (nonlinear_arith)
        requires
            b == AlphaBranch::Stop ==> alpha > 0,
            dt > 0,
            ad == alpha * dt,
    {}
    assert(b == AlphaBranch::Reverse ==> pt + ad >= qt);
    assert(d > 0);
    if current < target {
        match b {
            AlphaBranch::Accelerate => {
                assert(current * d < n && n <= target * d) by (nonlinear_arith)
                    requires
                        pt > 0,
                        qt > 0,
                        n == pt * current + qt * target,
                        d == pt + qt,
                        current < target,
                {}
            },
            AlphaBranch::Stop => {
                assert(current * d < n && n <= target * d) by (nonlinear_arith)
                    requires
                        pt > 0,
                        ad > 0,
                        n == pt * current + qt * target,
                        d == pt + ad,
                        current < target,
                        target == 0,
                {}
            },
            AlphaBranch::Reverse => {
                assert(current * d < n && n <= target * d) by (nonlinear_arith)
                    requires
                        pt > 0,
                        qt > 0,
                        ad >= 0,
                        pt + ad >= qt,
                        n == pt * current + qt * target,
                        d == pt + ad,
                        target > 0,
                        current < 0,
                {}
            },
        }
        crate::arith::lemma_ceil_between(n, d, current, target);
    } else if current > target {
        match b {
            AlphaBranch::Accelerate => {
                assert(target * d <= n && n < current * d) by (nonlinear_arith)
                    requires
                        pt > 0,
                        qt > 0,
                        n == pt * current + qt * target,
                        d == pt + qt,
                        current > target,
                {}
            },
            AlphaBranch::Stop => {
                assert(target * d <= n && n < current * d) by (nonlinear_arith)
                    requires
                        pt > 0,
                        ad > 0,
                        n == pt * current + qt * target,
                        d == pt + ad,
                        current > target,
                        target == 0,
                {}
            },
            AlphaBranch::Reverse => {
                assert(target * d <= n && n < current * d) by (nonlinear_arith)
                    requires
                        pt > 0,
                        qt > 0,
                        ad >= 0,
                        pt + ad >= qt,
                        n == pt * current + qt * target,
                        d == pt + ad,
                        target < 0,
                        current >= 0,
                {}
            },
        }
        if n <= target * d {
            assert((target - 1) * d < n) by (nonlinear_arith)
                requires
                    target * d <= n,
                    d > 0,
            {}
            crate::arith::lemma_ceil_between(n, d, target - 1, target);
        } else {
            lemma_floor_between(n, d, target, current);
        }
    } else {
        assert(n == target * d) by (nonlinear_arith)
            requires
                n == pt * current + qt * target,
                d == pt + ad,
                current == target,
                b == AlphaBranch::Accelerate ==> ad == qt,
                b == AlphaBranch::Stop ==> target == 0,
                b != AlphaBranch::Reverse,
        {}
        assert((target - 1) * d < n) by (nonlinear_arith)
            requires
                target * d == n,
                d > 0,
        {}
        crate::arith::lemma_ceil_between(n, d, target - 1, target);
    }
}

/// Repeated ticks toward a constant target approach it monotonically, never
/// overshoot it, and reach it exactly after at most as many ticks as the
/// velocity is units away from it.
pub proof fn lemma_velocity_converges(p: MotionParameters, current: int, target: int, dt: int)
    requires
        p.valid(),
        dt > 0,
        settles_on(p, target, dt),
    ensures
        forall|k: nat|
            {
                let v = #[trigger] velocity_after(p, current, target, dt, k);
                let w = velocity_after(p, current, target, dt, k + 1);
                &&& v <= target ==> v <= w <= target
                &&& v >= target ==> target <= w <= v
            },
        velocity_after(p, current, target, dt, crate::arith::abs_diff(current, target)) == target,
{
    assert forall|k: nat|
        {
            let v = #[trigger] velocity_after(p, current, target, dt, k);
            let w = velocity_after(p, current, target, dt, k + 1);
            &&& v <= target ==> v <= w <= target
            &&& v >= target ==> target <= w <= v
        } by {
        lemma_tick_approaches(p, velocity_after(p, current, target, dt, k), target, dt);
    }
    lemma_reaches_target(p, current, target, dt, crate::arith::abs_diff(current, target));
}

proof fn lemma_reaches_target(p: MotionParameters, current: int, target: int, dt: int, k: nat)
    requires
        p.valid(),
        dt > 0,
        settles_on(p, target, dt),
        crate::arith::abs_diff(current, target) <= k,
    ensures
        velocity_after(p, current, target, dt, k) == target,
    decreases k,
{
    if k > 0 {
        let prev = velocity_after(p, current, target, dt, (k - 1) as nat);
        if crate::arith::abs_diff(current, target) <= k - 1 {
            lemma_reaches_target(p, current, target, dt, (k - 1) as nat);
            lemma_tick_approaches(p, prev, target, dt);
        } else {
            lemma_distance_after(p, current, target, dt, (k - 1) as nat);
            lemma_tick_approaches(p, prev, target, dt);
        }
    }
}

/// After `k` ticks the distance to the target has shrunk by at least `k`, or
/// the target has been reached.
proof fn lemma_distance_after(p: MotionParameters, current: int, target: int, dt: int, k: nat)
    requires
        p.valid(),
        dt > 0,
        settles_on(p, target, dt),
    ensures
        ({
            let v = velocity_after(p, current, target, dt, k);
            &&& current <= target ==> current + k <= v <= target || v == target
            &&& current >= target ==> target <= v <= current - k || v == target
        }),
    decreases k,
{
    if k > 0 {
        lemma_distance_after(p, current, target, dt, (k - 1) as nat);
        lemma_tick_approaches(p, velocity_after(p, current, target, dt, (k - 1) as nat), target, dt);
    }
}

/// Largest magnitude of a position that a tick may start from.
pub const POSITION_LIMIT: i64 = 1_000_000_000_000_000_000;

/// A position after moving at `velocity` for `dt` microseconds, rounded down.
pub open spec fn advanced(position: int, velocity: int, dt: int) -> int {
    position + velocity * dt / (MICROS_PER_SECOND as int)
}

/// A position after moving at `velocity` for `dt` microseconds: the
/// semi-implicit position update, which uses the velocity after the tick.
pub fn advance(position: i64, velocity: i64, dt: i64) -> (a: i64)
    requires
        -POSITION_LIMIT <= position <= POSITION_LIMIT,
        -2 * VELOCITY_LIMIT <= velocity <= 2 * VELOCITY_LIMIT,
        0 < dt <= DT_LIMIT,
    ensures
        a == advanced(position as int, velocity as int, dt as int),
{
    proof {
        assert(-2 * VELOCITY_LIMIT * DT_LIMIT <= velocity * dt <= 2 * VELOCITY_LIMIT * DT_LIMIT) by (nonlinear_arith)
            requires
                -2 * VELOCITY_LIMIT <= velocity <= 2 * VELOCITY_LIMIT,
                0 < dt <= DT_LIMIT,
        {}
        lemma_floor_between(
            velocity * dt,
            MICROS_PER_SECOND as int,
            -2 * VELOCITY_LIMIT - 1,
            2 * VELOCITY_LIMIT + 1,
        );
    }
    let step = crate::arith::floor_div(velocity as i128 * dt as i128, MICROS_PER_SECOND as i128);
    (position as i128 + step) as i64
}

} // verus!
