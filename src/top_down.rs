//! Top-down movement: the velocity splits into a part along the intent,
//! which follows the scalar integrator, and a part across it, which is damped
//! by the turning multiplier.

use vstd::prelude::*;
use crate::arith::{div_toward, round_toward, lemma_floor_between, lemma_ceil_between};
use crate::camera::{Camera, CameraPolicy, Point, TrackingCameras, cameras_after, track_cameras};
use crate::motion::{
    MotionParameters, DT_LIMIT, VELOCITY_LIMIT, advance, advanced, alpha_of,
    blend, blend_velocity, branch_of,
};
use crate::player::{INTENT_ONE, MovementIntent};

verus! {

/// Largest magnitude of a velocity component that a top-down tick accepts.
pub const PLANAR_LIMIT: i64 = 1_000_000_000_000_000;

/// The ground of the top-down surface.
#[derive(Clone, Copy, Debug, PartialEq, Eq, Structural)]
pub enum Ground {
    FlatPeriodic,
    Hills,
}

impl Ground {
    pub open spec fn toggled_spec(self) -> Ground {
        match self {
            Ground::FlatPeriodic => Ground::Hills,
            Ground::Hills => Ground::FlatPeriodic,
        }
    }

    /// The ground after the switch command.
    pub fn toggled(self) -> (g: Ground)
        ensures
            g == self.toggled_spec(),
    {
        match self {
            Ground::FlatPeriodic => Ground::Hills,
            Ground::Hills => Ground::FlatPeriodic,
        }
    }

    pub open spec fn policy_spec(self) -> CameraPolicy {
        match self {
            Ground::FlatPeriodic => CameraPolicy::ViewportSnap,
            Ground::Hills => CameraPolicy::InflatedFollow,
        }
    }

    /// Viewport jumps on the flat periodic ground, dead-zone following on the hills.
    pub fn camera_policy(self) -> (c: CameraPolicy)
        ensures
            c == self.policy_spec(),
    {
        match self {
            Ground::FlatPeriodic => CameraPolicy::ViewportSnap,
            Ground::Hills => CameraPolicy::InflatedFollow,
        }
    }
}

/// Applies a switch command to the ground in place.
pub fn swap_ground(ground: &mut Ground)
    ensures
        *final(ground) == old(ground).toggled_spec(),
{
    *ground = ground.toggled();
}

/// Moves the cameras that track the subject, by the policy of the ground.
pub fn move_camera(
    ground: Ground,
    subject: Point,
    tracking: &TrackingCameras,
    cameras: &mut Vec<Camera>,
)
    requires
        subject.in_range(),
        tracking.distinct(),
        forall|i: int| 0 <= i < old(cameras)@.len() ==> (#[trigger] old(cameras)@[i]).in_range(),
    ensures
        final(cameras)@ == cameras_after(ground.policy_spec(), subject, tracking.0@, old(cameras)@),
{
    track_cameras(ground.camera_policy(), subject, tracking, cameras);
}

/// A velocity in the plane, in length units per second.
#[derive(Clone, Copy, Debug, PartialEq, Eq, Structural)]
pub struct PlanarVelocity {
    pub x: i64,
    pub y: i64,
}

/// The velocity state of a top-down subject.
#[derive(Clone, Copy, Debug, PartialEq, Eq, Structural)]
pub struct MovementController {
    pub velocity: PlanarVelocity,
}

impl Default for MovementController {
    fn default() -> (c: Self)
        ensures
            c.velocity.x == 0 && c.velocity.y == 0,
    {
        MovementController { velocity: PlanarVelocity { x: 0, y: 0 } }
    }
}

impl PlanarVelocity {
    pub open spec fn in_range(self) -> bool {
        -PLANAR_LIMIT <= self.x <= PLANAR_LIMIT && -PLANAR_LIMIT <= self.y <= PLANAR_LIMIT
    }
}

/// The component along the intent of one velocity component: the
/// projection `(v . u) u / (u . u)`, rounded toward zero.
pub open spec fn along(v: PlanarVelocity, u: MovementIntent, uc: int) -> int {
    round_toward(
        (v.x * u.x + v.y * u.y) * uc,
        u.x * u.x + u.y * u.y,
        0,
    )
}

/// One component of the target velocity: the top speed times the intent,
/// rounded toward zero.
pub open spec fn target_component(p: MotionParameters, uc: int) -> int {
    round_toward(p.max_speed * uc, INTENT_ONE as int, 0)
}

/// One component after a tick with a non-zero intent: the part along the
/// intent takes a scalar step toward the target, the part across it is damped
/// by `alpha_turn`.
pub open spec fn steered(p: MotionParameters, v: PlanarVelocity, u: MovementIntent, vc: int, uc: int, dt: int) -> int {
    let alpha = alpha_of(p, branch_of(p.max_speed as int, v.x * u.x + v.y * u.y));
    let l = along(v, u, uc);
    blend(p, alpha, l, target_component(p, uc), dt) + blend(p, p.alpha_turn as int, vc - l, 0, dt)
}

/// The velocity after one top-down tick. With no intent, the whole velocity
/// coasts down with `alpha_stop`.
pub open spec fn planar_step(p: MotionParameters, v: PlanarVelocity, u: MovementIntent, dt: int) -> PlanarVelocity {
    if u.is_zero() {
        PlanarVelocity {
            x: blend(p, p.alpha_stop as int, v.x as int, 0, dt) as i64,
            y: blend(p, p.alpha_stop as int, v.y as int, 0, dt) as i64,
        }
    } else {
        PlanarVelocity {
            x: steered(p, v, u, v.x as int, u.x as int, dt) as i64,
            y: steered(p, v, u, v.y as int, u.y as int, dt) as i64,
        }
    }
}

/// A projected component is no larger than the velocity's two components together.
proof fn lemma_projection_bound(vx: int, vy: int, ux: int, uy: int, uc: int)
    requires
        uc == ux || uc == uy,
        ux * ux + uy * uy > 0,
        -PLANAR_LIMIT <= vx <= PLANAR_LIMIT,
        -PLANAR_LIMIT <= vy <= PLANAR_LIMIT,
    ensures
        -2 * PLANAR_LIMIT <= round_toward((vx * ux + vy * uy) * uc, ux * ux + uy * uy, 0)
            <= 2 * PLANAR_LIMIT,
{
    let uu = ux * ux + uy * uy;
    let n = (vx * ux + vy * uy) * uc;
    let k = 2 * PLANAR_LIMIT;
    assert(ux * uc <= uu && -uu <= ux * uc) by (nonlinear_arith)
        requires
            uc == ux || uc == uy,
            uu == ux * ux + uy * uy,
    {}
    assert(uy * uc <= uu && -uu <= uy * uc) by (nonlinear_arith)
        requires
            uc == ux || uc == uy,
            uu == ux * ux + uy * uy,
    {}
    assert(-PLANAR_LIMIT * uu <= vx * (ux * uc) <= PLANAR_LIMIT * uu) by (nonlinear_arith)
        requires
            -uu <= ux * uc <= uu,
            -PLANAR_LIMIT <= vx <= PLANAR_LIMIT,
    {}
    assert(-PLANAR_LIMIT * uu <= vy * (uy * uc) <= PLANAR_LIMIT * uu) by (nonlinear_arith)
        requires
            -uu <= uy * uc <= uu,
            -PLANAR_LIMIT <= vy <= PLANAR_LIMIT,
    {}
    assert(n == vx * (ux * uc) + vy * (uy * uc)) by (nonlinear_arith)
        requires
            n == (vx * ux + vy * uy) * uc,
    {}
    assert(-k * uu <= n <= k * uu) by (nonlinear_arith)
        requires
            n == vx * (ux * uc) + vy * (uy * uc),
            -PLANAR_LIMIT * uu <= vx * (ux * uc) <= PLANAR_LIMIT * uu,
            -PLANAR_LIMIT * uu <= vy * (uy * uc) <= PLANAR_LIMIT * uu,
            k == 2 * PLANAR_LIMIT,
    {}
    assert((-k - 1) * uu < n && n < (k + 1) * uu) by (nonlinear_arith)
        requires
            -k * uu <= n <= k * uu,
            uu > 0,
    {}
    lemma_floor_between(n, uu, -k, k + 1);
    lemma_ceil_between(n, uu, -k - 1, k);
}

/// A blend of a component within three times [`PLANAR_LIMIT`] toward a target
/// no faster than the top speed stays within [`VELOCITY_LIMIT`].
proof fn lemma_planar_blend_bounded(p: MotionParameters, alpha: int, current: int, target: int, dt: int)
    requires
        p.valid(),
        0 <= alpha,
        0 < dt <= DT_LIMIT,
        -3 * PLANAR_LIMIT <= current <= 3 * PLANAR_LIMIT,
        -p.max_speed <= target <= p.max_speed,
    ensures
        -VELOCITY_LIMIT * (1000 * p.t_acc + alpha * dt) <= 1000 * p.t_acc * current + 1000 * dt
            * target <= VELOCITY_LIMIT * (1000 * p.t_acc + alpha * dt),
{
    let pt = 1000 * p.t_acc;
    assert(0 <= alpha * dt) by (nonlinear_arith)
        requires
            0 <= alpha,
            0 < dt,
    {}
    assert(-1_000_000_000 * 1_000_000_000 <= 1000 * dt * target <= 1_000_000_000 * 1_000_000_000) by (nonlinear_arith)
        requires
            0 < dt <= 1_000_000,
            -1_000_000_000 <= target <= 1_000_000_000,
    {}
    assert(-3 * PLANAR_LIMIT * pt <= pt * current <= 3 * PLANAR_LIMIT * pt) by (nonlinear_arith)
        requires
            pt >= 1000,
            -3 * PLANAR_LIMIT <= current <= 3 * PLANAR_LIMIT,
    {}
    assert(VELOCITY_LIMIT * pt <= VELOCITY_LIMIT * (pt + alpha * dt)) by (nonlinear_arith)
        requires
            alpha * dt >= 0,
    {}
    assert(3 * PLANAR_LIMIT * pt + 1_000_000_000_000_000_000 <= VELOCITY_LIMIT * pt) by (nonlinear_arith)
        requires
            pt >= 1000,
    {}
}

/// The dot product of a velocity and an intent.
fn dot(ax: i64, ay: i64, bx: i64, by: i64) -> (d: i128)
    requires
        -PLANAR_LIMIT <= ax <= PLANAR_LIMIT,
        -PLANAR_LIMIT <= ay <= PLANAR_LIMIT,
        -INTENT_ONE <= bx <= INTENT_ONE,
        -INTENT_ONE <= by <= INTENT_ONE,
    ensures
        d == ax * bx + ay * by,
{
    proof {
        assert(-PLANAR_LIMIT * INTENT_ONE <= ax * bx <= PLANAR_LIMIT * INTENT_ONE) by (nonlinear_arith)
            requires
                -PLANAR_LIMIT <= ax <= PLANAR_LIMIT,
                -INTENT_ONE <= bx <= INTENT_ONE,
        {}
        assert(-PLANAR_LIMIT * INTENT_ONE <= ay * by <= PLANAR_LIMIT * INTENT_ONE) by (nonlinear_arith)
            requires
                -PLANAR_LIMIT <= ay <= PLANAR_LIMIT,
                -INTENT_ONE <= by <= INTENT_ONE,
        {}
    }
    (ax as i128) * (bx as i128) + (ay as i128) * (by as i128)
}

fn steer_component(
    params: &MotionParameters,
    alpha: u32,
    v: PlanarVelocity,
    u: MovementIntent,
    vc: i64,
    uc: i64,
    dt: i64,
) -> (c: i64)
    requires
        params.valid(),
        alpha == alpha_of(*params, branch_of(params.max_speed as int, v.x * u.x + v.y * u.y)),
        u.valid(),
        !u.is_zero(),
        v.in_range(),
        vc == v.x || vc == v.y,
        (vc == v.x && uc == u.x) || (vc == v.y && uc == u.y),
        0 < dt <= DT_LIMIT,
    ensures
        c == steered(*params, v, u, vc as int, uc as int, dt as int),
        -2 * VELOCITY_LIMIT <= c <= 2 * VELOCITY_LIMIT,
{
    let uu = dot(u.x, u.y, u.x, u.y);
    let vu = dot(v.x, v.y, u.x, u.y);
    proof {
        assert(uu > 0) by (nonlinear_arith)
            requires
                uu == u.x * u.x + u.y * u.y,
                u.x != 0 || u.y != 0,
        {}
        assert(-2_000_000_000_000_000_000_000 <= vu <= 2_000_000_000_000_000_000_000) by (nonlinear_arith)
            requires
                vu == v.x * u.x + v.y * u.y,
                -PLANAR_LIMIT <= v.x <= PLANAR_LIMIT,
                -PLANAR_LIMIT <= v.y <= PLANAR_LIMIT,
                -INTENT_ONE <= u.x <= INTENT_ONE,
                -INTENT_ONE <= u.y <= INTENT_ONE,
        {}
        assert(-2_000_000_000_000_000_000_000_000_000 <= vu * uc <= 2_000_000_000_000_000_000_000_000_000) by (nonlinear_arith)
            requires
                -2_000_000_000_000_000_000_000 <= vu <= 2_000_000_000_000_000_000_000,
                -INTENT_ONE <= uc <= INTENT_ONE,
        {}
        lemma_projection_bound(v.x as int, v.y as int, u.x as int, u.y as int, uc as int);
        assert(-1_000_000_000_000_000 <= params.max_speed * uc <= 1_000_000_000_000_000) by (nonlinear_arith)
            requires
                0 < params.max_speed <= 1_000_000_000,
                -INTENT_ONE <= uc <= INTENT_ONE,
        {}
    }
    let l = div_toward(vu * (uc as i128), uu, 0) as i64;
    let t = div_toward((params.max_speed as i128) * (uc as i128), INTENT_ONE as i128, 0);
    proof {
        let n = params.max_speed * uc;
        let ms = params.max_speed as int;
        assert(-ms * INTENT_ONE <= n <= ms * INTENT_ONE) by (nonlinear_arith)
            requires
                n == ms * uc,
                ms > 0,
                -INTENT_ONE <= uc <= INTENT_ONE,
        {}
        assert((-ms - 1) * INTENT_ONE < n && n < (ms + 1) * INTENT_ONE) by (nonlinear_arith)
            requires
                -ms * INTENT_ONE <= n <= ms * INTENT_ONE,
        {}
        lemma_floor_between(n, INTENT_ONE as int, -ms, ms + 1);
        lemma_ceil_between(n, INTENT_ONE as int, -ms - 1, ms);
        lemma_planar_blend_bounded(*params, alpha as int, l as int, t as int, dt as int);
        lemma_planar_blend_bounded(*params, params.alpha_turn as int, vc - l, 0, dt as int);
    }
    let t = t as i64;
    let longitudinal = blend_velocity(params, alpha, l, t, dt);
    let transverse = blend_velocity(params, params.alpha_turn, vc - l, 0, dt);
    longitudinal + transverse
}

/// One tick of top-down movement. With an intent, the velocity splits into
/// its projection on the intent and the rest: the projection takes a scalar
/// step toward the top speed along the intent (reversal braking when it
/// points backward), the rest is damped by `alpha_turn`. Without one, the
/// whole velocity coasts down with `alpha_stop`. The subject then moves at
/// the new velocity.
pub fn apply_movement(
    params: &MotionParameters,
    intent: &MovementIntent,
    controller: &mut MovementController,
    position: &mut Point,
    dt: i64,
)
    requires
        params.valid(),
        intent.valid(),
        old(controller).velocity.in_range(),
        old(position).in_range(),
        0 < dt <= DT_LIMIT,
    ensures
        final(controller).velocity == planar_step(*params, old(controller).velocity, *intent, dt as int),
        final(position).x == advanced(old(position).x as int, final(controller).velocity.x as int, dt as int),
        final(position).y == advanced(old(position).y as int, final(controller).velocity.y as int, dt as int),
        -2 * VELOCITY_LIMIT <= final(controller).velocity.x <= 2 * VELOCITY_LIMIT,
        -2 * VELOCITY_LIMIT <= final(controller).velocity.y <= 2 * VELOCITY_LIMIT,
{
    let v = controller.velocity;
    let u = *intent;
    let next = if u.x == 0 && u.y == 0 {
        proof {
            lemma_planar_blend_bounded(*params, params.alpha_stop as int, v.x as int, 0, dt as int);
            lemma_planar_blend_bounded(*params, params.alpha_stop as int, v.y as int, 0, dt as int);
        }
        PlanarVelocity {
            x: blend_velocity(params, params.alpha_stop, v.x, 0, dt),
            y: blend_velocity(params, params.alpha_stop, v.y, 0, dt),
        }
    } else {
        proof {
            assert(-2_000_000_000_000_000_000_000 <= v.x * u.x + v.y * u.y <= 2_000_000_000_000_000_000_000) by (nonlinear_arith)
                requires
                    -PLANAR_LIMIT <= v.x <= PLANAR_LIMIT,
                    -PLANAR_LIMIT <= v.y <= PLANAR_LIMIT,
                    -INTENT_ONE <= u.x <= INTENT_ONE,
                    -INTENT_ONE <= u.y <= INTENT_ONE,
            {}
        }
        let vu = dot(v.x, v.y, u.x, u.y);
        let alpha = if vu < 0 { params.alpha_rev } else { 1000 };
        PlanarVelocity {
            x: steer_component(params, alpha, v, u, v.x, u.x, dt),
            y: steer_component(params, alpha, v, u, v.y, u.y, dt),
        }
    };
    controller.velocity = next;
    position.x = advance(position.x, next.x, dt);
    position.y = advance(position.y, next.y, dt);
}

} // verus!
