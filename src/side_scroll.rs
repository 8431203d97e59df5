//! Side-scroll ground: a flat line or a periodic hills curve, indexed by the
//! distance travelled along it.
//!
//! Each hills period is `PERIOD_LENGTH` long and `PERIOD_ARCLENGTH` of curve:
//! a flat stretch, a straight ramp up, a flat top, and the mirror image down.
//! The flat share of a period follows a slow cycle of eight periods, and the
//! peak height is chosen so that every period keeps the same arc length.

use vstd::prelude::*;
use crate::camera::{Camera, CameraPolicy, Point, TrackingCameras, cameras_after, track_cameras};
use crate::arith::{
    ceil_isqrt, ceil_sqrt, floor_div, floor_sqrt, isqrt, lemma_ceil_between, lemma_ceil_sqrt_bounds,
    lemma_floor_between,
};
use crate::motion::{
    MotionParameters, DT_LIMIT, TARGET_LIMIT, VELOCITY_LIMIT,
    ALPHA_ONE, POSITION_LIMIT, blend, integrate_velocity, next_velocity, advance, advanced,
};

verus! {

/// Horizontal length of one hills period.
pub const PERIOD_LENGTH: i64 = 1_000_000;

/// Peak height of a period without flat stretches.
pub const MAX_HEIGHT: i64 = 500_000;

/// Arc length of one period: the floor of `sqrt(PERIOD_LENGTH^2 + 4 * MAX_HEIGHT^2)`,
/// as `1_414_213^2 <= 2 * 10^12 < 1_414_214^2`.
pub const PERIOD_ARCLENGTH: i64 = 1_414_213;

/// Half the length of the cycle of flat shares, in periods.
pub const MAX_PERIOD: i64 = 4;

/// Largest magnitude of an arc position.
pub const ARC_LIMIT: i64 = POSITION_LIMIT;

/// The ground the side-scroll subject moves along.
#[derive(Clone, Copy, Debug, PartialEq, Eq, Structural)]
pub enum Ground {
    FlatPeriodic,
    Hills,
    /// Not realised: no operation accepts it.
    Loops,
}

impl Ground {
    pub open spec fn toggled_spec(self) -> Ground {
        match self {
            Ground::FlatPeriodic => Ground::Hills,
            Ground::Hills => Ground::FlatPeriodic,
            Ground::Loops => Ground::Loops,
        }
    }

    /// The ground after the switch command: flat and hills trade places.
    pub fn toggled(self) -> (g: Ground)
        ensures
            g == self.toggled_spec(),
    {
        match self {
            Ground::FlatPeriodic => Ground::Hills,
            Ground::Hills => Ground::FlatPeriodic,
            Ground::Loops => Ground::Loops,
        }
    }
}

impl Ground {
    pub open spec fn policy_spec(self) -> CameraPolicy {
        match self {
            Ground::Hills => CameraPolicy::InflatedFollow,
            _ => CameraPolicy::ViewportSnap,
        }
    }

    /// Viewport jumps on the flat periodic ground, dead-zone following on the hills.
    pub fn camera_policy(self) -> (c: CameraPolicy)
        requires
            self != Ground::Loops,
        ensures
            c == self.policy_spec(),
    {
        match self {
            Ground::Hills => CameraPolicy::InflatedFollow,
            _ => CameraPolicy::ViewportSnap,
        }
    }
}

/// Moves the cameras that track the subject, by the policy of the ground.
pub fn move_camera(
    ground: Ground,
    subject: Point,
    tracking: &TrackingCameras,
    cameras: &mut Vec<Camera>,
)
    requires
        ground != Ground::Loops,
        subject.in_range(),
        tracking.distinct(),
        forall|i: int| 0 <= i < old(cameras)@.len() ==> (#[trigger] old(cameras)@[i]).in_range(),
    ensures
        final(cameras)@ == cameras_after(ground.policy_spec(), subject, tracking.0@, old(cameras)@),
{
    track_cameras(ground.camera_policy(), subject, tracking, cameras);
}

/// Applies a switch command to the ground in place.
pub fn swap_ground(ground: &mut Ground)
    ensures
        *final(ground) == old(ground).toggled_spec(),
{
    *ground = ground.toggled();
}

/// Distance travelled along the ground.
#[derive(Clone, Copy, Debug, PartialEq, Eq, Structural)]
pub struct PositionAlongGround(pub i64);

/// A direction in the plane as run and rise; its angle is `atan2(rise, run)`.
#[derive(Clone, Copy, Debug, PartialEq, Eq, Structural)]
pub struct Slope {
    pub run: i64,
    pub rise: i64,
}

/// Where a point of the ground lies and which way it faces.
#[derive(Clone, Copy, Debug, PartialEq, Eq, Structural)]
pub struct TrackPose {
    pub x: i64,
    pub y: i64,
    pub heading: Slope,
}

/// A horizontal heading.
pub open spec fn level() -> Slope {
    Slope { run: 1, rise: 0 }
}

/// The period that holds an arc position.
pub open spec fn period_of(arc: int) -> int {
    arc / (PERIOD_ARCLENGTH as int)
}

/// Distance of a period from the nearest period of the cycle whose flat share
/// is zero: `|((period + 4) mod 8) - 4|`, from 0 to 4.
pub open spec fn period_folded(period: int) -> int {
    let m = (period + MAX_PERIOD) % (2 * MAX_PERIOD);
    if m >= MAX_PERIOD {
        m - MAX_PERIOD
    } else {
        MAX_PERIOD - m
    }
}

/// Total length of the flat stretches of a period: a fifth of the period
/// for each step of `period_folded`.
pub open spec fn flat_length(period: int) -> int {
    PERIOD_LENGTH * period_folded(period) / (MAX_PERIOD + 1)
}

/// The square of the peak height of a period that keeps the arc length:
/// `MAX_HEIGHT^2 - flat * (PERIOD_ARCLENGTH - PERIOD_LENGTH) / 2`.
pub open spec fn peak_height_squared(period: int) -> int {
    MAX_HEIGHT * MAX_HEIGHT - flat_length(period) * (PERIOD_ARCLENGTH - PERIOD_LENGTH) / 2
}

/// The peak height of a period.
pub open spec fn peak_height(period: int) -> int {
    floor_sqrt(peak_height_squared(period) as nat) as int
}

/// Position within a half period: `s` is the arc distance from the nearer end
/// of the period. Gives the horizontal offset, the height and the heading of
/// the rising half.
pub open spec fn half_profile(period: int, s: int) -> TrackPose {
    let f = flat_length(period);
    let h = peak_height(period);
    let a = PERIOD_ARCLENGTH as int;
    let l = PERIOD_LENGTH as int;
    if 4 * s < f {
        TrackPose { x: s as i64, y: 0, heading: level() }
    } else if 2 * a - 4 * s < f {
        TrackPose { x: ((l - a + 2 * s) / 2) as i64, y: h as i64, heading: level() }
    } else {
        TrackPose {
            x: (f / 4 + (l - f) * (4 * s - f) / (4 * (a - f))) as i64,
            y: (h * (4 * s - f) / (2 * (a - f))) as i64,
            heading: Slope { run: (l - f) as i64, rise: (2 * h) as i64 },
        }
    }
}

/// Offset within its period, height and heading of an arc position on the
/// hills: the half profile, mirrored in the second half of the period.
pub open spec fn hills_local(arc: int) -> TrackPose {
    let a = PERIOD_ARCLENGTH as int;
    let q = arc - period_of(arc) * a;
    let s = if 2 * q > a { a - q } else { q };
    let pr = half_profile(period_of(arc), s);
    if 2 * q > a {
        TrackPose {
            x: (PERIOD_LENGTH - pr.x) as i64,
            y: pr.y,
            heading: Slope { run: pr.heading.run, rise: -pr.heading.rise as i64 },
        }
    } else {
        pr
    }
}

/// World pose of an arc position on the hills.
pub open spec fn hills_pose(arc: int) -> TrackPose {
    let local = hills_local(arc);
    TrackPose {
        x: (period_of(arc) * PERIOD_LENGTH + local.x) as i64,
        y: local.y,
        heading: local.heading,
    }
}

/// World pose of an arc position on a ground.
pub open spec fn ground_pose(ground: Ground, arc: int) -> TrackPose {
    match ground {
        Ground::Hills => hills_pose(arc),
        _ => TrackPose { x: arc as i64, y: 0, heading: level() },
    }
}

/// The period that holds an arc position.
pub fn period_index(arc: i64) -> (k: i64)
    requires
        -ARC_LIMIT <= arc <= ARC_LIMIT,
    ensures
        k == period_of(arc as int),
        k * PERIOD_ARCLENGTH <= arc < k * PERIOD_ARCLENGTH + PERIOD_ARCLENGTH,
        -ARC_LIMIT <= k <= ARC_LIMIT,
{
    let k = floor_div(arc as i128, PERIOD_ARCLENGTH as i128);
    proof {
        vstd::arithmetic::div_mod::lemma_fundamental_div_mod(arc as int, PERIOD_ARCLENGTH as int);
        crate::arith::lemma_quotient_magnitude(arc as int, PERIOD_ARCLENGTH as int);
    }
    k as i64
}

/// Distance of a period from the nearest period whose flat share is zero;
/// see [`period_folded`].
pub fn fold_period(period: i64) -> (f: i64)
    requires
        -ARC_LIMIT <= period <= ARC_LIMIT,
    ensures
        f == period_folded(period as int),
        0 <= f <= MAX_PERIOD,
{
    let shifted = period as i128 + MAX_PERIOD as i128;
    let cycle = 2 * MAX_PERIOD as i128;
    let m = shifted - cycle * floor_div(shifted, cycle);
    proof {
        vstd::arithmetic::div_mod::lemma_fundamental_div_mod(shifted as int, cycle as int);
        crate::arith::lemma_quotient_magnitude(shifted as int, cycle as int);
    }
    if m >= MAX_PERIOD as i128 {
        (m - MAX_PERIOD as i128) as i64
    } else {
        (MAX_PERIOD as i128 - m) as i64
    }
}

/// Total length of the flat stretches of a period.
pub fn period_flat_length(period: i64) -> (f: i64)
    requires
        -ARC_LIMIT <= period <= ARC_LIMIT,
    ensures
        f == flat_length(period as int),
        0 <= f <= 800_000,
        f % 4 == 0,
{
    let folded = fold_period(period);
    PERIOD_LENGTH * folded / (MAX_PERIOD + 1)
}

/// The peak height of a period: the height at which the ramps and the flat
/// stretches add up to the arc length of a period.
pub fn period_peak_height(period: i64) -> (h: i64)
    requires
        -ARC_LIMIT <= period <= ARC_LIMIT,
    ensures
        h == peak_height(period as int),
        0 <= h <= MAX_HEIGHT,
{
    let f = period_flat_length(period);
    proof {
        assert(0 <= f * 414_213 <= 800_000 * 414_213) by (nonlinear_arith)
            requires
                0 <= f <= 800_000,
        {}
    }
    let squared = MAX_HEIGHT * MAX_HEIGHT - f * (PERIOD_ARCLENGTH - PERIOD_LENGTH) / 2;
    let r = isqrt(squared as u128);
    proof {
        let rr = r as int;
        assert(rr * rr <= squared);
        assert(rr <= MAX_HEIGHT) by (nonlinear_arith)
            requires
                rr >= 0,
                rr * rr <= MAX_HEIGHT * MAX_HEIGHT,
        {}
    }
    r as i64
}

/// Offsets in a half profile stay within the half period, heights within the
/// peak height, and no intermediate product leaves 64 bits.
pub proof fn lemma_half_profile_bounds(period: int, s: int)
    requires
        0 <= s,
        2 * s <= PERIOD_ARCLENGTH,
    ensures
        ({
            let f = flat_length(period);
            let h = peak_height(period);
            let a = PERIOD_ARCLENGTH as int;
            let l = PERIOD_LENGTH as int;
            let along = 4 * s - f;
            let ramp = f <= 4 * s && f <= 2 * a - 4 * s;
            &&& 0 <= h <= MAX_HEIGHT
            &&& 0 <= f <= 800_000
            &&& ramp ==> 0 <= (l - f) * along <= 3_000_000_000_000
            &&& ramp ==> 0 <= (l - f) * along / (4 * (a - f)) <= (l - f) / 2
            &&& ramp ==> 0 <= h * along <= 1_500_000_000_000
            &&& ramp ==> 0 <= h * along / (2 * (a - f)) <= h * along
        }),
{
    lemma_peak_height_bounds(period);
    let f = flat_length(period);
    let h = peak_height(period);
    let a = PERIOD_ARCLENGTH as int;
    let l = PERIOD_LENGTH as int;
    let along = 4 * s - f;
    assert(f % 4 == 0 && (l - f) % 2 == 0);
    if f <= 4 * s && f <= 2 * a - 4 * s {
        assert(0 <= (l - f) * along <= (l - f) * (2 * (a - f))) by (nonlinear_arith)
            requires
                0 <= along <= 2 * (a - f),
                l - f > 0,
        {}
        assert((l - f) * (2 * (a - f)) <= 1_000_000 * 3_000_000) by (nonlinear_arith)
            requires
                0 < l - f <= 1_000_000,
                0 < 2 * (a - f) <= 3_000_000,
        {}
        let half = (l - f) / 2;
        assert((l - f) * along < (half + 1) * (4 * (a - f))) by (nonlinear_arith)
            requires
                l - f == 2 * half,
                0 <= (l - f) * along <= (l - f) * (2 * (a - f)),
                a - f > 0,
        {}
        assert((l - f) * along / (4 * (a - f)) <= (l - f) / 2) by {
            crate::arith::lemma_floor_between(
                (l - f) * along,
                4 * (a - f),
                0,
                (l - f) / 2 + 1,
            );
        }
        assert(0 <= h * along <= h * (2 * (a - f))) by (nonlinear_arith)
            requires
                0 <= along <= 2 * (a - f),
                0 <= h <= MAX_HEIGHT,
        {}
        assert(h * (2 * (a - f)) <= 500_000 * 3_000_000) by (nonlinear_arith)
            requires
                0 <= h <= 500_000,
                0 < 2 * (a - f) <= 3_000_000,
        {}
        crate::arith::lemma_quotient_magnitude(h * along, 2 * (a - f));
            }
}

fn profile(period: i64, s: i64) -> (pose: TrackPose)
    requires
        -ARC_LIMIT <= period <= ARC_LIMIT,
        0 <= s,
        2 * s <= PERIOD_ARCLENGTH,
    ensures
        pose == half_profile(period as int, s as int),
        0 <= pose.x <= PERIOD_LENGTH / 2,
        pose.heading.run > 0,
        -2 * MAX_HEIGHT <= pose.heading.rise <= 2 * MAX_HEIGHT,
{
    let f = period_flat_length(period);
    let h = period_peak_height(period);
    let a = PERIOD_ARCLENGTH;
    let l = PERIOD_LENGTH;
    if 4 * s < f {
        TrackPose { x: s, y: 0, heading: Slope { run: 1, rise: 0 } }
    } else if 2 * a - 4 * s < f {
        TrackPose { x: (l - a + 2 * s) / 2, y: h, heading: Slope { run: 1, rise: 0 } }
    } else {
        let along = 4 * s - f;
        proof {
            lemma_half_profile_bounds(period as int, s as int);
        }
        TrackPose {
            x: f / 4 + (l - f) * along / (4 * (a - f)),
            y: h * along / (2 * (a - f)),
            heading: Slope { run: l - f, rise: 2 * h },
        }
    }
}

/// World position and heading of a point of the ground, given as the
/// distance travelled along it. Only the flat and the hills ground are
/// realised.
pub fn move_along_ground(ground: Ground, arc: i64) -> (pose: TrackPose)
    requires
        ground != Ground::Loops,
        -ARC_LIMIT <= arc <= ARC_LIMIT,
    ensures
        pose == ground_pose(ground, arc as int),
{
    match ground {
        Ground::Hills => {
            let k = period_index(arc);
            let a = PERIOD_ARCLENGTH;
            let q = arc - k * a;
            let s = if 2 * q > a { a - q } else { q };
            let pr = profile(k, s);
            let local = if 2 * q > a {
                TrackPose {
                    x: PERIOD_LENGTH - pr.x,
                    y: pr.y,
                    heading: Slope { run: pr.heading.run, rise: -pr.heading.rise },
                }
            } else {
                pr
            };
            proof {
                assert(k * PERIOD_LENGTH <= k * PERIOD_ARCLENGTH || k < 0) by (nonlinear_arith)
                    requires
                        PERIOD_LENGTH <= PERIOD_ARCLENGTH,
                {}
                assert(k >= 0 ==> 0 <= k * PERIOD_LENGTH <= k * PERIOD_ARCLENGTH) by (nonlinear_arith)
                    requires
                        0 < PERIOD_LENGTH <= PERIOD_ARCLENGTH,
                {}
                assert(k < 0 ==> k * PERIOD_ARCLENGTH <= k * PERIOD_LENGTH < 0) by (nonlinear_arith)
                    requires
                        0 < PERIOD_LENGTH <= PERIOD_ARCLENGTH,
                {}
            }
            TrackPose { x: k * PERIOD_LENGTH + local.x, y: local.y, heading: local.heading }
        },
        _ => TrackPose { x: arc, y: 0, heading: Slope { run: 1, rise: 0 } },
    }
}

/// Every period's peak height lies between zero and `MAX_HEIGHT`.
pub proof fn lemma_peak_height_bounds(period: int)
    ensures
        0 <= peak_height(period) <= MAX_HEIGHT,
        0 <= flat_length(period) <= 800_000,
{
    let sq = peak_height_squared(period);
    assert(0 <= flat_length(period) * 414_213 <= 800_000 * 414_213) by (nonlinear_arith)
        requires
            0 <= flat_length(period) <= 800_000,
    {}
    crate::arith::lemma_floor_sqrt_is_floor_sqrt(sq as nat);
    let h = peak_height(period);
    assert(h <= MAX_HEIGHT) by (nonlinear_arith)
        requires
            h >= 0,
            h * h <= MAX_HEIGHT * MAX_HEIGHT,
    {}
}

/// An arc position `q` past the start of a period lies in that period.
pub proof fn lemma_period_of_offset(period: int, q: int)
    requires
        0 <= q < PERIOD_ARCLENGTH,
    ensures
        period_of(period * PERIOD_ARCLENGTH + q) == period,
{
    let a = PERIOD_ARCLENGTH as int;
    assert(period * a <= period * a + q < (period + 1) * a) by (nonlinear_arith)
        requires
            0 <= q < a,
    {}
    crate::arith::lemma_floor_between(period * a + q, a, period, period + 1);
}

/// Mirror symmetry of a hills period: the points at arc distance `q` from the
/// start and from the end of a period stand at the same height, at offsets
/// within the period that add up to the period length, and face opposite
/// slopes; at the midpoint both are the same point.
pub proof fn lemma_hills_mirror(period: int, q: int)
    requires
        0 < q < PERIOD_ARCLENGTH,
    ensures
        ({
            let first = period * PERIOD_ARCLENGTH + q;
            let second = period * PERIOD_ARCLENGTH + (PERIOD_ARCLENGTH - q);
            &&& hills_pose(first).y == hills_pose(second).y
            &&& 2 * q != PERIOD_ARCLENGTH ==> hills_local(first).x + hills_local(second).x
                == PERIOD_LENGTH
            &&& 2 * q != PERIOD_ARCLENGTH ==> hills_pose(second).heading.run == hills_pose(
                first,
            ).heading.run
            &&& 2 * q != PERIOD_ARCLENGTH ==> hills_pose(second).heading.rise == -hills_pose(
                first,
            ).heading.rise
        }),
{
    let a = PERIOD_ARCLENGTH as int;
    lemma_period_of_offset(period, q);
    lemma_period_of_offset(period, a - q);
    let s = if 2 * q > a { a - q } else { q };
    lemma_half_profile_bounds(period, s);
}

/// Gravity, in length units per second squared, for each unit of gravity strength.
pub const GRAVITY_PER_STRENGTH: i64 = 50_000;

/// Largest magnitude of a heading component accepted by the slope model.
pub const SLOPE_LIMIT: i64 = 0x40_0000;

/// Fixed-point scale of the slope factor.
pub const FACTOR_ONE: i64 = 1_000_000;

/// The scalar velocity state of a side-scroll subject, in length units per second.
#[derive(Clone, Copy, Debug, PartialEq, Eq, Structural)]
pub struct BasicMovementController {
    pub velocity: i64,
}

impl Default for BasicMovementController {
    fn default() -> (c: Self)
        ensures
            c.velocity == 0,
    {
        BasicMovementController { velocity: 0 }
    }
}

impl Slope {
    pub open spec fn in_range(self) -> bool {
        0 < self.run <= SLOPE_LIMIT && -SLOPE_LIMIT <= self.rise <= SLOPE_LIMIT
    }
}

/// Gravity along the subject's own forward axis divided by its top
/// acceleration, times [`FACTOR_ONE`], rounded down. With the heading at angle
/// `theta` that is `-g * sin(theta) / (sign * max_speed / t_acc)`, where `sign`
/// is the sign of the intent, zero counting as positive.
pub open spec fn gravity_ratio(p: MotionParameters, heading: Slope, intent: int) -> int {
    let g = GRAVITY_PER_STRENGTH * p.gravity_strength;
    let sign = if intent < 0 { -1int } else { 1int };
    let norm = floor_sqrt((heading.run * heading.run + heading.rise * heading.rise) as nat);
    (-(g * heading.rise * p.t_acc) * sign) / (p.max_speed * norm)
}

/// The slope factor `sqrt(1 + r^2) + r` for a gravity ratio `r`, times
/// [`FACTOR_ONE`], with the root rounded up: below one uphill, above one
/// downhill, and never below one unit however steep the climb.
pub open spec fn slope_factor(ratio: int) -> int {
    ceil_sqrt((FACTOR_ONE * FACTOR_ONE + ratio * ratio) as nat) + ratio
}

/// The target velocity on a slope: the top speed in the direction of the
/// intent, scaled by the slope factor and rounded away from zero, so that a
/// non-zero intent always gives a target of its own sign.
pub open spec fn slope_target(p: MotionParameters, heading: Slope, intent: int) -> int {
    intent * (-((-(slope_factor(gravity_ratio(p, heading, intent)) * p.max_speed)) / (
    FACTOR_ONE as int)))
}

/// The target velocity for an intent of -1, 0 or 1 on ground with the given
/// heading; see [`slope_target`].
pub fn target_on_slope(params: &MotionParameters, heading: Slope, intent: i64) -> (t: i64)
    requires
        params.valid(),
        heading.in_range(),
        -1 <= intent <= 1,
    ensures
        t == slope_target(*params, heading, intent as int),
        -TARGET_LIMIT <= t <= TARGET_LIMIT,
        intent != 0 ==> t != 0 && (t > 0) == (intent > 0),
        intent == 0 ==> t == 0,
        heading.rise == 0 ==> t == intent * params.max_speed,
{
    let g = GRAVITY_PER_STRENGTH as i128 * params.gravity_strength as i128;
    let sign: i128 = if intent < 0 { -1 } else { 1 };
    let run = heading.run as i128;
    let rise = heading.rise as i128;
    proof {
        assert(0 <= run * run <= SLOPE_LIMIT * SLOPE_LIMIT && 0 <= rise * rise <= SLOPE_LIMIT * SLOPE_LIMIT) by (nonlinear_arith)
            requires
                0 < run <= SLOPE_LIMIT,
                -SLOPE_LIMIT <= rise <= SLOPE_LIMIT,
        {}
    }
    let norm_sq = run * run + rise * rise;
    let norm = isqrt(norm_sq as u128) as i128;
    let t_acc = params.t_acc as i128;
    let max_speed = params.max_speed as i128;
    proof {
        let nn = norm as int;
        assert(nn >= 1 && nn * nn <= norm_sq && nn <= 2 * SLOPE_LIMIT) by (nonlinear_arith)
            requires
                nn >= 0,
                nn * nn <= norm_sq < (nn + 1) * (nn + 1),
                norm_sq == run * run + rise * rise,
                0 < run <= SLOPE_LIMIT,
                -SLOPE_LIMIT <= rise <= SLOPE_LIMIT,
        {}
        assert(-nn <= rise <= nn) by (nonlinear_arith)
            requires
                nn >= 0,
                norm_sq < (nn + 1) * (nn + 1),
                norm_sq == run * run + rise * rise,
                run > 0,
        {}
        assert(0 <= g <= 50_000_000);
        assert(-50_000_000 * SLOPE_LIMIT <= g * rise <= 50_000_000 * SLOPE_LIMIT) by (nonlinear_arith)
            requires
                0 <= g <= 50_000_000,
                -SLOPE_LIMIT <= rise <= SLOPE_LIMIT,
        {}
        assert(-50_000_000 * SLOPE_LIMIT * 100_000_000 <= g * rise * t_acc <= 50_000_000 * SLOPE_LIMIT * 100_000_000) by (nonlinear_arith)
            requires
                -50_000_000 * SLOPE_LIMIT <= g * rise <= 50_000_000 * SLOPE_LIMIT,
                0 < t_acc <= 100_000_000,
        {}
        assert(0 < max_speed * norm <= 1_000_000_000 * 2 * SLOPE_LIMIT) by (nonlinear_arith)
            requires
                0 < max_speed <= 1_000_000_000,
                1 <= norm <= 2 * SLOPE_LIMIT,
        {}
    }
    let grt = g * rise * t_acc;
    proof {
        assert(-grt * sign == -(grt * sign)) by (nonlinear_arith);
        assert(-50_000_000 * SLOPE_LIMIT * 100_000_000 <= grt * sign <= 50_000_000 * SLOPE_LIMIT * 100_000_000) by (nonlinear_arith)
            requires
                -50_000_000 * SLOPE_LIMIT * 100_000_000 <= grt <= 50_000_000 * SLOPE_LIMIT * 100_000_000,
                sign == 1 || sign == -1,
        {}
    }
    let numer = -grt * sign;
    let denom = max_speed * norm;
    let ratio = floor_div(numer, denom);
    proof {
        lemma_ratio_bound(g as int, rise as int, t_acc as int, sign as int, max_speed as int, norm as int, ratio as int);
        let r = ratio as int;
        assert(r * r <= 2 * 50_000_000 * 100_000_000 * 50_000_000 * 100_000_000 + 2) by (nonlinear_arith)
            requires
                -r <= 50_000_000 * 100_000_000 + 1,
                r <= 50_000_000 * 100_000_000 + 1,
        {}
    }
    let one = FACTOR_ONE as i128;
    proof {
        assert(ratio * ratio >= 0) by (nonlinear_arith);
    }
    let root = ceil_isqrt((one * one + ratio * ratio) as u128) as i128;
    proof {
        lemma_factor_bounds(ratio as int, root as int);
    }
    let factor = root + ratio;
    proof {
        lemma_target_bound(factor as int, ratio as int, g as int, t_acc as int, max_speed as int);
    }
    let magnitude = -floor_div(-(factor * max_speed), one);
    proof {
        if heading.rise == 0 {
            assert(numer == 0) by (nonlinear_arith)
                requires
                    numer == -(g * rise * t_acc) * sign,
                    rise == 0,
            {}
            lemma_floor_between(numer as int, denom as int, 0, 1);
            lemma_level_factor(ratio as int);
            assert(factor * max_speed == FACTOR_ONE * max_speed);
            lemma_ceil_between(factor * max_speed, FACTOR_ONE as int, max_speed - 1, max_speed as int);
        }
    }
    proof {
        assert(-TARGET_LIMIT <= intent * magnitude <= TARGET_LIMIT) by (nonlinear_arith)
            requires
                -1 <= intent <= 1,
                0 <= magnitude <= TARGET_LIMIT,
        {}
        assert(intent != 0 ==> intent * magnitude != 0 && (intent * magnitude > 0) == (intent > 0)) by (nonlinear_arith)
            requires
                -1 <= intent <= 1,
                1 <= magnitude,
        {}
    }
    (intent as i128 * magnitude) as i64
}

/// The gravity ratio is no larger in magnitude than gravity times the time
/// constant over the top speed, give or take one.
proof fn lemma_ratio_bound(g: int, rise: int, t_acc: int, sign: int, max_speed: int, norm: int, ratio: int)
    requires
        0 <= g <= 50_000_000,
        -norm <= rise <= norm,
        0 < t_acc <= 100_000_000,
        sign == 1 || sign == -1,
        0 < max_speed,
        norm >= 1,
        ratio == (-(g * rise * t_acc) * sign) / (max_speed * norm),
    ensures
        ratio * max_speed <= g * t_acc,
        -ratio * max_speed <= g * t_acc + max_speed,
        -ratio <= 50_000_000 * 100_000_000 + 1,
        ratio <= 50_000_000 * 100_000_000,
        0 <= g * t_acc <= 50_000_000 * 100_000_000,
{
    let n = -(g * rise * t_acc) * sign;
    let d = max_speed * norm;
    assert(d > 0) by (nonlinear_arith)
        requires
            max_speed > 0,
            norm >= 1,
            d == max_speed * norm,
    {}
    assert(-g * t_acc * norm <= n <= g * t_acc * norm) by (nonlinear_arith)
        requires
            0 <= g,
            0 < t_acc,
            -norm <= rise <= norm,
            sign == 1 || sign == -1,
            n == -(g * rise * t_acc) * sign,
    {}
    vstd::arithmetic::div_mod::lemma_fundamental_div_mod(n, d);
    assert(ratio * d <= n < (ratio + 1) * d) by (nonlinear_arith)
        requires
            n == d * ratio + n % d,
            0 <= n % d < d,
    {}
    assert(ratio * max_speed <= g * t_acc) by (nonlinear_arith)
        requires
            ratio * (max_speed * norm) <= n,
            n <= g * t_acc * norm,
            norm >= 1,
    {}
    assert(-ratio * max_speed <= g * t_acc + max_speed) by (nonlinear_arith)
        requires
            n < (ratio + 1) * (max_speed * norm),
            -g * t_acc * norm <= n,
            norm >= 1,
            max_speed > 0,
    {}
    assert(0 <= g * t_acc) by (nonlinear_arith)
        requires
            0 <= g,
            0 < t_acc,
    {}
    assert(ratio <= g * t_acc) by (nonlinear_arith)
        requires
            ratio * max_speed <= g * t_acc,
            max_speed >= 1,
            g * t_acc >= 0,
    {}
    assert(-ratio <= g * t_acc + 1) by (nonlinear_arith)
        requires
            -ratio * max_speed <= g * t_acc + max_speed,
            max_speed >= 1,
            g * t_acc >= 0,
    {}
    assert(g * t_acc <= 50_000_000 * 100_000_000) by (nonlinear_arith)
        requires
            0 <= g <= 50_000_000,
            0 < t_acc <= 100_000_000,
    {}
}

/// The slope factor is at least one unit and exceeds twice the ratio's
/// magnitude by at most [`FACTOR_ONE`].
proof fn lemma_factor_bounds(ratio: int, root: int)
    requires
        root == ceil_sqrt((FACTOR_ONE * FACTOR_ONE + ratio * ratio) as nat),
    ensures
        root + ratio >= 1,
        root <= FACTOR_ONE + (if ratio < 0 { -ratio } else { ratio }),
{
    let m = if ratio < 0 { -ratio } else { ratio };
    let n = FACTOR_ONE * FACTOR_ONE + ratio * ratio;
    assert(m * m == ratio * ratio && n > 0) by (nonlinear_arith)
        requires
            m == ratio || m == -ratio,
            n == FACTOR_ONE * FACTOR_ONE + ratio * ratio,
    {}
    lemma_ceil_sqrt_bounds(n as nat);
    assert(m + 1 <= root) by (nonlinear_arith)
        requires
            m >= 0,
            root >= 0,
            n == FACTOR_ONE * FACTOR_ONE + m * m,
            n <= root * root,
    {}
    assert(root <= FACTOR_ONE + m) by (nonlinear_arith)
        requires
            m >= 0,
            root >= 0,
            n == FACTOR_ONE * FACTOR_ONE + m * m,
            (root - 1) * (root - 1) < n,
    {}
}

/// On level ground the slope factor is exactly one.
proof fn lemma_level_factor(ratio: int)
    requires
        ratio == 0,
    ensures
        slope_factor(ratio) == FACTOR_ONE,
{
    let n = (FACTOR_ONE * FACTOR_ONE) as nat;
    crate::arith::lemma_floor_sqrt_is_floor_sqrt(n);
    crate::arith::lemma_floor_sqrt_unique(n as int, floor_sqrt(n) as int, FACTOR_ONE as int);
}

proof fn lemma_target_bound(factor: int, ratio: int, g: int, t_acc: int, max_speed: int)
    requires
        factor >= 1,
        factor <= FACTOR_ONE + 2 * (if ratio < 0 { -ratio } else { ratio }),
        ratio * max_speed <= g * t_acc,
        -ratio * max_speed <= g * t_acc + max_speed,
        0 <= g * t_acc <= 50_000_000 * 100_000_000,
        0 < max_speed <= 1_000_000_000,
    ensures
        1 <= factor * max_speed <= 20_000_000_000_000_000,
        1 <= -((-(factor * max_speed)) / (FACTOR_ONE as int)) <= TARGET_LIMIT,
{
    assert(0 <= factor * max_speed <= FACTOR_ONE * max_speed + 2 * (g * t_acc + max_speed)) by (nonlinear_arith)
        requires
            factor >= 1,
            factor <= FACTOR_ONE + 2 * (if ratio < 0 { -ratio } else { ratio }),
            ratio * max_speed <= g * t_acc,
            -ratio * max_speed <= g * t_acc + max_speed,
            max_speed > 0,
    {}
    assert(1 <= factor * max_speed) by (nonlinear_arith)
        requires
            factor >= 1,
            max_speed >= 1,
    {}
    lemma_ceil_between(factor * max_speed, FACTOR_ONE as int, 0, TARGET_LIMIT as int);
}

/// One tick of side-scroll movement: the target velocity follows the intent
/// and the slope of the ground under the subject, the velocity takes one
/// integrator step toward it, and the subject moves along the ground at the
/// new velocity. The multiplier is `1.0` when the intent agrees in sign with
/// the velocity, `alpha_rev` when it opposes it, and `alpha_stop` without intent.
pub fn apply_movement(
    params: &MotionParameters,
    intent: i64,
    heading: Slope,
    controller: &mut BasicMovementController,
    arc: &mut PositionAlongGround,
    dt: i64,
)
    requires
        params.valid(),
        heading.in_range(),
        -1 <= intent <= 1,
        0 < dt <= DT_LIMIT,
        -VELOCITY_LIMIT <= old(controller).velocity <= VELOCITY_LIMIT,
        -ARC_LIMIT <= old(arc).0 <= ARC_LIMIT,
    ensures
        final(controller).velocity == next_velocity(
            *params,
            old(controller).velocity as int,
            slope_target(*params, heading, intent as int),
            dt as int,
        ),
        final(arc).0 == advanced(old(arc).0 as int, final(controller).velocity as int, dt as int),
        -VELOCITY_LIMIT <= final(controller).velocity <= VELOCITY_LIMIT,
        intent == 0 ==> final(controller).velocity == blend(
            *params,
            params.alpha_stop as int,
            old(controller).velocity as int,
            0,
            dt as int,
        ),
        intent != 0 && (intent < 0) == (old(controller).velocity < 0) ==> final(controller).velocity
            == blend(
            *params,
            ALPHA_ONE as int,
            old(controller).velocity as int,
            slope_target(*params, heading, intent as int),
            dt as int,
        ),
        intent != 0 && (intent < 0) != (old(controller).velocity < 0) ==> final(controller).velocity
            == blend(
            *params,
            params.alpha_rev as int,
            old(controller).velocity as int,
            slope_target(*params, heading, intent as int),
            dt as int,
        ),
{
    let target = target_on_slope(params, heading, intent);
    let v = integrate_velocity(params, controller.velocity, target, dt);
    controller.velocity = v;
    arc.0 = advance(arc.0, v, dt);
}

/// The outline of one hills period: its start, the foot and the top of the
/// rising ramp, the top and the foot of the falling ramp, and its end.
pub open spec fn outline_spec(period: int) -> Seq<Point> {
    let start = period * PERIOD_LENGTH;
    let slope_start = flat_length(period) / 4;
    let slope_end = PERIOD_LENGTH / 2 - slope_start;
    let downslope_start = PERIOD_LENGTH / 2 + slope_start;
    let downslope_end = PERIOD_LENGTH - slope_start;
    let h = peak_height(period);
    seq![
        Point { x: start as i64, y: 0 },
        Point { x: (start + slope_start) as i64, y: 0 },
        Point { x: (start + slope_end) as i64, y: h as i64 },
        Point { x: (start + downslope_start) as i64, y: h as i64 },
        Point { x: (start + downslope_end) as i64, y: 0 },
        Point { x: (start + PERIOD_LENGTH) as i64, y: 0 },
    ]
}

/// The corner points of one hills period, in order along the ground.
pub fn hills_outline(period: i64) -> (points: Vec<Point>)
    requires
        -ARC_LIMIT <= period <= ARC_LIMIT,
    ensures
        points@ == outline_spec(period as int),
{
    let f = period_flat_length(period);
    let h = period_peak_height(period);
    let start = period as i128 * PERIOD_LENGTH as i128;
    let slope_start = (f / 4) as i128;
    let half = (PERIOD_LENGTH / 2) as i128;
    let whole = PERIOD_LENGTH as i128;
    let rise_end = start + half - slope_start;
    let fall_end = start + whole - slope_start;
    let points = vec![
        Point { x: start as i64, y: 0 },
        Point { x: (start + slope_start) as i64, y: 0 },
        Point { x: rise_end as i64, y: h },
        Point { x: (start + half + slope_start) as i64, y: h },
        Point { x: fall_end as i64, y: 0 },
        Point { x: (start + whole) as i64, y: 0 },
    ];
    proof {
        assert(points@ =~= outline_spec(period as int));
    }
    points
}

} // verus!
