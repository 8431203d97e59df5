//! The outward normal of the top-down height field, from its slopes.
//!
//! Slopes and normal components are fixed-point values in millionths. The
//! normal of a surface with slopes `(gx, gy)` is `(-gx, -gy, 1)` scaled to unit
//! length; its vertical component is never zero, so the scaling is always defined.

use vstd::prelude::*;
use crate::arith::{div_toward, floor_sqrt, isqrt, round_toward};

verus! {

/// Fixed-point scale of slopes and normal components.
pub const UNIT: i64 = 1_000_000;

/// Largest magnitude of a slope component.
pub const GRADIENT_LIMIT: i64 = 1_000_000_000_000;

/// A unit vector in millionths, up to rounding.
#[derive(Clone, Copy, Debug, PartialEq, Eq, Structural)]
pub struct Normal {
    pub x: i64,
    pub y: i64,
    pub z: i64,
}

/// The length of `(-gx, -gy, 1)`, in millionths, rounded down.
pub open spec fn normal_length(gx: int, gy: int) -> int {
    floor_sqrt((gx * gx + gy * gy + UNIT * UNIT) as nat) as int
}

/// The normal for slopes `gx = dh/dx` and `gy = dh/dy`: each component of
/// `(-gx, -gy, 1)` divided by its length, rounded toward zero.
pub open spec fn normal_of(gx: int, gy: int) -> Normal {
    let len = normal_length(gx, gy);
    Normal {
        x: round_toward(-gx * UNIT, len, 0) as i64,
        y: round_toward(-gy * UNIT, len, 0) as i64,
        z: round_toward(UNIT * UNIT, len, 0) as i64,
    }
}

/// The outward normal of the surface where its slopes are `gx` and `gy`.
pub fn surface_normal(gx: i64, gy: i64) -> (n: Normal)
    requires
        -GRADIENT_LIMIT <= gx <= GRADIENT_LIMIT,
        -GRADIENT_LIMIT <= gy <= GRADIENT_LIMIT,
    ensures
        n == normal_of(gx as int, gy as int),
{
    proof {
        assert(0 <= gx * gx <= GRADIENT_LIMIT * GRADIENT_LIMIT) by (nonlinear_arith)
            requires
                -GRADIENT_LIMIT <= gx <= GRADIENT_LIMIT,
        {}
        assert(0 <= gy * gy <= GRADIENT_LIMIT * GRADIENT_LIMIT) by (nonlinear_arith)
            requires
                -GRADIENT_LIMIT <= gy <= GRADIENT_LIMIT,
        {}
    }
    let x = gx as i128;
    let y = gy as i128;
    let one = UNIT as i128;
    let sq = x * x + y * y + one * one;
    let len = isqrt(sq as u128) as i128;
    proof {
        let l = len as int;
        assert(UNIT <= l) by (nonlinear_arith)
            requires
                l >= 0,
                sq < (l + 1) * (l + 1),
                sq >= UNIT * UNIT,
        {}
        assert(l <= 2 * GRADIENT_LIMIT) by (nonlinear_arith)
            requires
                l >= 0,
                l * l <= sq,
                sq <= 2 * GRADIENT_LIMIT * GRADIENT_LIMIT + UNIT * UNIT,
        {}
        assert(-x * UNIT <= GRADIENT_LIMIT * UNIT && -y * UNIT <= GRADIENT_LIMIT * UNIT);
        lemma_component_bound(-x * UNIT, l);
        lemma_component_bound(-y * UNIT, l);
        lemma_component_bound(UNIT * UNIT, l);
    }
    Normal {
        x: div_toward(-x * one, len, 0) as i64,
        y: div_toward(-y * one, len, 0) as i64,
        z: div_toward(one * one, len, 0) as i64,
    }
}

proof fn lemma_component_bound(n: int, len: int)
    requires
        -GRADIENT_LIMIT * UNIT <= n <= GRADIENT_LIMIT * UNIT,
        len >= UNIT,
    ensures
        -GRADIENT_LIMIT <= round_toward(n, len, 0) <= GRADIENT_LIMIT,
{
    let k = GRADIENT_LIMIT as int;
    assert(-k * len <= n <= k * len) by (nonlinear_arith)
        requires
            -k * UNIT <= n <= k * UNIT,
            len >= UNIT,
            k > 0,
    {}
    assert((-k - 1) * len < n && n < (k + 1) * len) by (nonlinear_arith)
        requires
            -k * len <= n <= k * len,
            len > 0,
    {}
    crate::arith::lemma_floor_between(n, len, -k, k + 1);
    crate::arith::lemma_ceil_between(n, len, -k - 1, k);
}

/// Where the surface is level, the normal is exactly the up axis.
pub proof fn lemma_level_normal_is_up()
    ensures
        normal_of(0, 0) == (Normal { x: 0, y: 0, z: UNIT }),
{
    let len = normal_length(0, 0);
    crate::arith::lemma_floor_sqrt_is_floor_sqrt((UNIT * UNIT) as nat);
    crate::arith::lemma_floor_sqrt_unique(UNIT * UNIT, len, UNIT as int);
    crate::arith::lemma_floor_between(UNIT * UNIT, UNIT as int, UNIT as int, UNIT + 1);
}

} // verus!
