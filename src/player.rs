//! The controlled subject's intent, read from the directional keys.

use vstd::prelude::*;
use crate::arith::isqrt;

verus! {

/// Fixed-point scale of an intent component: `INTENT_ONE` is `1.0`.
pub const INTENT_ONE: i64 = 1_000_000;

/// A component of a unit diagonal: the floor of `INTENT_ONE / sqrt(2)`.
pub const DIAGONAL: i64 = 707_106;

/// Marks the entity that the input controls.
#[derive(Clone, Copy, Debug, PartialEq, Eq, Structural)]
pub struct Player;

/// Desired direction of movement in millionths: the zero vector or, up to
/// rounding, a unit vector.
#[derive(Clone, Copy, Debug, PartialEq, Eq, Structural)]
pub struct MovementIntent {
    pub x: i64,
    pub y: i64,
}

impl MovementIntent {
    /// No longer than one.
    pub open spec fn valid(self) -> bool {
        &&& -INTENT_ONE <= self.x <= INTENT_ONE
        &&& -INTENT_ONE <= self.y <= INTENT_ONE
        &&& self.x * self.x + self.y * self.y <= INTENT_ONE * INTENT_ONE
    }

    pub open spec fn is_zero(self) -> bool {
        self.x == 0 && self.y == 0
    }
}

impl Default for MovementIntent {
    fn default() -> (i: Self)
        ensures
            i.x == 0 && i.y == 0,
    {
        MovementIntent { x: 0, y: 0 }
    }
}

/// The sum of a pair of opposing keys: -1, 0 or 1.
pub open spec fn key_axis(negative: bool, positive: bool) -> int {
    (if positive { 1int } else { 0int }) - (if negative { 1int } else { 0int })
}

/// The side-scroll intent for the left and right keys.
pub fn axis_intent(left: bool, right: bool) -> (i: i64)
    ensures
        i == key_axis(left, right),
{
    let mut i: i64 = 0;
    if left {
        i = i - 1;
    }
    if right {
        i = i + 1;
    }
    i
}

/// The normalised intent for a raw direction of -1, 0 or 1 on each axis.
pub open spec fn normalized_intent(dx: int, dy: int) -> MovementIntent {
    if dx != 0 && dy != 0 {
        MovementIntent { x: (dx * DIAGONAL) as i64, y: (dy * DIAGONAL) as i64 }
    } else {
        MovementIntent { x: (dx * INTENT_ONE) as i64, y: (dy * INTENT_ONE) as i64 }
    }
}

/// The top-down intent for the four directional keys: their sum on each
/// axis, scaled to unit length, or zero where the keys cancel out.
pub fn planar_intent(left: bool, right: bool, down: bool, up: bool) -> (i: MovementIntent)
    ensures
        i == normalized_intent(key_axis(left, right), key_axis(down, up)),
        i.valid(),
{
    let dx = axis_intent(left, right);
    let dy = axis_intent(down, up);
    if dx != 0 && dy != 0 {
        let r = isqrt(500_000_000_000);
        proof {
            assert(707_106 * 707_106 <= 500_000_000_000int);
            assert(500_000_000_000int < 707_107 * 707_107);
            crate::arith::lemma_floor_sqrt_unique(500_000_000_000, r as int, 707_106);
        }
        let d = r as i64;
        let x = if dx < 0 { -d } else { d };
        let y = if dy < 0 { -d } else { d };
        proof {
            assert(x * x + y * y <= INTENT_ONE * INTENT_ONE) by (nonlinear_arith)
                requires
                    x == 707_106 || x == -707_106,
                    y == 707_106 || y == -707_106,
            {}
        }
        MovementIntent { x, y }
    } else {
        let x = if dx < 0 { -INTENT_ONE } else if dx > 0 { INTENT_ONE } else { 0 };
        let y = if dy < 0 { -INTENT_ONE } else if dy > 0 { INTENT_ONE } else { 0 };
        proof {
            assert(x * x + y * y <= INTENT_ONE * INTENT_ONE) by (nonlinear_arith)
                requires
                    x == 1_000_000 || x == -1_000_000 || x == 0,
                    y == 1_000_000 || y == -1_000_000 || y == 0,
                    x == 0 || y == 0,
            {}
        }
        MovementIntent { x, y }
    }
}

} // verus!
