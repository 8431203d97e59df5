//! Toroidal wrap of positions within a rectangle centred on the origin.

use vstd::prelude::*;
use crate::arith::floor_div;
use crate::camera::{COORD_LIMIT, Point};

verus! {

/// One axis of the wrap: `((p + size / 2) mod size) - size / 2`, with a
/// remainder that is never negative.
pub open spec fn wrap_axis(p: int, size: int) -> int {
    (p + size / 2) % size - size / 2
}

/// A position wrapped into a rectangle of the given size.
pub open spec fn wrapped(p: Point, width: int, height: int) -> Point {
    Point { x: wrap_axis(p.x as int, width) as i64, y: wrap_axis(p.y as int, height) as i64 }
}

fn wrap_coordinate(p: i64, size: i64) -> (w: i64)
    requires
        -COORD_LIMIT <= p <= COORD_LIMIT,
        0 < size <= COORD_LIMIT,
    ensures
        w == wrap_axis(p as int, size as int),
        -(size / 2) <= w < size - size / 2,
{
    let half = size / 2;
    let shifted = (p + half) as i128;
    let q = floor_div(shifted, size as i128);
    proof {
        vstd::arithmetic::div_mod::lemma_fundamental_div_mod(shifted as int, size as int);
    }
    let rem = shifted - (size as i128) * q;
    (rem - half as i128) as i64
}

/// Wraps a position into the rectangle `[-width/2, width/2) x [-height/2, height/2)`
/// (halves rounded down), as a torus.
pub fn apply_screen_wrap(position: Point, width: i64, height: i64) -> (w: Point)
    requires
        position.in_range(),
        0 < width <= COORD_LIMIT,
        0 < height <= COORD_LIMIT,
    ensures
        w == wrapped(position, width as int, height as int),
{
    Point { x: wrap_coordinate(position.x, width), y: wrap_coordinate(position.y, height) }
}

/// A wrapped position lies in the rectangle, and wrapping it again leaves it
/// where it is.
pub proof fn lemma_wrap_in_range_and_idempotent(p: Point, width: int, height: int)
    requires
        p.in_range(),
        0 < width <= COORD_LIMIT,
        0 < height <= COORD_LIMIT,
    ensures
        -(width / 2) <= wrapped(p, width, height).x < width - width / 2,
        -(height / 2) <= wrapped(p, width, height).y < height - height / 2,
        2 * wrapped(p, width, height).x < width,
        -width <= 2 * wrapped(p, width, height).x,
        2 * wrapped(p, width, height).y < height,
        -height <= 2 * wrapped(p, width, height).y,
        wrapped(wrapped(p, width, height), width, height) == wrapped(p, width, height),
{
    lemma_wrap_axis(p.x as int, width);
    lemma_wrap_axis(p.y as int, height);
    let w = wrapped(p, width, height);
    lemma_wrap_axis(w.x as int, width);
    lemma_wrap_axis(w.y as int, height);
}

proof fn lemma_wrap_axis(p: int, size: int)
    requires
        size > 0,
    ensures
        -(size / 2) <= wrap_axis(p, size) < size - size / 2,
        -(size / 2) <= p < size - size / 2 ==> wrap_axis(p, size) == p,
{
    let s = p + size / 2;
    vstd::arithmetic::div_mod::lemma_fundamental_div_mod(s, size);
    if -(size / 2) <= p < size - size / 2 {
        crate::arith::lemma_floor_between(s, size, 0, 1);
    }
}

} // verus!
