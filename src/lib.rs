//! Movement-and-terrain core of a character-motion sandbox, in exact integer
//! arithmetic.
//!
//! Lengths are fixed-point values in thousandths of a world unit, durations are
//! microseconds, and damping multipliers are thousandths (`1000` is `1.0`).
//! The rendering layer converts to and from its own floating-point values.

pub mod arith;
pub mod camera;
pub mod height_field;
pub mod motion;
pub mod player;
pub mod side_scroll;
pub mod top_down;
pub mod wrap;
