//! Whole-number vectors and the few operations the game needs on them.
//!
//! Lengths are counted in thousandths of a pixel and times in milliseconds,
//! so that a speed in pixels per second is also a number of length units per
//! millisecond, and a movement is a product without rounding.

use vstd::prelude::*;

verus! {

/// Length units in one pixel.
pub const UNITS_PER_PIXEL: i64 = 1000;

/// Largest length, position or distance that a game object may have.
pub const COORD_MAX: i64 = 0x1000_0000_0000;

/// Largest speed along one axis, in pixels per second.
pub const SPEED_MAX: i64 = 1_000_000;

/// A point, an extent or a velocity in the plane.
#[derive(Clone, Copy, Debug, PartialEq, Eq, Structural)]
pub struct Vec2 {
    pub x: i64,
    pub y: i64,
}

impl Vec2 {
    /// Both coordinates lie within `limit` of zero.
    pub open spec fn within(self, limit: int) -> bool {
        -limit <= self.x <= limit && -limit <= self.y <= limit
    }

    /// The vector with the given coordinates.
    pub fn new(x: i64, y: i64) -> (v: Vec2)
        ensures
            v == (Vec2 { x, y }),
    {
        Vec2 { x, y }
    }
}

/// `value` moved into the range from `low` to `high`.
pub open spec fn clamped(value: int, low: int, high: int) -> int {
    if value < low {
        low
    } else if value > high {
        high
    } else {
        value
    }
}

/// Moves `value` into the range from `low` to `high`.
pub fn clamp(value: i64, low: i64, high: i64) -> (r: i64)
    requires
        low <= high,
    ensures
        r as int == clamped(value as int, low as int, high as int),
{
    if value < low {
        low
    } else if value > high {
        high
    } else {
        value
    }
}

/// The distance of `value` from zero.
pub open spec fn magnitude(value: int) -> int {
    if value < 0 {
        -value
    } else {
        value
    }
}

/// The distance of `value` from zero.
pub fn abs(value: i64) -> (r: i64)
    requires
        value > i64::MIN,
    ensures
        r as int == magnitude(value as int),
{
    if value < 0 {
        -value
    } else {
        value
    }
}

/// `value` divided by a positive `by`, rounded toward zero.
pub open spec fn toward_zero(value: int, by: int) -> int {
    if value < 0 {
        -((-value) / by)
    } else {
        value / by
    }
}

/// Divides by a positive number and rounds toward zero.
pub fn div_toward_zero(value: i64, by: i64) -> (r: i64)
    requires
        by > 0,
        value > i64::MIN,
    ensures
        r as int == toward_zero(value as int, by as int),
        magnitude(r as int) <= magnitude(value as int),
{
    if value < 0 {
        let positive: u64 = (-value) as u64;
        let q: u64 = positive / (by as u64);
        assert(q <= positive) by (nonlinear_arith)
            requires
                q == positive / (by as u64),
                by >= 1,
        ;
        -(q as i64)
    } else {
        let positive: u64 = value as u64;
        let q: u64 = positive / (by as u64);
        assert(q <= positive) by (nonlinear_arith)
            requires
                q == positive / (by as u64),
                by >= 1,
        ;
        q as i64
    }
}

/// `root` is the whole part of the square root of `n`.
pub open spec fn is_sqrt(n: int, root: int) -> bool {
    0 <= root && root * root <= n < (root + 1) * (root + 1)
}

/// A number has one whole square root only.
pub proof fn lemma_sqrt_unique(n: int, a: int, b: int)
    requires
        is_sqrt(n, a),
        is_sqrt(n, b),
    ensures
        a == b,
{
    if a < b {
        assert((a + 1) * (a + 1) <= b * b) by (nonlinear_arith)
            requires
                0 <= a + 1 <= b,
        ;
    } else if b < a {
        assert((b + 1) * (b + 1) <= a * a) by (nonlinear_arith)
            requires
                0 <= b + 1 <= a,
        ;
    }
}

/// The whole part of the square root of `n`.
pub fn isqrt(n: u64) -> (root: u64)
    ensures
        is_sqrt(n as int, root as int),
{
    let mut low: u64 = 0;
    let mut high: u64 = 0x1_0000_0000;
    assert(0x1_0000_0000int * 0x1_0000_0000int > n) by (nonlinear_arith)
        requires
            n <= 0xFFFF_FFFF_FFFF_FFFF,
    ;
    while high - low > 1
        invariant
            low < high <= 0x1_0000_0000,
            low * low <= n,
            n < high * high,
        decreases high - low,
    {
        let mid: u64 = low + (high - low) / 2;
        assert(mid * mid < 0x1_0000_0000int * 0x1_0000_0000int) by (nonlinear_arith)
            requires
                0 <= mid < 0x1_0000_0000,
        ;
        if mid * mid <= n {
            low = mid;
        } else {
            high = mid;
        }
    }
    low
}

} // verus!
