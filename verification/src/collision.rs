//! Telling whether two boxes, or the ball and a box, touch, and from which
//! side the ball came.

use vstd::prelude::*;
use crate::ball_object::BallObject;
use crate::game_object::GameObject;
use crate::math::clamp;
use crate::math::clamped;
use crate::math::magnitude;
use crate::math::Vec2;

verus! {

/// A side of a box, named by the direction that its face looks in.
#[derive(Clone, Copy, Debug, PartialEq, Eq, Structural)]
pub enum Direction {
    Up,
    Right,
    Down,
    Left,
}

/// Whether the ball touches a box, and, if so, how it lies to it.
#[derive(Clone, Copy, Debug, PartialEq, Eq, Structural)]
pub struct Collision {
    pub hit: bool,
    /// The axis direction nearest to `difference`.
    pub direction: Direction,
    /// From the ball's centre to the point of the box closest to it.
    pub difference: Vec2,
}

/// Two boxes overlap when neither lies wholly to one side of the other;
/// boxes that share an edge overlap.
pub open spec fn boxes_overlap(one: GameObject, two: GameObject) -> bool {
    &&& one.right() >= two.position.x
    &&& two.right() >= one.position.x
    &&& one.bottom() >= two.position.y
    &&& two.bottom() >= one.position.y
}

/// The square of the distance between two points.
pub open spec fn distance_squared(ax: int, ay: int, bx: int, by: int) -> int {
    (ax - bx) * (ax - bx) + (ay - by) * (ay - by)
}

/// A circle touches a box when some point of the box lies closer to the
/// circle's centre than the radius.
pub open spec fn circle_touches(cx: int, cy: int, radius: int, target: GameObject) -> bool {
    exists|px: int, py: int| #[trigger]
        target.covers(px, py) && distance_squared(cx, cy, px, py) < radius * radius
}

/// The point of the box closest to a point.
pub open spec fn closest_point(cx: int, cy: int, target: GameObject) -> (int, int) {
    (
        clamped(cx, target.position.x as int, target.right()),
        clamped(cy, target.position.y as int, target.bottom()),
    )
}

/// The axis direction that a vector points along most: up for one whose
/// `y` is at least as large as its `x` in magnitude, the null vector
/// included, then right, down and left in the same way, each side only
/// where none before it applies.
pub open spec fn direction_of(v: Vec2) -> Direction {
    if v.y >= magnitude(v.x as int) {
        Direction::Up
    } else if v.x >= magnitude(v.y as int) {
        Direction::Right
    } else if -v.y >= magnitude(v.x as int) {
        Direction::Down
    } else {
        Direction::Left
    }
}

/// What the collision test of a ball against a box answers.
pub open spec fn collision_of(ball: BallObject, target: GameObject) -> Collision {
    let (cx, cy) = ball.center();
    let (px, py) = closest_point(cx, cy, target);
    let difference = Vec2 { x: (px - cx) as i64, y: (py - cy) as i64 };
    if distance_squared(cx, cy, px, py) < ball.radius * ball.radius {
        Collision { hit: true, direction: direction_of(difference), difference }
    } else {
        Collision { hit: false, direction: Direction::Up, difference: Vec2 { x: 0, y: 0 } }
    }
}

/// No point of an interval is closer to a number than the number clamped
/// to the interval.
proof fn lemma_clamp_is_closest(c: int, low: int, high: int, p: int)
    requires
        low <= p <= high,
    ensures
        (c - clamped(c, low, high)) * (c - clamped(c, low, high)) <= (c - p) * (c - p),
{
    let q = clamped(c, low, high);
    assert((c - q) * (c - q) <= (c - p) * (c - p)) by (nonlinear_arith)
        requires
            (0 <= c - q <= c - p) || (c - p <= c - q <= 0),
    ;
}

/// The clamped centre decides: a circle touches a box exactly when the
/// point of the box closest to its centre lies closer than the radius.
pub proof fn lemma_closest_point_decides(cx: int, cy: int, radius: int, target: GameObject)
    requires
        target.size.x >= 0,
        target.size.y >= 0,
    ensures
        circle_touches(cx, cy, radius, target) <==> distance_squared(
            cx,
            cy,
            closest_point(cx, cy, target).0,
            closest_point(cx, cy, target).1,
        ) < radius * radius,
{
    let (qx, qy) = closest_point(cx, cy, target);
    assert(target.covers(qx, qy));
    if circle_touches(cx, cy, radius, target) {
        let (px, py) = choose|px: int, py: int| #[trigger]
            target.covers(px, py) && distance_squared(cx, cy, px, py) < radius * radius;
        lemma_clamp_is_closest(cx, target.position.x as int, target.right(), px);
        lemma_clamp_is_closest(cy, target.position.y as int, target.bottom(), py);
    }
}

/// A ball whose centre lies on a box, a corner for one, touches the box.
pub proof fn lemma_center_on_box_touches(ball: BallObject, target: GameObject)
    requires
        ball.wf(),
        target.wf(),
        target.covers(ball.center().0, ball.center().1),
    ensures
        collision_of(ball, target).hit,
{
    let r = ball.radius as int;
    let (cx, cy) = ball.center();
    assert(closest_point(cx, cy, target) == (cx, cy));
    assert(distance_squared(cx, cy, cx, cy) == 0) by (nonlinear_arith);
    assert(0 < r * r) by (nonlinear_arith)
        requires
            0 < r,
    ;
}

/// A ball whose centre is further than its radius from a box along one
/// axis, so that it lies outside the box grown by the radius on every side,
/// does not touch the box.
pub proof fn lemma_outside_grown_box_misses(ball: BallObject, target: GameObject)
    requires
        ball.wf(),
        target.wf(),
        ball.center().0 <= target.position.x - ball.radius || ball.center().0 >= target.right()
            + ball.radius || ball.center().1 <= target.position.y - ball.radius || ball.center().1
            >= target.bottom() + ball.radius,
    ensures
        !collision_of(ball, target).hit,
        !circle_touches(ball.center().0, ball.center().1, ball.radius as int, target),
{
    let (cx, cy) = ball.center();
    let (px, py) = closest_point(cx, cy, target);
    let r = ball.radius as int;
    let dx = cx - px;
    let dy = cy - py;
    assert(dx * dx + dy * dy >= r * r) by (nonlinear_arith)
        requires
            r > 0,
            dx >= r || dx <= -r || dy >= r || dy <= -r,
    ;
    lemma_closest_point_decides(cx, cy, r, target);
}

/// The box grown by a radius: every point that lies no further than
/// `radius` from some point of the box.
pub open spec fn in_grown_box(cx: int, cy: int, radius: int, target: GameObject) -> bool {
    exists|px: int, py: int| #[trigger]
        target.covers(px, py) && distance_squared(cx, cy, px, py) <= radius * radius
}

/// A ball whose centre lies outside the box grown by the ball's radius does
/// not touch the box.
pub proof fn lemma_outside_reach_misses(ball: BallObject, target: GameObject)
    requires
        ball.wf(),
        target.wf(),
        !in_grown_box(ball.center().0, ball.center().1, ball.radius as int, target),
    ensures
        !collision_of(ball, target).hit,
{
    let (cx, cy) = ball.center();
    let (px, py) = closest_point(cx, cy, target);
    assert(target.covers(px, py));
}

/// Two boxes overlap exactly when they have a point in common.
pub proof fn lemma_overlap_is_common_point(one: GameObject, two: GameObject)
    requires
        one.size.x >= 0,
        one.size.y >= 0,
        two.size.x >= 0,
        two.size.y >= 0,
    ensures
        boxes_overlap(one, two) <==> exists|x: int, y: int| #[trigger]
            one.covers(x, y) && two.covers(x, y),
{
    if boxes_overlap(one, two) {
        let x = if one.position.x >= two.position.x {
            one.position.x as int
        } else {
            two.position.x as int
        };
        let y = if one.position.y >= two.position.y {
            one.position.y as int
        } else {
            two.position.y as int
        };
        assert(one.covers(x, y) && two.covers(x, y));
    }
}

/// Whether two boxes overlap.
pub fn check_collision(one: &GameObject, two: &GameObject) -> (overlap: bool)
    requires
        one.wf(),
        two.wf(),
    ensures
        overlap == boxes_overlap(*one, *two),
{
    let x = one.position.x + one.size.x >= two.position.x && two.position.x + two.size.x
        >= one.position.x;
    let y = one.position.y + one.size.y >= two.position.y && two.position.y + two.size.y
        >= one.position.y;
    x && y
}

/// The axis direction that a vector points along most.
pub fn vector_direction(target: Vec2) -> (direction: Direction)
    requires
        target.x > i64::MIN,
        target.y > i64::MIN,
    ensures
        direction == direction_of(target),
{
    let ax = if target.x < 0 {
        -target.x
    } else {
        target.x
    };
    let ay = if target.y < 0 {
        -target.y
    } else {
        target.y
    };
    if target.y >= ax {
        Direction::Up
    } else if target.x >= ay {
        Direction::Right
    } else if -target.y >= ax {
        Direction::Down
    } else {
        Direction::Left
    }
}

/// Tests the ball against a box: they touch when a point of the box lies
/// closer to the ball's centre than its radius.
pub fn check_ball_collision(ball: &BallObject, target: &GameObject) -> (collision: Collision)
    requires
        ball.wf(),
        target.wf(),
    ensures
        collision == collision_of(*ball, *target),
        collision.hit == circle_touches(
            ball.center().0,
            ball.center().1,
            ball.radius as int,
            *target,
        ),
{
    let cx: i64 = ball.object.position.x + ball.radius;
    let cy: i64 = ball.object.position.y + ball.radius;
    let px: i64 = clamp(cx, target.position.x, target.position.x + target.size.x);
    let py: i64 = clamp(cy, target.position.y, target.position.y + target.size.y);
    let dx: i64 = px - cx;
    let dy: i64 = py - cy;
    let r: i64 = ball.radius;
    proof {
        lemma_closest_point_decides(cx as int, cy as int, r as int, *target);
        assert(dx * dx <= 0x4000_0000_0000 * 0x4000_0000_0000) by (nonlinear_arith)
            requires
                -0x4000_0000_0000 <= dx <= 0x4000_0000_0000,
        ;
        assert(dy * dy <= 0x4000_0000_0000 * 0x4000_0000_0000) by (nonlinear_arith)
            requires
                -0x4000_0000_0000 <= dy <= 0x4000_0000_0000,
        ;
        assert(0 <= r * r <= 0x4000_0000_0000 * 0x4000_0000_0000) by (nonlinear_arith)
            requires
                0 <= r <= 0x4000_0000_0000,
        ;
        assert(dx * dx >= 0) by (nonlinear_arith);
        assert(dy * dy >= 0) by (nonlinear_arith);
        assert((cx - px) * (cx - px) == dx * dx) by (nonlinear_arith)
            requires
                dx == px - cx,
        ;
        assert((cy - py) * (cy - py) == dy * dy) by (nonlinear_arith)
            requires
                dy == py - cy,
        ;
    }
    let dist: i128 = (dx as i128) * (dx as i128) + (dy as i128) * (dy as i128);
    let reach: i128 = (r as i128) * (r as i128);
    if dist < reach {
        Collision { hit: true, direction: vector_direction(Vec2 { x: dx, y: dy }), difference: Vec2 { x: dx, y: dy } }
    } else {
        Collision { hit: false, direction: Direction::Up, difference: Vec2 { x: 0, y: 0 } }
    }
}

} // verus!
