//! The ball: a round game object that flies, bounces off the walls, and may
//! stick to the paddle.

use vstd::prelude::*;
use crate::game_object::Color;
use crate::game_object::GameObject;
use crate::game_object::Sprite;
use crate::game_object::white;
use crate::math::Vec2;
use crate::math::COORD_MAX;
use crate::math::SPEED_MAX;
use crate::math::UNITS_PER_PIXEL;

verus! {

/// Largest radius of a ball.
pub const RADIUS_MAX: i64 = 0x0800_0000_0000;

/// The ball.
#[derive(Clone, Copy, Debug, PartialEq, Eq, Structural)]
pub struct BallObject {
    pub object: GameObject,
    pub radius: i64,
    /// A stuck ball rests on the paddle and moves with it.
    pub stuck: bool,
    /// A sticky ball gets stuck when it next meets the paddle.
    pub sticky: bool,
    /// A ball that passes through breaks bricks without bouncing off them.
    pub pass_through: bool,
}

/// Where the ball is after `dt` milliseconds of flight between the side
/// walls and the ceiling of a field `width` wide. A stuck ball stays. A ball
/// that would leave through a side wall or the ceiling is put back at the
/// wall, with its speed along that axis reversed. Nothing stops it at the
/// bottom, but for the limit of the coordinates.
pub open spec fn moved(ball: BallObject, dt: u32, width: int) -> BallObject {
    if ball.stuck {
        ball
    } else {
        let o = ball.object;
        let x = o.position.x + o.velocity.x * dt;
        let y = o.position.y + o.velocity.y * dt;
        let (px, vx): (int, int) = if x <= 0 {
            (0, -o.velocity.x)
        } else if x + o.size.x >= width {
            (width - o.size.x, -o.velocity.x)
        } else {
            (x, o.velocity.x as int)
        };
        let (py, vy): (int, int) = if y <= 0 {
            (0, -o.velocity.y)
        } else if y > COORD_MAX {
            (COORD_MAX as int, o.velocity.y as int)
        } else {
            (y, o.velocity.y as int)
        };
        BallObject {
            object: GameObject {
                position: Vec2 { x: px as i64, y: py as i64 },
                velocity: Vec2 { x: vx as i64, y: vy as i64 },
                ..o
            },
            ..ball
        }
    }
}

impl BallObject {
    /// A ball has a positive radius, and its box is the square around it.
    pub open spec fn wf(&self) -> bool {
        &&& self.object.wf()
        &&& 0 < self.radius <= RADIUS_MAX
        &&& self.object.size.x == 2 * self.radius
        &&& self.object.size.y == 2 * self.radius
    }

    /// The centre of the ball.
    pub open spec fn center(&self) -> (int, int) {
        (self.object.position.x + self.radius, self.object.position.y + self.radius)
    }

    /// A ball of the given radius that rests, stuck, with its box at `position`.
    pub fn new(position: Vec2, radius: i64, velocity: Vec2) -> (ball: BallObject)
        requires
            position.within(COORD_MAX as int),
            velocity.within(SPEED_MAX as int),
            0 < radius <= RADIUS_MAX,
        ensures
            ball.wf(),
            ball.object.position == position,
            ball.object.velocity == velocity,
            ball.object.color == white(),
            ball.object.sprite == Sprite::Ball,
            ball.object.rotation == 0,
            !ball.object.is_solid,
            !ball.object.destroyed,
            ball.radius == radius,
            ball.stuck,
            !ball.sticky,
            !ball.pass_through,
    {
        BallObject {
            object: GameObject {
                position,
                size: Vec2 { x: 2 * radius, y: 2 * radius },
                velocity,
                color: Color::white(),
                rotation: 0,
                sprite: Sprite::Ball,
                is_solid: false,
                destroyed: false,
            },
            radius,
            stuck: true,
            sticky: false,
            pass_through: false,
        }
    }

    /// Lets the ball fly for `dt` milliseconds in a field `window_width`
    /// pixels wide, and answers where it then is.
    pub fn move_ball(&mut self, dt: u32, window_width: u32) -> (position: Vec2)
        requires
            old(self).wf(),
        ensures
            *final(self) == moved(*old(self), dt, window_width as int * UNITS_PER_PIXEL as int),
            position == final(self).object.position,
            final(self).wf(),
    {
        if !self.stuck {
            let width: i64 = window_width as i64 * UNITS_PER_PIXEL;
            let vx: i64 = self.object.velocity.x;
            let vy: i64 = self.object.velocity.y;
            assert(-1_000_000 * 0xFFFF_FFFF <= vx * dt <= 1_000_000 * 0xFFFF_FFFF) by (nonlinear_arith)
                requires
                    -1_000_000 <= vx <= 1_000_000,
                    0 <= dt <= 0xFFFF_FFFF,
            ;
            assert(-1_000_000 * 0xFFFF_FFFF <= vy * dt <= 1_000_000 * 0xFFFF_FFFF) by (nonlinear_arith)
                requires
                    -1_000_000 <= vy <= 1_000_000,
                    0 <= dt <= 0xFFFF_FFFF,
            ;
            let x: i64 = self.object.position.x + vx * (dt as i64);
            let y: i64 = self.object.position.y + vy * (dt as i64);
            if x <= 0 {
                self.object.velocity.x = -vx;
                self.object.position.x = 0;
            } else if x + self.object.size.x >= width {
                self.object.velocity.x = -vx;
                self.object.position.x = width - self.object.size.x;
            } else {
                self.object.position.x = x;
            }
            if y <= 0 {
                self.object.velocity.y = -vy;
                self.object.position.y = 0;
            } else if y > COORD_MAX {
                self.object.position.y = COORD_MAX;
            } else {
                self.object.position.y = y;
            }
        }
        self.object.position
    }

    /// Puts the ball back on the paddle: at `position`, stuck, with the
    /// given velocity and without any power-up effect.
    pub fn reset(&mut self, position: Vec2, velocity: Vec2)
        requires
            old(self).wf(),
            position.within(COORD_MAX as int),
            velocity.within(SPEED_MAX as int),
        ensures
            final(self).wf(),
            *final(self) == (BallObject {
                object: GameObject { position, velocity, ..old(self).object },
                stuck: true,
                sticky: false,
                pass_through: false,
                ..*old(self)
            }),
    {
        self.object.position = position;
        self.object.velocity = velocity;
        self.stuck = true;
        self.sticky = false;
        self.pass_through = false;
    }
}

} // verus!
