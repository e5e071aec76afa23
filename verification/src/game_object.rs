//! What every object on the playing field has: a place, an extent, a
//! velocity, a look, and whether it is solid or destroyed.

use vstd::prelude::*;
use crate::math::Vec2;
use crate::math::COORD_MAX;
use crate::math::SPEED_MAX;

verus! {

/// A tint, each channel in thousandths of full intensity.
#[derive(Clone, Copy, Debug, PartialEq, Eq, Structural)]
pub struct Color {
    pub r: u16,
    pub g: u16,
    pub b: u16,
}

/// The tint that leaves a sprite as it is.
pub open spec fn white() -> Color {
    Color { r: 1000, g: 1000, b: 1000 }
}

impl Color {
    /// The tint that leaves a sprite as it is.
    pub fn white() -> (c: Color)
        ensures
            c == white(),
    {
        Color { r: 1000, g: 1000, b: 1000 }
    }
}

/// The picture that an object is drawn with.
#[derive(Clone, Copy, Debug, PartialEq, Eq, Structural)]
pub enum Sprite {
    Background,
    Block,
    BlockSolid,
    Paddle,
    Ball,
    Particle,
    PowerUpSpeed,
    PowerUpSticky,
    PowerUpPassThrough,
    PowerUpIncrease,
    PowerUpConfuse,
    PowerUpChaos,
}

/// An object on the playing field.
#[derive(Clone, Copy, Debug, PartialEq, Eq, Structural)]
pub struct GameObject {
    /// Top left corner.
    pub position: Vec2,
    /// Width and height.
    pub size: Vec2,
    /// Speed along each axis, in pixels per second.
    pub velocity: Vec2,
    pub color: Color,
    /// Rotation about the centre, in degrees.
    pub rotation: i32,
    pub sprite: Sprite,
    /// A solid object is never destroyed by the ball.
    pub is_solid: bool,
    pub destroyed: bool,
}

impl GameObject {
    /// Place, extent and speed are within the limits of the playing field.
    pub open spec fn wf(&self) -> bool {
        &&& self.position.within(COORD_MAX as int)
        &&& 0 <= self.size.x <= COORD_MAX
        &&& 0 <= self.size.y <= COORD_MAX
        &&& self.velocity.within(SPEED_MAX as int)
    }

    /// An object at rest, neither solid nor destroyed.
    pub fn new(position: Vec2, size: Vec2, sprite: Sprite, color: Color) -> (object: GameObject)
        ensures
            object == (GameObject {
                position,
                size,
                velocity: Vec2 { x: 0, y: 0 },
                color,
                rotation: 0,
                sprite,
                is_solid: false,
                destroyed: false,
            }),
    {
        GameObject {
            position,
            size,
            velocity: Vec2 { x: 0, y: 0 },
            color,
            rotation: 0,
            sprite,
            is_solid: false,
            destroyed: false,
        }
    }

    /// The right edge.
    pub open spec fn right(&self) -> int {
        self.position.x + self.size.x
    }

    /// The bottom edge.
    pub open spec fn bottom(&self) -> int {
        self.position.y + self.size.y
    }

    /// Whether the point lies in the object's box, edges included.
    pub open spec fn covers(&self, x: int, y: int) -> bool {
        self.position.x <= x <= self.right() && self.position.y <= y <= self.bottom()
    }
}

} // verus!
