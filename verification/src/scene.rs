//! What a frame shows, and in which order it is drawn.

use vstd::prelude::*;
use crate::game::field_height;
use crate::game::field_width;
use crate::game::Game;
use crate::game::GameModel;
use crate::game_object::Color;
use crate::game_object::GameObject;
use crate::game_object::Sprite;
use crate::math::Vec2;
use crate::math::UNITS_PER_PIXEL;
use crate::particle_generator::Particle;
use crate::post_processor::PostProcessor;
use crate::power_up::PowerUp;

verus! {

/// One step of drawing a frame.
#[derive(Clone, Copy, Debug, PartialEq, Eq, Structural)]
pub enum DrawCommand {
    /// Start to capture the scene for the effects.
    BeginRender,
    /// Draw an object with its picture, at its place, in its size,
    /// rotation and tint.
    Sprite(GameObject),
    /// Draw a particle, brightening what lies below it.
    Particle(Particle),
    /// Stop capturing the scene.
    EndRender,
    /// Lay the captured scene over the screen with the effects that are on.
    PostProcess(PostProcessor),
    /// Write the number of lives that are left.
    Lives(u32),
}

/// The picture behind everything, as large as the field.
pub open spec fn background(m: GameModel) -> GameObject {
    GameObject {
        position: Vec2 { x: 0, y: 0 },
        size: Vec2 { x: field_width(m) as i64, y: field_height(m) as i64 },
        velocity: Vec2 { x: 0, y: 0 },
        color: Color { r: 1000, g: 1000, b: 1000 },
        rotation: 0,
        sprite: Sprite::Background,
        is_solid: false,
        destroyed: false,
    }
}

/// The drawing of the objects that are not destroyed, in their order.
pub open spec fn objects_drawn(objects: Seq<GameObject>) -> Seq<DrawCommand>
    decreases objects.len(),
{
    if objects.len() == 0 {
        Seq::empty()
    } else if objects.last().destroyed {
        objects_drawn(objects.drop_last())
    } else {
        objects_drawn(objects.drop_last()).push(DrawCommand::Sprite(objects.last()))
    }
}

/// The drawing of the particles that are alive, in their order.
pub open spec fn particles_drawn(pool: Seq<Particle>) -> Seq<DrawCommand>
    decreases pool.len(),
{
    if pool.len() == 0 {
        Seq::empty()
    } else if pool.last().alive() {
        particles_drawn(pool.drop_last()).push(DrawCommand::Particle(pool.last()))
    } else {
        particles_drawn(pool.drop_last())
    }
}

/// The objects of the power-ups.
pub open spec fn objects_of(power_ups: Seq<PowerUp>) -> Seq<GameObject> {
    Seq::new(power_ups.len(), |i: int| power_ups[i].object)
}

/// The drawing of a frame: inside the capture for the effects the
/// background, the bricks that stand, the paddle, the living particles, the
/// ball and the falling power-ups; then the effects; at last, untouched by
/// the effects, the lives.
pub open spec fn frame(m: GameModel) -> Seq<DrawCommand> {
    seq![DrawCommand::BeginRender, DrawCommand::Sprite(background(m))] + objects_drawn(m.bricks)
        + seq![DrawCommand::Sprite(m.player)] + particles_drawn(m.particles)
        + seq![DrawCommand::Sprite(m.ball.object)] + objects_drawn(objects_of(m.falling))
        + seq![
        DrawCommand::EndRender,
        DrawCommand::PostProcess(m.effects),
        DrawCommand::Lives(m.lives),
    ]
}

/// Adds the drawing of the objects that are not destroyed.
fn draw_objects(list: &mut Vec<DrawCommand>, objects: &Vec<GameObject>)
    ensures
        final(list)@ == old(list)@ + objects_drawn(objects@),
{
    let mut i: usize = 0;
    proof {
        assert(objects@.take(0) =~= Seq::<GameObject>::empty());
        assert(list@ =~= old(list)@ + objects_drawn(objects@.take(0)));
    }
    while i < objects.len()
        invariant
            i <= objects@.len(),
            list@ == old(list)@ + objects_drawn(objects@.take(i as int)),
        decreases objects@.len() - i,
    {
        let o = objects[i];
        proof {
            assert(objects@.take(i + 1).drop_last() =~= objects@.take(i as int));
            assert(objects@.take(i + 1).last() == o);
        }
        if !o.destroyed {
            list.push(DrawCommand::Sprite(o));
            proof {
                assert(list@ =~= old(list)@ + objects_drawn(objects@.take(i + 1)));
            }
        }
        i += 1;
    }
    proof {
        assert(objects@.take(objects@.len() as int) =~= objects@);
    }
}

/// Adds the drawing of the power-ups that are not destroyed.
fn draw_power_ups(list: &mut Vec<DrawCommand>, power_ups: &Vec<PowerUp>)
    ensures
        final(list)@ == old(list)@ + objects_drawn(objects_of(power_ups@)),
{
    let mut objects: Vec<GameObject> = Vec::new();
    let mut i: usize = 0;
    while i < power_ups.len()
        invariant
            i <= power_ups@.len(),
            objects@ == objects_of(power_ups@.take(i as int)),
        decreases power_ups@.len() - i,
    {
        objects.push(power_ups[i].object);
        proof {
            assert(objects@ =~= objects_of(power_ups@.take(i + 1)));
        }
        i += 1;
    }
    proof {
        assert(power_ups@.take(power_ups@.len() as int) =~= power_ups@);
    }
    draw_objects(list, &objects);
}

/// Adds the drawing of the particles that are alive.
fn draw_particles(list: &mut Vec<DrawCommand>, pool: &Vec<Particle>)
    ensures
        final(list)@ == old(list)@ + particles_drawn(pool@),
{
    let mut i: usize = 0;
    proof {
        assert(pool@.take(0) =~= Seq::<Particle>::empty());
        assert(list@ =~= old(list)@ + particles_drawn(pool@.take(0)));
    }
    while i < pool.len()
        invariant
            i <= pool@.len(),
            list@ == old(list)@ + particles_drawn(pool@.take(i as int)),
        decreases pool@.len() - i,
    {
        let p = pool[i];
        proof {
            assert(pool@.take(i + 1).drop_last() =~= pool@.take(i as int));
            assert(pool@.take(i + 1).last() == p);
        }
        if p.life > 0 {
            list.push(DrawCommand::Particle(p));
            proof {
                assert(list@ =~= old(list)@ + particles_drawn(pool@.take(i + 1)));
            }
        }
        i += 1;
    }
    proof {
        assert(pool@.take(pool@.len() as int) =~= pool@);
    }
}

impl Game {
    /// Lists what is to be drawn for the frame, in drawing order.
    pub fn render(&self) -> (list: Vec<DrawCommand>)
        ensures
            list@ == frame(self@),
    {
        let mut list: Vec<DrawCommand> = Vec::new();
        list.push(DrawCommand::BeginRender);
        list.push(
            DrawCommand::Sprite(
                GameObject {
                    position: Vec2 { x: 0, y: 0 },
                    size: Vec2 {
                        x: self.width as i64 * UNITS_PER_PIXEL,
                        y: self.height as i64 * UNITS_PER_PIXEL,
                    },
                    velocity: Vec2 { x: 0, y: 0 },
                    color: Color { r: 1000, g: 1000, b: 1000 },
                    rotation: 0,
                    sprite: Sprite::Background,
                    is_solid: false,
                    destroyed: false,
                },
            ),
        );
        proof {
            assert(list@ =~= seq![DrawCommand::BeginRender, DrawCommand::Sprite(background(self@))]);
        }
        draw_objects(&mut list, &self.bricks);
        list.push(DrawCommand::Sprite(self.player));
        let ghost upto_player = list@;
        draw_particles(&mut list, &self.particles.particles);
        list.push(DrawCommand::Sprite(self.ball.object));
        let ghost upto_ball = list@;
        draw_power_ups(&mut list, &self.falling);
        let ghost scene = list@;
        list.push(DrawCommand::EndRender);
        list.push(DrawCommand::PostProcess(self.effects));
        list.push(DrawCommand::Lives(self.lives));
        proof {
            let m = self@;
            assert(upto_player =~= seq![
                DrawCommand::BeginRender,
                DrawCommand::Sprite(background(m)),
            ] + objects_drawn(m.bricks) + seq![DrawCommand::Sprite(m.player)]);
            assert(upto_ball =~= upto_player + particles_drawn(m.particles) + seq![
                DrawCommand::Sprite(m.ball.object),
            ]);
            assert(list@ =~= scene + seq![
                DrawCommand::EndRender,
                DrawCommand::PostProcess(m.effects),
                DrawCommand::Lives(m.lives),
            ]);
        }
        list
    }
}

} // verus!
