//! The game itself: what it consists of, how input and time change it,
//! and when it is lost or won.

use vstd::prelude::*;
use crate::ball_object::BallObject;
use crate::ball_object::moved;
use crate::collision::boxes_overlap;
use crate::collision::check_ball_collision;
use crate::collision::check_collision;
use crate::collision::collision_of;
use crate::collision::Collision;
use crate::collision::Direction;
use crate::game_level::GameLevel;
use crate::game_object::Color;
use crate::game_object::GameObject;
use crate::game_object::Sprite;
use crate::input::Keyboard;
use crate::math::clamped;
use crate::math::magnitude;
use crate::math::Vec2;
use crate::math::COORD_MAX;
use crate::math::SPEED_MAX;
use crate::math::UNITS_PER_PIXEL;
use crate::particle_generator::decayed_all;
use crate::particle_generator::spawned;
use crate::particle_generator::Particle;
use crate::particle_generator::ParticleGenerator;
use crate::post_processor::PostProcessor;
use crate::power_up::drop_of;
use crate::power_up::dropped;
use crate::power_up::fallen_all;
use crate::power_up::has_kind;
use crate::power_up::survivors;
use crate::power_up::PowerUp;
use crate::power_up::PowerUpKind;
use crate::rng::next_state;
use crate::rng::output_of;
use crate::rng::Rng;

verus! {

/// Width of the paddle at the start.
pub const PLAYER_WIDTH: i64 = 100_000;

/// Height of the paddle.
pub const PLAYER_HEIGHT: i64 = 20_000;

/// Speed of the paddle, in pixels per second.
pub const PLAYER_VELOCITY: i64 = 500;

/// Velocity of the ball when it leaves the paddle, along `x`.
pub const INITIAL_BALL_VELOCITY_X: i64 = 100;

/// Velocity of the ball when it leaves the paddle, along `y`.
pub const INITIAL_BALL_VELOCITY_Y: i64 = -350;

/// Radius of the ball.
pub const BALL_RADIUS: i64 = 12_500;

/// Lives at the start of a level.
pub const LIVES: u32 = 3;

/// How long the picture trembles after the ball met a solid brick, in
/// milliseconds.
pub const SHAKE_TIME: i64 = 50;

/// What a power-up adds to the paddle's width.
pub const PAD_GROWTH: i64 = 50_000;

/// Particles that the pool holds.
pub const PARTICLE_POOL: usize = 500;

/// Particles born in each frame.
pub const PARTICLES_PER_FRAME: u32 = 2;

/// Key that moves the paddle to the left.
pub const KEY_LEFT: i32 = 65;

/// Key that moves the paddle to the right.
pub const KEY_RIGHT: i32 = 68;

/// Key that lets the ball go.
pub const KEY_LAUNCH: i32 = 32;

/// What the game is doing.
#[derive(Clone, Copy, Debug, PartialEq, Eq, Structural)]
pub enum GameState {
    Active,
    Menu,
    Win,
}

/// The game.
pub struct Game {
    pub state: GameState,
    pub keys: Keyboard,
    /// Width of the playing field in pixels.
    pub width: u32,
    /// Height of the playing field in pixels.
    pub height: u32,
    /// The levels as they were loaded.
    pub levels: Vec<GameLevel>,
    /// Which of the levels is being played.
    pub level: usize,
    /// The bricks of the level being played.
    pub bricks: Vec<GameObject>,
    pub player: GameObject,
    pub ball: BallObject,
    /// Power-ups on their way down.
    pub falling: Vec<PowerUp>,
    /// Power-ups in effect.
    pub active: Vec<PowerUp>,
    pub particles: ParticleGenerator,
    pub effects: PostProcessor,
    /// Milliseconds that the picture still trembles.
    pub shake_time: i64,
    pub lives: u32,
    pub rng: Rng,
}

/// The game as plain values.
pub struct GameModel {
    pub state: GameState,
    pub keys: Seq<bool>,
    pub keys_processed: Seq<bool>,
    pub width: u32,
    pub height: u32,
    pub levels: Seq<Seq<GameObject>>,
    pub level: int,
    pub bricks: Seq<GameObject>,
    pub player: GameObject,
    pub ball: BallObject,
    pub falling: Seq<PowerUp>,
    pub active: Seq<PowerUp>,
    pub particles: Seq<Particle>,
    pub cursor: int,
    pub effects: PostProcessor,
    pub shake_time: i64,
    pub lives: u32,
    pub rng: u64,
}

/// The playing field's width in length units.
pub open spec fn field_width(m: GameModel) -> int {
    m.width as int * UNITS_PER_PIXEL as int
}

/// The playing field's height in length units.
pub open spec fn field_height(m: GameModel) -> int {
    m.height as int * UNITS_PER_PIXEL as int
}

/// The paddle as it starts: in the middle of the bottom edge.
pub open spec fn start_player(width: u32, height: u32) -> GameObject {
    GameObject {
        position: Vec2 {
            x: (width as int * 500 - PLAYER_WIDTH as int / 2) as i64,
            y: (height as int * 1000 - PLAYER_HEIGHT as int) as i64,
        },
        size: Vec2 { x: PLAYER_WIDTH, y: PLAYER_HEIGHT },
        velocity: Vec2 { x: 0, y: 0 },
        color: Color { r: 1000, g: 1000, b: 1000 },
        rotation: 0,
        sprite: Sprite::Paddle,
        is_solid: false,
        destroyed: false,
    }
}

/// The ball as it starts: stuck on the middle of the paddle.
pub open spec fn start_ball(width: u32, height: u32) -> BallObject {
    let player = start_player(width, height);
    BallObject {
        object: GameObject {
            position: Vec2 {
                x: (player.position.x + PLAYER_WIDTH as int / 2 - BALL_RADIUS as int) as i64,
                y: (player.position.y - 2 * BALL_RADIUS as int) as i64,
            },
            size: Vec2 { x: 25_000, y: 25_000 },
            velocity: Vec2 { x: INITIAL_BALL_VELOCITY_X, y: INITIAL_BALL_VELOCITY_Y },
            color: Color { r: 1000, g: 1000, b: 1000 },
            rotation: 0,
            sprite: Sprite::Ball,
            is_solid: false,
            destroyed: false,
        },
        radius: BALL_RADIUS,
        stuck: true,
        sticky: false,
        pass_through: false,
    }
}

/// The bricks of each level.
pub open spec fn bricks_of_levels(levels: Seq<GameLevel>) -> Seq<Seq<GameObject>> {
    Seq::new(levels.len(), |i: int| levels[i].bricks@)
}

/// Whether every brick that can be destroyed has been.
pub open spec fn all_cleared(bricks: Seq<GameObject>) -> bool {
    forall|i: int| 0 <= i < bricks.len() && !(#[trigger] bricks[i]).is_solid ==> bricks[i].destroyed
}

/// The bricks of a level as they are when play starts.
pub open spec fn level_start(m: GameModel) -> Seq<GameObject> {
    if 0 <= m.level < m.levels.len() {
        m.levels[m.level]
    } else {
        Seq::empty()
    }
}

/// The model with paddle and ball back where they start and every lasting
/// effect of a power-up ended.
pub open spec fn player_reset(m: GameModel) -> GameModel {
    GameModel {
        player: start_player(m.width, m.height),
        ball: start_ball(m.width, m.height),
        active: Seq::empty(),
        effects: PostProcessor { confuse: false, chaos: false, ..m.effects },
        ..m
    }
}

/// The model with the bricks of its level back and a full set of lives.
pub open spec fn level_reset(m: GameModel) -> GameModel {
    GameModel { bricks: level_start(m), lives: LIVES, ..m }
}

impl View for Game {
    type V = GameModel;

    open spec fn view(&self) -> GameModel {
        GameModel {
            state: self.state,
            keys: self.keys.keys@,
            keys_processed: self.keys.keys_processed@,
            width: self.width,
            height: self.height,
            levels: bricks_of_levels(self.levels@),
            level: self.level as int,
            bricks: self.bricks@,
            player: self.player,
            ball: self.ball,
            falling: self.falling@,
            active: self.active@,
            particles: self.particles.particles@,
            cursor: self.particles.last_used as int,
            effects: self.effects,
            shake_time: self.shake_time,
            lives: self.lives,
            rng: self.rng.state,
        }
    }
}

/// Every part of the game is within its limits, and the picture trembles
/// exactly while its timer runs.
pub open spec fn within_limits(m: GameModel) -> bool {
    &&& m.keys.len() == crate::input::KEY_COUNT as nat
    &&& m.keys_processed.len() == crate::input::KEY_COUNT as nat
    &&& forall|l: int, i: int|
        0 <= l < m.levels.len() && 0 <= i < m.levels[l].len() ==> (#[trigger] m.levels[l][i]).wf()
    &&& forall|i: int| 0 <= i < m.bricks.len() ==> (#[trigger] m.bricks[i]).wf()
    &&& m.player.wf()
    &&& m.ball.wf()
    &&& forall|i: int| 0 <= i < m.falling.len() ==> (#[trigger] m.falling[i]).wf()
    &&& forall|i: int| 0 <= i < m.active.len() ==> (#[trigger] m.active[i]).wf()
    &&& forall|i: int| 0 <= i < m.particles.len() ==> (#[trigger] m.particles[i]).wf()
    &&& (0 <= m.cursor < m.particles.len() || (m.cursor == 0 && m.particles.len() == 0))
    &&& 0 <= m.shake_time <= SHAKE_TIME
    &&& m.effects.shake == (m.shake_time > 0)
}

/// Confusion and chaos are on exactly while a power-up of their kind is
/// active. The sticky paddle and the ball that passes through are on only
/// while a power-up of their kind is active.
pub open spec fn effects_agree(m: GameModel) -> bool {
    &&& m.effects.confuse == has_kind(m.active, PowerUpKind::Confuse)
    &&& m.effects.chaos == has_kind(m.active, PowerUpKind::Chaos)
    &&& m.ball.sticky ==> has_kind(m.active, PowerUpKind::Sticky)
    &&& m.ball.pass_through ==> has_kind(m.active, PowerUpKind::PassThrough)
}

/// What holds of a game at all times.
pub open spec fn model_wf(m: GameModel) -> bool {
    within_limits(m) && effects_agree(m)
}

impl Game {
    /// The game is in a state that play can go on from.
    pub open spec fn wf(&self) -> bool {
        model_wf(self@)
    }

    /// A game for a playing field of the given size in pixels, with no
    /// level yet, waiting in the menu. Random draws start from `seed`.
    pub fn new(width: u32, height: u32, seed: u64) -> (game: Game)
        ensures
            game.wf(),
            game@ == (GameModel {
                state: GameState::Menu,
                keys: Seq::new(crate::input::KEY_COUNT as nat, |i: int| false),
                keys_processed: Seq::new(crate::input::KEY_COUNT as nat, |i: int| false),
                width,
                height,
                levels: Seq::empty(),
                level: 0,
                bricks: Seq::empty(),
                player: start_player(width, height),
                ball: start_ball(width, height),
                falling: Seq::empty(),
                active: Seq::empty(),
                particles: Seq::new(
                    PARTICLE_POOL as nat,
                    |i: int| crate::particle_generator::dead_particle(),
                ),
                cursor: 0,
                effects: PostProcessor { shake: false, confuse: false, chaos: false },
                shake_time: 0,
                lives: LIVES,
                rng: seed,
            }),
    {
        let keys = Keyboard::new();
        let game = Game {
            state: GameState::Menu,
            keys,
            width,
            height,
            levels: Vec::new(),
            level: 0,
            bricks: Vec::new(),
            player: make_player(width, height),
            ball: make_ball(width, height),
            falling: Vec::new(),
            active: Vec::new(),
            particles: ParticleGenerator::new(PARTICLE_POOL),
            effects: PostProcessor::new(),
            shake_time: 0,
            lives: LIVES,
            rng: Rng::new(seed),
        };
        proof {
            assert(game@.keys =~= Seq::new(crate::input::KEY_COUNT as nat, |i: int| false));
            assert(game@.keys_processed =~= Seq::new(
                crate::input::KEY_COUNT as nat,
                |i: int| false,
            ));
            assert(game@.levels =~= Seq::<Seq<GameObject>>::empty());
        }
        game
    }
}

/// The paddle as it starts.
pub fn make_player(width: u32, height: u32) -> (player: GameObject)
    ensures
        player == start_player(width, height),
        player.wf(),
{
    GameObject {
        position: Vec2 {
            x: width as i64 * 500 - PLAYER_WIDTH / 2,
            y: height as i64 * 1000 - PLAYER_HEIGHT,
        },
        size: Vec2 { x: PLAYER_WIDTH, y: PLAYER_HEIGHT },
        velocity: Vec2 { x: 0, y: 0 },
        color: Color { r: 1000, g: 1000, b: 1000 },
        rotation: 0,
        sprite: Sprite::Paddle,
        is_solid: false,
        destroyed: false,
    }
}

/// The ball as it starts.
pub fn make_ball(width: u32, height: u32) -> (ball: BallObject)
    ensures
        ball == start_ball(width, height),
        ball.wf(),
{
    let player = make_player(width, height);
    BallObject {
        object: GameObject {
            position: Vec2 {
                x: player.position.x + PLAYER_WIDTH / 2 - BALL_RADIUS,
                y: player.position.y - 2 * BALL_RADIUS,
            },
            size: Vec2 { x: 2 * BALL_RADIUS, y: 2 * BALL_RADIUS },
            velocity: Vec2 { x: INITIAL_BALL_VELOCITY_X, y: INITIAL_BALL_VELOCITY_Y },
            color: Color { r: 1000, g: 1000, b: 1000 },
            rotation: 0,
            sprite: Sprite::Ball,
            is_solid: false,
            destroyed: false,
        },
        radius: BALL_RADIUS,
        stuck: true,
        sticky: false,
        pass_through: false,
    }
}

/// A copy of the bricks of a level.
fn copy_bricks(level: &GameLevel) -> (bricks: Vec<GameObject>)
    ensures
        bricks@ == level.bricks@,
{
    let mut bricks: Vec<GameObject> = Vec::new();
    let mut i: usize = 0;
    while i < level.bricks.len()
        invariant
            i <= level.bricks@.len(),
            bricks@ == level.bricks@.take(i as int),
        decreases level.bricks@.len() - i,
    {
        bricks.push(level.bricks[i]);
        proof {
            assert(level.bricks@.take(i + 1) =~= level.bricks@.take(i as int).push(
                level.bricks@[i as int],
            ));
        }
        i += 1;
    }
    proof {
        assert(level.bricks@.take(level.bricks@.len() as int) =~= level.bricks@);
    }
    bricks
}

impl Game {
    /// Takes the levels, sets up the first of them with paddle and ball at
    /// their start, and begins play.
    pub fn init(&mut self, levels: Vec<GameLevel>)
        requires
            old(self).wf(),
            forall|l: int| 0 <= l < levels@.len() ==> (#[trigger] levels@[l]).wf(),
        ensures
            final(self).wf(),
            final(self)@ == (GameModel {
                state: GameState::Active,
                levels: bricks_of_levels(levels@),
                level: 0,
                bricks: if levels@.len() > 0 {
                    levels@[0].bricks@
                } else {
                    Seq::empty()
                },
                player: start_player(old(self).width, old(self).height),
                ball: start_ball(old(self).width, old(self).height),
                falling: Seq::empty(),
                active: Seq::empty(),
                effects: PostProcessor { shake: false, confuse: false, chaos: false },
                shake_time: 0,
                lives: LIVES,
                ..old(self)@
            }),
    {
        self.levels = levels;
        self.level = 0;
        self.bricks = if self.levels.len() > 0 {
            copy_bricks(&self.levels[0])
        } else {
            Vec::new()
        };
        self.player = make_player(self.width, self.height);
        self.ball = make_ball(self.width, self.height);
        self.falling = Vec::new();
        self.active = Vec::new();
        self.effects = PostProcessor::new();
        self.shake_time = 0;
        self.lives = LIVES;
        self.state = GameState::Active;
    }

    /// Puts the bricks of the level back and restores the lives.
    pub fn reset_level(&mut self)
        requires
            old(self).wf(),
        ensures
            final(self).wf(),
            final(self)@ == level_reset(old(self)@),
    {
        self.bricks = if self.level < self.levels.len() {
            copy_bricks(&self.levels[self.level])
        } else {
            Vec::new()
        };
        self.lives = LIVES;
    }

    /// Puts paddle and ball back where they start and ends every lasting
    /// effect of a power-up.
    pub fn reset_player(&mut self)
        requires
            old(self).wf(),
        ensures
            final(self).wf(),
            final(self)@ == player_reset(old(self)@),
    {
        self.player = make_player(self.width, self.height);
        self.ball = make_ball(self.width, self.height);
        self.active = Vec::new();
        self.effects.confuse = false;
        self.effects.chaos = false;
    }
}

/// A coordinate held within the limits of the playing field.
pub open spec fn limited(v: int) -> int {
    clamped(v, -(COORD_MAX as int), COORD_MAX as int)
}

/// The furthest to the right that the paddle's left edge may go.
pub open spec fn paddle_limit(m: GameModel) -> int {
    let room = field_width(m) - m.player.size.x;
    if room > 0 {
        room
    } else {
        0
    }
}

/// The model with the paddle's left edge at `to`; a ball stuck to the
/// paddle goes along.
pub open spec fn paddle_moved(m: GameModel, to: int) -> GameModel {
    let shift = to - m.player.position.x;
    GameModel {
        player: GameObject {
            position: Vec2 { x: to as i64, y: m.player.position.y },
            ..m.player
        },
        ball: if m.ball.stuck {
            BallObject {
                object: GameObject {
                    position: Vec2 {
                        x: limited(m.ball.object.position.x + shift) as i64,
                        y: m.ball.object.position.y,
                    },
                    ..m.ball.object
                },
                ..m.ball
            }
        } else {
            m.ball
        },
        ..m
    }
}

/// The model after the keys were looked at in a frame of `dt`
/// milliseconds. Only an active game listens. While the left or the right
/// key is held the paddle moves that way by its speed times `dt`, but not
/// past the edges of the field. A press of the launch key, once for each
/// press, lets a stuck ball go with its initial velocity.
pub open spec fn input_processed(m: GameModel, dt: u32) -> GameModel {
    if m.state != GameState::Active {
        m
    } else {
        let step = PLAYER_VELOCITY as int * dt as int;
        let m1 = if m.keys[KEY_LEFT as int] {
            paddle_moved(m, clamped(m.player.position.x - step, 0, paddle_limit(m)))
        } else {
            m
        };
        let m2 = if m.keys[KEY_RIGHT as int] {
            paddle_moved(m1, clamped(m1.player.position.x + step, 0, paddle_limit(m1)))
        } else {
            m1
        };
        if m.keys[KEY_LAUNCH as int] && !m.keys_processed[KEY_LAUNCH as int] {
            GameModel {
                keys_processed: m2.keys_processed.update(KEY_LAUNCH as int, true),
                ball: if m2.ball.stuck {
                    BallObject {
                        object: GameObject {
                            velocity: Vec2 {
                                x: INITIAL_BALL_VELOCITY_X,
                                y: INITIAL_BALL_VELOCITY_Y,
                            },
                            ..m2.ball.object
                        },
                        stuck: false,
                        ..m2.ball
                    }
                } else {
                    m2.ball
                },
                ..m2
            }
        } else {
            m2
        }
    }
}

impl Game {
    /// Moves the paddle's left edge to `to`; a stuck ball goes along.
    fn move_paddle(&mut self, to: i64)
        requires
            old(self).wf(),
            0 <= to <= COORD_MAX,
        ensures
            final(self).wf(),
            final(self)@ == paddle_moved(old(self)@, to as int),
    {
        let shift: i64 = to - self.player.position.x;
        self.player.position.x = to;
        if self.ball.stuck {
            self.ball.object.position.x = crate::math::clamp(
                self.ball.object.position.x + shift,
                -COORD_MAX,
                COORD_MAX,
            );
        }
    }

    /// The furthest to the right that the paddle's left edge may go.
    fn right_limit(&self) -> (limit: i64)
        requires
            self.wf(),
        ensures
            limit as int == paddle_limit(self@),
            0 <= limit <= COORD_MAX,
    {
        let room: i64 = self.width as i64 * UNITS_PER_PIXEL - self.player.size.x;
        if room > 0 {
            room
        } else {
            0
        }
    }

    /// Looks at the keys in a frame of `dt` milliseconds: moves the paddle
    /// while a movement key is held, and lets the ball go on a fresh press of
    /// the launch key.
    pub fn process_input(&mut self, dt: u32)
        requires
            old(self).wf(),
        ensures
            final(self).wf(),
            final(self)@ == input_processed(old(self)@, dt),
    {
        if self.state == GameState::Active {
            let step: i64 = PLAYER_VELOCITY * (dt as i64);
            if self.keys.is_pressed(KEY_LEFT) {
                let limit = self.right_limit();
                let to = crate::math::clamp(self.player.position.x - step, 0, limit);
                self.move_paddle(to);
            }
            if self.keys.is_pressed(KEY_RIGHT) {
                let limit = self.right_limit();
                let to = crate::math::clamp(self.player.position.x + step, 0, limit);
                self.move_paddle(to);
            }
            if self.keys.take_press(KEY_LAUNCH) {
                if self.ball.stuck {
                    self.ball.stuck = false;
                    self.ball.object.velocity = Vec2 {
                        x: INITIAL_BALL_VELOCITY_X,
                        y: INITIAL_BALL_VELOCITY_Y,
                    };
                }
            }
        }
    }
}

/// The ball after it bounced off a box that it met as `c` says: its speed
/// along the axis of the side that it met is reversed, and it is pushed
/// back out of the box along that axis by as much as it had entered.
pub open spec fn bounced(ball: BallObject, c: Collision) -> BallObject {
    let o = ball.object;
    if c.direction == Direction::Left || c.direction == Direction::Right {
        let depth = ball.radius - magnitude(c.difference.x as int);
        let x = if c.direction == Direction::Left {
            o.position.x + depth
        } else {
            o.position.x - depth
        };
        BallObject {
            object: GameObject {
                position: Vec2 { x: limited(x) as i64, y: o.position.y },
                velocity: Vec2 { x: (-o.velocity.x) as i64, y: o.velocity.y },
                ..o
            },
            ..ball
        }
    } else {
        let depth = ball.radius - magnitude(c.difference.y as int);
        let y = if c.direction == Direction::Up {
            o.position.y - depth
        } else {
            o.position.y + depth
        };
        BallObject {
            object: GameObject {
                position: Vec2 { x: o.position.x, y: limited(y) as i64 },
                velocity: Vec2 { x: o.velocity.x, y: (-o.velocity.y) as i64 },
                ..o
            },
            ..ball
        }
    }
}

/// Lets the ball bounce off a box that it met as `c` says.
pub fn bounce(ball: &mut BallObject, c: Collision)
    requires
        old(ball).wf(),
        c.difference.within(4 * COORD_MAX as int),
    ensures
        *final(ball) == bounced(*old(ball), c),
        final(ball).wf(),
{
    match c.direction {
        Direction::Left => {
            let depth: i64 = ball.radius - crate::math::abs(c.difference.x);
            ball.object.velocity.x = -ball.object.velocity.x;
            ball.object.position.x = crate::math::clamp(
                ball.object.position.x + depth,
                -COORD_MAX,
                COORD_MAX,
            );
        },
        Direction::Right => {
            let depth: i64 = ball.radius - crate::math::abs(c.difference.x);
            ball.object.velocity.x = -ball.object.velocity.x;
            ball.object.position.x = crate::math::clamp(
                ball.object.position.x - depth,
                -COORD_MAX,
                COORD_MAX,
            );
        },
        Direction::Up => {
            let depth: i64 = ball.radius - crate::math::abs(c.difference.y);
            ball.object.velocity.y = -ball.object.velocity.y;
            ball.object.position.y = crate::math::clamp(
                ball.object.position.y - depth,
                -COORD_MAX,
                COORD_MAX,
            );
        },
        Direction::Down => {
            let depth: i64 = ball.radius - crate::math::abs(c.difference.y);
            ball.object.velocity.y = -ball.object.velocity.y;
            ball.object.position.y = crate::math::clamp(
                ball.object.position.y + depth,
                -COORD_MAX,
                COORD_MAX,
            );
        },
    }
}

/// The model after the ball was tested against brick number `i`. A brick
/// that is destroyed, or that the ball does not touch, changes nothing. A
/// solid brick makes the picture tremble. Any other brick is destroyed, and
/// two random draws decide whether it drops a power-up where it stood, and
/// which. The ball bounces off, unless it passes through and the brick is
/// not solid.
pub open spec fn hit_brick(m: GameModel, i: int) -> GameModel {
    let brick = m.bricks[i];
    let c = collision_of(m.ball, brick);
    if brick.destroyed || !c.hit {
        m
    } else {
        let first = next_state(m.rng);
        let second = next_state(first);
        let m1 = if brick.is_solid {
            GameModel {
                shake_time: SHAKE_TIME,
                effects: PostProcessor { shake: true, ..m.effects },
                ..m
            }
        } else {
            GameModel {
                bricks: m.bricks.update(i, GameObject { destroyed: true, ..brick }),
                rng: second,
                falling: match drop_of(output_of(first), output_of(second)) {
                    Some(kind) => m.falling.push(dropped(kind, brick.position)),
                    None => m.falling,
                },
                ..m
            }
        };
        if m.ball.pass_through && !brick.is_solid {
            m1
        } else {
            GameModel { ball: bounced(m.ball, c), ..m1 }
        }
    }
}

/// The model after the ball was tested against the first `n` bricks, one
/// after the other.
pub open spec fn bricks_hit(m: GameModel, n: int) -> GameModel
    decreases n,
{
    if n <= 0 {
        m
    } else {
        hit_brick(bricks_hit(m, n - 1), n - 1)
    }
}

impl Game {
    /// Tests the ball against brick number `i` and lets happen what follows.
    pub fn collide_brick(&mut self, i: usize)
        requires
            old(self).wf(),
            i < old(self).bricks@.len(),
        ensures
            final(self).wf(),
            final(self)@ == hit_brick(old(self)@, i as int),
            final(self).bricks@.len() == old(self).bricks@.len(),
    {
        let brick = self.bricks[i];
        if brick.destroyed {
            return ;
        }
        let c = check_ball_collision(&self.ball, &brick);
        if !c.hit {
            return ;
        }
        if brick.is_solid {
            self.shake_time = SHAKE_TIME;
            self.effects.shake = true;
        } else {
            let mut broken = brick;
            broken.destroyed = true;
            self.bricks.set(i, broken);
            let gate = self.rng.next();
            let pick = self.rng.next();
            if let Some(kind) = crate::power_up::roll_power_up(gate, pick) {
                self.falling.push(PowerUp::new(kind, brick.position));
            }
        }
        if !(self.ball.pass_through && !brick.is_solid) {
            bounce(&mut self.ball, c);
        }
    }

    /// Tests the ball against every brick of the level, in order.
    pub fn collide_bricks(&mut self)
        requires
            old(self).wf(),
        ensures
            final(self).wf(),
            final(self)@ == bricks_hit(old(self)@, old(self).bricks@.len() as int),
    {
        let n = self.bricks.len();
        let mut i: usize = 0;
        while i < n
            invariant
                i <= n,
                n == self.bricks@.len(),
                n == old(self).bricks@.len(),
                self.wf(),
                self@ == bricks_hit(old(self)@, i as int),
            decreases n - i,
        {
            self.collide_brick(i);
            i += 1;
        }
    }
}

/// A speed made a fifth faster, rounded toward zero and held within the
/// limit of speeds.
pub open spec fn sped_up(v: int) -> int {
    clamped(crate::math::toward_zero(v * 6, 5), -(SPEED_MAX as int), SPEED_MAX as int)
}

/// The model after what a power-up of the kind does has been done. Speed
/// makes the ball a fifth faster; the sticky paddle and the ball that passes
/// through are marked by their colour; the paddle grows once by a fixed
/// width; confusion and chaos switch on their effect.
pub open spec fn effect_applied(m: GameModel, kind: PowerUpKind) -> GameModel {
    match kind {
        PowerUpKind::Speed => GameModel {
            ball: BallObject {
                object: GameObject {
                    velocity: Vec2 {
                        x: sped_up(m.ball.object.velocity.x as int) as i64,
                        y: sped_up(m.ball.object.velocity.y as int) as i64,
                    },
                    ..m.ball.object
                },
                ..m.ball
            },
            ..m
        },
        PowerUpKind::Sticky => GameModel {
            ball: BallObject { sticky: true, ..m.ball },
            player: GameObject { color: Color { r: 1000, g: 500, b: 1000 }, ..m.player },
            ..m
        },
        PowerUpKind::PassThrough => GameModel {
            ball: BallObject {
                pass_through: true,
                object: GameObject { color: Color { r: 1000, g: 500, b: 500 }, ..m.ball.object },
                ..m.ball
            },
            ..m
        },
        PowerUpKind::PadSizeIncrease => GameModel {
            player: GameObject {
                size: Vec2 {
                    x: clamped(m.player.size.x + PAD_GROWTH, 0, COORD_MAX as int) as i64,
                    y: m.player.size.y,
                },
                ..m.player
            },
            ..m
        },
        PowerUpKind::Confuse => GameModel {
            effects: PostProcessor { confuse: true, ..m.effects },
            ..m
        },
        PowerUpKind::Chaos => GameModel { effects: PostProcessor { chaos: true, ..m.effects }, ..m },
    }
}

/// The model after power-up `p` came into effect: it is among the active
/// ones, and what its kind does has been done.
pub open spec fn activated(m: GameModel, p: PowerUp) -> GameModel {
    effect_applied(
        GameModel { active: m.active.push(PowerUp { activated: true, ..p }), ..m },
        p.kind,
    )
}

/// The model after one falling power-up was looked at: one that has
/// reached the bottom of the field is gone, one that touches the paddle
/// comes into effect, any other goes on falling.
pub open spec fn caught_one(m: GameModel, p: PowerUp) -> GameModel {
    if p.object.position.y >= field_height(m) {
        m
    } else if boxes_overlap(m.player, p.object) {
        activated(m, p)
    } else {
        GameModel { falling: m.falling.push(p), ..m }
    }
}

/// The model after the power-ups `pending` were looked at, one after the
/// other.
pub open spec fn caught(m: GameModel, pending: Seq<PowerUp>) -> GameModel
    decreases pending.len(),
{
    if pending.len() == 0 {
        m
    } else {
        caught_one(caught(m, pending.drop_last()), pending.last())
    }
}

/// The model after every falling power-up was looked at.
pub open spec fn power_ups_caught(m: GameModel) -> GameModel {
    caught(GameModel { falling: Seq::empty(), ..m }, m.falling)
}

/// One more active power-up adds its own kind to the kinds in effect, and
/// no other.
proof fn lemma_has_kind_push(active: Seq<PowerUp>, p: PowerUp, kind: PowerUpKind)
    ensures
        has_kind(active.push(p), kind) == (has_kind(active, kind) || p.kind == kind),
{
    let more = active.push(p);
    if has_kind(more, kind) {
        let i = choose|i: int| 0 <= i < more.len() && (#[trigger] more[i]).kind == kind;
        if i < active.len() {
            assert(active[i].kind == kind);
        }
    }
    if has_kind(active, kind) {
        let i = choose|i: int| 0 <= i < active.len() && (#[trigger] active[i]).kind == kind;
        assert(more[i].kind == kind);
    }
    if p.kind == kind {
        assert(more[active.len() as int].kind == kind);
    }
}

impl Game {
    /// Adds `p` to the active power-ups, marked as activated.
    fn add_active(&mut self, p: PowerUp)
        requires
            within_limits(old(self)@),
            p.wf(),
        ensures
            within_limits(final(self)@),
            final(self)@ == (GameModel {
                active: old(self)@.active.push(PowerUp { activated: true, ..p }),
                ..old(self)@
            }),
            forall|kind: PowerUpKind| #[trigger]
                has_kind(final(self)@.active, kind) == (has_kind(old(self)@.active, kind) || p.kind
                    == kind),
    {
        proof {
            let on = PowerUp { activated: true, ..p };
            assert forall|kind: PowerUpKind| #[trigger]
                has_kind(self.active@.push(on), kind) == (has_kind(self.active@, kind) || p.kind
                    == kind) by {
                lemma_has_kind_push(self.active@, on, kind);
            }
        }
        self.active.push(
            PowerUp { object: p.object, kind: p.kind, duration: p.duration, activated: true },
        );
    }

    /// Does what a power-up of the kind does when it comes into effect.
    fn apply_effect(&mut self, kind: PowerUpKind)
        requires
            within_limits(old(self)@),
        ensures
            within_limits(final(self)@),
            final(self)@ == effect_applied(old(self)@, kind),
    {
        match kind {
            PowerUpKind::Speed => {
                let vx = crate::math::div_toward_zero(self.ball.object.velocity.x * 6, 5);
                let vy = crate::math::div_toward_zero(self.ball.object.velocity.y * 6, 5);
                self.ball.object.velocity = Vec2 {
                    x: crate::math::clamp(vx, -SPEED_MAX, SPEED_MAX),
                    y: crate::math::clamp(vy, -SPEED_MAX, SPEED_MAX),
                };
            },
            PowerUpKind::Sticky => {
                self.ball.sticky = true;
                self.player.color = Color { r: 1000, g: 500, b: 1000 };
            },
            PowerUpKind::PassThrough => {
                self.ball.pass_through = true;
                self.ball.object.color = Color { r: 1000, g: 500, b: 500 };
            },
            PowerUpKind::PadSizeIncrease => {
                self.player.size.x = crate::math::clamp(
                    self.player.size.x + PAD_GROWTH,
                    0,
                    COORD_MAX,
                );
            },
            PowerUpKind::Confuse => {
                self.effects.confuse = true;
            },
            PowerUpKind::Chaos => {
                self.effects.chaos = true;
            },
        }
    }

    /// Lets power-up `p` come into effect.
    pub fn activate_power_up(&mut self, p: PowerUp)
        requires
            old(self).wf(),
            p.wf(),
        ensures
            final(self).wf(),
            final(self)@ == activated(old(self)@, p),
    {
        self.add_active(p);
        self.apply_effect(p.kind);
    }

    /// Looks at every falling power-up: those that reached the bottom are
    /// dropped, those that touch the paddle come into effect.
    pub fn catch_power_ups(&mut self)
        requires
            old(self).wf(),
        ensures
            final(self).wf(),
            final(self)@ == power_ups_caught(old(self)@),
    {
        let mut pending: Vec<PowerUp> = Vec::new();
        std::mem::swap(&mut pending, &mut self.falling);
        let height: i64 = self.height as i64 * UNITS_PER_PIXEL;
        let ghost start = GameModel { falling: Seq::empty(), ..old(self)@ };
        let mut i: usize = 0;
        proof {
            assert(pending@.take(0) =~= Seq::<PowerUp>::empty());
        }
        while i < pending.len()
            invariant
                i <= pending@.len(),
                pending@ == old(self)@.falling,
                forall|j: int| 0 <= j < pending@.len() ==> (#[trigger] pending@[j]).wf(),
                height == field_height(self@),
                self.wf(),
                self@ == caught(start, pending@.take(i as int)),
            decreases pending@.len() - i,
        {
            let p = pending[i];
            proof {
                assert(pending@.take(i + 1).drop_last() =~= pending@.take(i as int));
                assert(pending@.take(i + 1).last() == p);
                assert(p.wf());
            }
            if p.object.position.y >= height {
            } else if check_collision(&self.player, &p.object) {
                self.activate_power_up(p);
            } else {
                self.falling.push(p);
            }
            i += 1;
        }
        proof {
            assert(pending@.take(pending@.len() as int) =~= pending@);
        }
    }
}

/// The whole part of the square root of `n`.
pub open spec fn sqrt_floor(n: int) -> int {
    choose|root: int| crate::math::is_sqrt(n, root)
}

/// How fast a velocity is, in whole pixels per second.
pub open spec fn speed_of(v: Vec2) -> int {
    sqrt_floor(v.x * v.x + v.y * v.y)
}

/// A velocity turned into the direction of `(x, y)` and given the speed
/// `speed`, each part rounded toward zero and held within the limit of
/// speeds. A direction without length is left as it is.
pub open spec fn with_speed(x: int, y: int, speed: int) -> Vec2 {
    let length = sqrt_floor(x * x + y * y);
    if length == 0 {
        Vec2 { x: x as i64, y: y as i64 }
    } else {
        Vec2 {
            x: clamped(
                crate::math::toward_zero(x * speed, length),
                -(SPEED_MAX as int),
                SPEED_MAX as int,
            ) as i64,
            y: clamped(
                crate::math::toward_zero(y * speed, length),
                -(SPEED_MAX as int),
                SPEED_MAX as int,
            ) as i64,
        }
    }
}

/// How hard the paddle sends the ball sideways: twice the ball's initial
/// sideways speed for a ball that meets the paddle's end, less in proportion
/// for one that meets it nearer the middle, nothing in the middle.
pub open spec fn sideways_push(ball: BallObject, player: GameObject) -> int {
    let half = player.size.x as int / 2;
    let distance = ball.center().0 - (player.position.x + half);
    if half > 0 {
        clamped(
            crate::math::toward_zero(2 * INITIAL_BALL_VELOCITY_X as int * distance, half),
            -(SPEED_MAX as int),
            SPEED_MAX as int,
        )
    } else {
        0
    }
}

/// The velocity of the ball after it met the paddle: sideways as the place
/// where it met the paddle says, its vertical speed reversed, and as fast as
/// it was before.
pub open spec fn paddle_velocity(ball: BallObject, player: GameObject) -> Vec2 {
    with_speed(
        sideways_push(ball, player),
        -(ball.object.velocity.y as int),
        speed_of(ball.object.velocity),
    )
}

/// The model after the ball was tested against the paddle: a ball that
/// flies and touches the paddle is sent back; a sticky one stays on the
/// paddle instead.
pub open spec fn paddle_hit(m: GameModel) -> GameModel {
    if !m.ball.stuck && collision_of(m.ball, m.player).hit {
        if m.ball.sticky {
            GameModel { ball: BallObject { stuck: true, ..m.ball }, ..m }
        } else {
            GameModel {
                ball: BallObject {
                    object: GameObject {
                        velocity: paddle_velocity(m.ball, m.player),
                        ..m.ball.object
                    },
                    ..m.ball
                },
                ..m
            }
        }
    } else {
        m
    }
}

/// The whole root found by `isqrt` is the one that `sqrt_floor` names.
proof fn lemma_sqrt_floor(n: int, root: int)
    requires
        crate::math::is_sqrt(n, root),
    ensures
        sqrt_floor(n) == root,
{
    crate::math::lemma_sqrt_unique(n, sqrt_floor(n), root);
}

/// How fast a velocity is, in whole pixels per second.
pub fn speed(x: i64, y: i64) -> (s: i64)
    requires
        -SPEED_MAX <= x <= SPEED_MAX,
        -SPEED_MAX <= y <= SPEED_MAX,
    ensures
        s as int == sqrt_floor(x * x + y * y),
        0 <= s <= 2 * SPEED_MAX,
{
    assert(0 <= x * x <= 1_000_000 * 1_000_000) by (nonlinear_arith)
        requires
            -1_000_000 <= x <= 1_000_000,
    ;
    assert(0 <= y * y <= 1_000_000 * 1_000_000) by (nonlinear_arith)
        requires
            -1_000_000 <= y <= 1_000_000,
    ;
    let n: u64 = (x * x + y * y) as u64;
    let root = crate::math::isqrt(n);
    proof {
        lemma_sqrt_floor(n as int, root as int);
        assert(root <= 2_000_000) by (nonlinear_arith)
            requires
                root * root <= n,
                n <= 2_000_000_000_000,
                0 <= root,
        ;
    }
    root as i64
}

/// Turns a velocity into the direction of `(x, y)` with the speed `by`.
pub fn rescale(x: i64, y: i64, by: i64) -> (v: Vec2)
    requires
        -SPEED_MAX <= x <= SPEED_MAX,
        -SPEED_MAX <= y <= SPEED_MAX,
        0 <= by <= 2 * SPEED_MAX,
    ensures
        v == with_speed(x as int, y as int, by as int),
        v.within(SPEED_MAX as int),
{
    let length = speed(x, y);
    if length == 0 {
        Vec2 { x, y }
    } else {
        assert(-2_000_000_000_000 <= x * by <= 2_000_000_000_000) by (nonlinear_arith)
            requires
                -1_000_000 <= x <= 1_000_000,
                0 <= by <= 2_000_000,
        ;
        assert(-2_000_000_000_000 <= y * by <= 2_000_000_000_000) by (nonlinear_arith)
            requires
                -1_000_000 <= y <= 1_000_000,
                0 <= by <= 2_000_000,
        ;
        let vx = crate::math::div_toward_zero(x * by, length);
        let vy = crate::math::div_toward_zero(y * by, length);
        Vec2 {
            x: crate::math::clamp(vx, -SPEED_MAX, SPEED_MAX),
            y: crate::math::clamp(vy, -SPEED_MAX, SPEED_MAX),
        }
    }
}

impl Game {
    /// Tests the ball against the paddle and sends it back if they touch.
    pub fn collide_paddle(&mut self)
        requires
            old(self).wf(),
        ensures
            final(self).wf(),
            final(self)@ == paddle_hit(old(self)@),
    {
        if self.ball.stuck {
            return ;
        }
        let c = check_ball_collision(&self.ball, &self.player);
        if !c.hit {
            return ;
        }
        if self.ball.sticky {
            self.ball.stuck = true;
            return ;
        }
        let half: i64 = self.player.size.x / 2;
        let center: i64 = self.ball.object.position.x + self.ball.radius;
        let distance: i64 = center - (self.player.position.x + half);
        let push: i64 = if half > 0 {
            let raw = crate::math::div_toward_zero(2 * INITIAL_BALL_VELOCITY_X * distance, half);
            crate::math::clamp(raw, -SPEED_MAX, SPEED_MAX)
        } else {
            0
        };
        let old_speed = speed(self.ball.object.velocity.x, self.ball.object.velocity.y);
        self.ball.object.velocity = rescale(push, -self.ball.object.velocity.y, old_speed);
    }
}

/// The colour of an object whose effect may be over: its own colour again
/// if so, else the colour that it has.
pub open spec fn color_after(color: Color, over: bool) -> Color {
    if over {
        Color { r: 1000, g: 1000, b: 1000 }
    } else {
        color
    }
}

/// The colour of an object whose effect may be over.
fn own_color(color: Color, over: bool) -> (c: Color)
    ensures
        c == color_after(color, over),
{
    if over {
        Color::white()
    } else {
        color
    }
}

/// The model after the lasting effects were settled for a frame in which
/// the time of a sticky paddle was up, or that of a ball that passes
/// through, as the two flags say. A helpful effect ends as soon as the time
/// of one power-up of its kind is up, and paddle or ball get their own
/// colour back. Confusion and chaos stay while a power-up of their kind is
/// active, and end with the last.
pub open spec fn effects_settled(m: GameModel, sticky_over: bool, pass_over: bool) -> GameModel {
    GameModel {
        effects: PostProcessor {
            confuse: has_kind(m.active, PowerUpKind::Confuse),
            chaos: has_kind(m.active, PowerUpKind::Chaos),
            ..m.effects
        },
        ball: BallObject {
            sticky: m.ball.sticky && !sticky_over,
            pass_through: m.ball.pass_through && !pass_over,
            object: GameObject {
                color: color_after(m.ball.object.color, pass_over),
                ..m.ball.object
            },
            ..m.ball
        },
        player: GameObject { color: color_after(m.player.color, sticky_over), ..m.player },
        ..m
    }
}

/// The model after the power-ups aged by `dt` milliseconds: the falling
/// ones have fallen, the active ones have that much less to last, those
/// whose time is up are gone, and the lasting effects are settled.
pub open spec fn power_ups_aged(m: GameModel, dt: u32) -> GameModel {
    effects_settled(
        GameModel {
            falling: fallen_all(m.falling, dt),
            active: survivors(m.active, dt),
            ..m
        },
        crate::power_up::expired_kind(m.active, dt, PowerUpKind::Sticky),
        crate::power_up::expired_kind(m.active, dt, PowerUpKind::PassThrough),
    )
}

/// The model after the trembling aged by `dt` milliseconds: it stops when
/// its time is up.
pub open spec fn shake_aged(m: GameModel, dt: u32) -> GameModel {
    let left: i64 = if m.shake_time > dt {
        (m.shake_time - dt) as i64
    } else {
        0
    };
    GameModel { shake_time: left, effects: PostProcessor { shake: left > 0, ..m.effects }, ..m }
}

/// The model after the particles had their frame: some are born at the
/// ball, all of them age.
pub open spec fn particles_aged(m: GameModel, dt: u32) -> GameModel {
    let offset = Vec2 { x: (m.ball.radius / 2) as i64, y: (m.ball.radius / 2) as i64 };
    let born = spawned(
        m.particles,
        m.cursor,
        m.rng,
        m.ball.object,
        offset,
        PARTICLES_PER_FRAME as nat,
    );
    GameModel { particles: decayed_all(born.0, dt), cursor: born.1, rng: born.2, ..m }
}

/// The model after the ball was looked for below the field: a ball that
/// has left the field costs a life and puts paddle and ball back at their
/// start; with the last life the level starts over and the game goes back
/// to the menu.
pub open spec fn loss_checked(m: GameModel) -> GameModel {
    if m.ball.object.position.y >= field_height(m) {
        if m.lives <= 1 {
            player_reset(GameModel { state: GameState::Menu, ..level_reset(m) })
        } else {
            player_reset(GameModel { lives: (m.lives - 1) as u32, ..m })
        }
    } else {
        m
    }
}

/// The model after the bricks were looked at: an active game whose level
/// has no brick left that can be destroyed is won.
pub open spec fn win_checked(m: GameModel) -> GameModel {
    if m.state == GameState::Active && all_cleared(m.bricks) {
        GameModel { state: GameState::Win, ..m }
    } else {
        m
    }
}

/// The model after a frame of `dt` milliseconds. Only an active game
/// moves. The ball flies, meets the bricks, the power-ups are caught, the
/// ball meets the paddle, the particles and the power-ups age, the
/// trembling fades, and at last loss and win are looked for.
pub open spec fn updated(m: GameModel, dt: u32) -> GameModel {
    if m.state != GameState::Active {
        m
    } else {
        let flown = GameModel { ball: moved(m.ball, dt, field_width(m)), ..m };
        let met = paddle_hit(power_ups_caught(bricks_hit(flown, flown.bricks.len() as int)));
        win_checked(
            loss_checked(shake_aged(power_ups_aged(particles_aged(met, dt), dt), dt)),
        )
    }
}

impl Game {
    /// Lets the falling power-ups fall and the active ones run down.
    fn age_lists(&mut self, dt: u32)
        requires
            within_limits(old(self)@),
        ensures
            within_limits(final(self)@),
            final(self)@ == (GameModel {
                falling: fallen_all(old(self)@.falling, dt),
                active: survivors(old(self)@.active, dt),
                ..old(self)@
            }),
    {
        crate::power_up::let_fall(&mut self.falling, dt);
        crate::power_up::tick_active(&mut self.active, dt);
    }

    /// Settles the lasting effects after the power-ups aged.
    fn settle_effects(&mut self, sticky_over: bool, pass_over: bool)
        requires
            within_limits(old(self)@),
            old(self)@.ball.sticky && !sticky_over ==> has_kind(
                old(self)@.active,
                PowerUpKind::Sticky,
            ),
            old(self)@.ball.pass_through && !pass_over ==> has_kind(
                old(self)@.active,
                PowerUpKind::PassThrough,
            ),
        ensures
            final(self).wf(),
            final(self)@ == effects_settled(old(self)@, sticky_over, pass_over),
    {
        let confuse = crate::power_up::is_other_power_up_active(
            &self.active,
            PowerUpKind::Confuse,
        );
        let chaos = crate::power_up::is_other_power_up_active(&self.active, PowerUpKind::Chaos);
        self.player.color = own_color(self.player.color, sticky_over);
        self.ball.object.color = own_color(self.ball.object.color, pass_over);
        self.ball.sticky = self.ball.sticky && !sticky_over;
        self.ball.pass_through = self.ball.pass_through && !pass_over;
        self.effects.confuse = confuse;
        self.effects.chaos = chaos;
    }

    /// Lets the power-ups age by `dt` milliseconds.
    pub fn update_power_ups(&mut self, dt: u32)
        requires
            old(self).wf(),
        ensures
            final(self).wf(),
            final(self)@ == power_ups_aged(old(self)@, dt),
    {
        let sticky_over = crate::power_up::any_expired(&self.active, dt, PowerUpKind::Sticky);
        let pass_over = crate::power_up::any_expired(&self.active, dt, PowerUpKind::PassThrough);
        proof {
            lemma_lasting_kind_survives(self.active@, dt, PowerUpKind::Sticky);
            lemma_lasting_kind_survives(self.active@, dt, PowerUpKind::PassThrough);
        }
        self.age_lists(dt);
        self.settle_effects(sticky_over, pass_over);
    }

    /// Lets the trembling age by `dt` milliseconds.
    pub fn update_shake(&mut self, dt: u32)
        requires
            old(self).wf(),
        ensures
            final(self).wf(),
            final(self)@ == shake_aged(old(self)@, dt),
    {
        self.shake_time = if self.shake_time > dt as i64 {
            self.shake_time - dt as i64
        } else {
            0
        };
        self.effects.shake = self.shake_time > 0;
    }

    /// Gives the particles their frame.
    pub fn update_particles(&mut self, dt: u32)
        requires
            old(self).wf(),
        ensures
            final(self).wf(),
            final(self)@ == particles_aged(old(self)@, dt),
    {
        let offset = Vec2 { x: self.ball.radius / 2, y: self.ball.radius / 2 };
        self.particles.update(dt, &self.ball.object, PARTICLES_PER_FRAME, offset, &mut self.rng);
    }

    /// Looks whether the ball has left the field, and takes a life if so.
    pub fn check_loss(&mut self)
        requires
            old(self).wf(),
        ensures
            final(self).wf(),
            final(self)@ == loss_checked(old(self)@),
    {
        if self.ball.object.position.y >= self.height as i64 * UNITS_PER_PIXEL {
            if self.lives <= 1 {
                self.reset_level();
                self.state = GameState::Menu;
            } else {
                self.lives = self.lives - 1;
            }
            self.reset_player();
        }
    }

    /// Whether every brick of the level that can be destroyed has been.
    pub fn is_completed(&self) -> (done: bool)
        ensures
            done == all_cleared(self.bricks@),
    {
        let mut i: usize = 0;
        while i < self.bricks.len()
            invariant
                i <= self.bricks@.len(),
                forall|j: int|
                    0 <= j < i && !(#[trigger] self.bricks@[j]).is_solid
                        ==> self.bricks@[j].destroyed,
            decreases self.bricks@.len() - i,
        {
            if !self.bricks[i].is_solid && !self.bricks[i].destroyed {
                return false;
            }
            i += 1;
        }
        true
    }

    /// Looks whether the level is cleared, and declares the game won if so.
    pub fn check_win(&mut self)
        requires
            old(self).wf(),
        ensures
            final(self).wf(),
            final(self)@ == win_checked(old(self)@),
    {
        if self.state == GameState::Active && self.is_completed() {
            self.state = GameState::Win;
        }
    }

    /// One frame of `dt` milliseconds.
    pub fn update(&mut self, dt: u32)
        requires
            old(self).wf(),
        ensures
            final(self).wf(),
            final(self)@ == updated(old(self)@, dt),
    {
        if self.state == GameState::Active {
            self.ball.move_ball(dt, self.width);
            self.collide_bricks();
            self.catch_power_ups();
            self.collide_paddle();
            self.update_particles(dt);
            self.update_power_ups(dt);
            self.update_shake(dt);
            self.check_loss();
            self.check_win();
        }
    }

    /// Tests the ball against the bricks and the paddle, and the falling
    /// power-ups against the paddle.
    pub fn do_collisions(&mut self)
        requires
            old(self).wf(),
        ensures
            final(self).wf(),
            final(self)@ == paddle_hit(
                power_ups_caught(bricks_hit(old(self)@, old(self).bricks@.len() as int)),
            ),
    {
        self.collide_bricks();
        self.catch_power_ups();
        self.collide_paddle();
    }
}

/// If a power-up of a kind is active and the time of none of that kind is
/// up, one of that kind is still active afterwards.
proof fn lemma_lasting_kind_survives(active: Seq<PowerUp>, dt: u32, kind: PowerUpKind)
    ensures
        has_kind(active, kind) && !crate::power_up::expired_kind(active, dt, kind) ==> has_kind(
            survivors(active, dt),
            kind,
        ),
{
    crate::power_up::lemma_kind_lasts_with_its_last(active, dt, kind);
    if has_kind(active, kind) && !crate::power_up::expired_kind(active, dt, kind) {
        let i = choose|i: int| 0 <= i < active.len() && (#[trigger] active[i]).kind == kind;
        assert(active[i].duration > dt);
    }
}

/// How the lasting effects follow their power-ups when these age.
/// Confusion and chaos are on afterwards exactly if an active power-up of
/// their kind had time left: an effect shared by several power-ups stays
/// while one of them lasts, and ends with the last. The sticky paddle and the
/// ball that passes through end as soon as the time of one power-up of their
/// kind is up.
pub proof fn lemma_effects_follow_power_ups(m: GameModel, dt: u32)
    requires
        effects_agree(m),
    ensures
        effects_agree(power_ups_aged(m, dt)),
        power_ups_aged(m, dt).effects.confuse <==> exists|i: int|
            0 <= i < m.active.len() && (#[trigger] m.active[i]).kind == PowerUpKind::Confuse
                && m.active[i].duration > dt,
        power_ups_aged(m, dt).effects.chaos <==> exists|i: int|
            0 <= i < m.active.len() && (#[trigger] m.active[i]).kind == PowerUpKind::Chaos
                && m.active[i].duration > dt,
        crate::power_up::expired_kind(m.active, dt, PowerUpKind::Sticky) ==> !power_ups_aged(
            m,
            dt,
        ).ball.sticky,
        crate::power_up::expired_kind(m.active, dt, PowerUpKind::PassThrough) ==> !power_ups_aged(
            m,
            dt,
        ).ball.pass_through,
{
    crate::power_up::lemma_kind_lasts_with_its_last(m.active, dt, PowerUpKind::Confuse);
    crate::power_up::lemma_kind_lasts_with_its_last(m.active, dt, PowerUpKind::Chaos);
    lemma_lasting_kind_survives(m.active, dt, PowerUpKind::Sticky);
    lemma_lasting_kind_survives(m.active, dt, PowerUpKind::PassThrough);
}

/// A power-up that comes into effect switches its lasting effect on and
/// leaves the effects of the other kinds as they were.
pub proof fn lemma_activation_keeps_effects(m: GameModel, p: PowerUp)
    requires
        effects_agree(m),
    ensures
        effects_agree(activated(m, p)),
{
    let on = PowerUp { activated: true, ..p };
    lemma_has_kind_push(m.active, on, PowerUpKind::Confuse);
    lemma_has_kind_push(m.active, on, PowerUpKind::Chaos);
    lemma_has_kind_push(m.active, on, PowerUpKind::Sticky);
    lemma_has_kind_push(m.active, on, PowerUpKind::PassThrough);
}

/// A ball that comes straight down, or up, onto the middle of the paddle
/// goes straight back as fast as it came.
pub proof fn lemma_middle_hit_reverses(ball: BallObject, player: GameObject)
    requires
        ball.wf(),
        player.wf(),
        ball.object.velocity.x == 0,
        ball.center().0 == player.position.x + player.size.x as int / 2,
    ensures
        paddle_velocity(ball, player) == (Vec2 { x: 0, y: (-ball.object.velocity.y) as i64 }),
{
    let vy = ball.object.velocity.y as int;
    let fast = magnitude(vy);
    assert(sideways_push(ball, player) == 0);
    assert(crate::math::is_sqrt(vy * vy, fast)) by (nonlinear_arith)
        requires
            fast == if vy < 0 {
                -vy
            } else {
                vy
            },
    ;
    lemma_sqrt_floor(vy * vy, fast);
    assert(0 * 0 + vy * vy == vy * vy);
    assert(0 * 0 + (-vy) * (-vy) == vy * vy) by (nonlinear_arith);
    assert(speed_of(ball.object.velocity) == fast);
    if fast != 0 {
        assert(0 * fast == 0);
        assert(crate::math::toward_zero(0, fast) == 0);
        if vy > 0 {
            assert((vy * fast) / fast == vy) by (nonlinear_arith)
                requires
                    fast > 0,
            ;
            assert(-((-vy) * fast) == vy * fast) by (nonlinear_arith);
            assert((-vy) * fast < 0) by (nonlinear_arith)
                requires
                    vy > 0,
                    fast > 0,
            ;
        } else {
            assert(((-vy) * fast) / fast == -vy) by (nonlinear_arith)
                requires
                    fast > 0,
            ;
            assert((-vy) * fast >= 0) by (nonlinear_arith)
                requires
                    vy <= 0,
                    fast > 0,
            ;
        }
    }
}

/// Testing the ball against the bricks never brings a brick back: the
/// level keeps its bricks, each as solid as it was, and one that was
/// destroyed stays destroyed.
pub proof fn lemma_bricks_stay_destroyed(m: GameModel, n: int)
    requires
        0 <= n <= m.bricks.len(),
    ensures
        bricks_hit(m, n).bricks.len() == m.bricks.len(),
        forall|j: int|
            0 <= j < m.bricks.len() ==> (#[trigger] bricks_hit(m, n).bricks[j]).is_solid
                == m.bricks[j].is_solid,
        forall|j: int|
            0 <= j < m.bricks.len() && m.bricks[j].destroyed ==> (#[trigger] bricks_hit(
                m,
                n,
            ).bricks[j]).destroyed,
    decreases n,
{
    if n > 0 {
        lemma_bricks_stay_destroyed(m, n - 1);
        let before = bricks_hit(m, n - 1);
        assert forall|j: int| 0 <= j < m.bricks.len() implies (#[trigger] bricks_hit(
            m,
            n,
        ).bricks[j]).is_solid == m.bricks[j].is_solid && (m.bricks[j].destroyed ==> bricks_hit(
            m,
            n,
        ).bricks[j].destroyed) by {
            assert(before.bricks[j].is_solid == m.bricks[j].is_solid);
        }
    }
}

} // verus!
