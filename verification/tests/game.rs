use breakout::ball_object::BallObject;
use breakout::collision::{Collision, Direction};
use breakout::game::{
    bounce, make_ball, make_player, rescale, speed, Game, GameState, KEY_LAUNCH, KEY_LEFT,
    KEY_RIGHT, LIVES,
};
use breakout::game_level::GameLevel;
use breakout::game_object::{Color, GameObject, Sprite};
use breakout::input::KeyAction;
use breakout::math::Vec2;
use breakout::post_processor::{EffectUniforms, PostProcessor};
use breakout::power_up::{PowerUp, PowerUpKind};

fn level(grid: Vec<Vec<u32>>) -> GameLevel {
    GameLevel::load(&grid, 800, 300).ok().unwrap()
}

fn started(grid: Vec<Vec<u32>>, seed: u64) -> Game {
    let mut game = Game::new(800, 600, seed);
    game.init(vec![level(grid)]);
    game
}

fn free_ball(game: &mut Game, x: i64, y: i64, vx: i64, vy: i64) {
    game.ball.stuck = false;
    game.ball.object.position = Vec2 { x, y };
    game.ball.object.velocity = Vec2 { x: vx, y: vy };
}

fn on_paddle(kind: PowerUpKind, game: &Game) -> PowerUp {
    PowerUp::new(kind, game.player.position)
}

#[test]
fn new_game_waits_in_the_menu() {
    let game = Game::new(800, 600, 9);
    assert_eq!(game.state, GameState::Menu);
    assert_eq!((game.width, game.height), (800, 600));
    assert_eq!(game.lives, LIVES);
    assert_eq!(game.lives, 3);
    assert!(game.levels.is_empty());
    assert!(game.bricks.is_empty());
    assert!(game.falling.is_empty());
    assert!(game.active.is_empty());
    assert_eq!(game.particles.particles.len(), 500);
    assert_eq!(game.effects, PostProcessor { shake: false, confuse: false, chaos: false });
    assert_eq!(game.shake_time, 0);
    assert_eq!(game.rng.state, 9);
}

#[test]
fn paddle_and_ball_start_in_the_middle_of_the_bottom() {
    let player = make_player(800, 600);
    assert_eq!(player.position, Vec2 { x: 350_000, y: 580_000 });
    assert_eq!(player.size, Vec2 { x: 100_000, y: 20_000 });
    assert_eq!(player.sprite, Sprite::Paddle);
    let ball = make_ball(800, 600);
    assert_eq!(ball.object.position, Vec2 { x: 387_500, y: 555_000 });
    assert_eq!(ball.object.velocity, Vec2 { x: 100, y: -350 });
    assert_eq!(ball.radius, 12_500);
    assert!(ball.stuck);
    let game = Game::new(800, 600, 0);
    assert_eq!(game.player, player);
    assert_eq!(game.ball, ball);
}

#[test]
fn init_starts_the_first_level() {
    let mut game = Game::new(800, 600, 9);
    game.lives = 1;
    game.init(vec![level(vec![vec![1, 2]]), level(vec![vec![3]])]);
    assert_eq!(game.state, GameState::Active);
    assert_eq!(game.level, 0);
    assert_eq!(game.levels.len(), 2);
    assert_eq!(game.bricks, game.levels[0].bricks);
    assert_eq!(game.bricks.len(), 2);
    assert_eq!(game.lives, 3);
    assert_eq!(game.ball, make_ball(800, 600));
}

#[test]
fn init_without_levels_has_no_bricks() {
    let mut game = Game::new(800, 600, 9);
    game.init(vec![]);
    assert_eq!(game.state, GameState::Active);
    assert!(game.bricks.is_empty());
}

#[test]
fn destroying_every_breakable_brick_wins_the_game() {
    let mut game = started(vec![vec![1, 1, 1], vec![2, 2, 2], vec![0, 3, 0]], 1);
    assert_eq!(game.bricks.len(), 7);
    assert_eq!(game.bricks.iter().filter(|b| b.is_solid).count(), 3);
    game.update(16);
    assert_eq!(game.state, GameState::Active);
    for brick in game.bricks.iter_mut() {
        if !brick.is_solid {
            brick.destroyed = true;
        }
    }
    assert!(game.is_completed());
    game.update(16);
    assert_eq!(game.state, GameState::Win);
    assert_eq!(game.bricks.iter().filter(|b| b.is_solid && !b.destroyed).count(), 3);
}

#[test]
fn one_breakable_brick_left_is_no_win() {
    let mut game = started(vec![vec![1, 2, 3]], 1);
    game.bricks[1].destroyed = true;
    game.update(16);
    assert_eq!(game.state, GameState::Active);
    assert!(!game.is_completed());
}

#[test]
fn a_game_that_is_won_stands_still() {
    let mut game = started(vec![vec![1]], 1);
    game.update(16);
    assert_eq!(game.state, GameState::Win);
    free_ball(&mut game, 100_000, 100_000, 100, 100);
    let rng = game.rng.state;
    game.update(16);
    game.process_input(16);
    assert_eq!(game.ball.object.position, Vec2 { x: 100_000, y: 100_000 });
    assert_eq!(game.rng.state, rng);
}

#[test]
fn ball_meeting_the_middle_of_the_paddle_goes_straight_back() {
    let mut game = started(vec![vec![2]], 1);
    free_ball(&mut game, 387_500, 556_000, 0, -5);
    game.collide_paddle();
    assert_eq!(game.ball.object.velocity, Vec2 { x: 0, y: 5 });
    assert_eq!(speed(0, 5), 5);
    assert!(!game.ball.stuck);
    assert_eq!(game.ball.object.position, Vec2 { x: 387_500, y: 556_000 });
}

#[test]
fn ball_meeting_the_end_of_the_paddle_is_sent_sideways_at_its_speed() {
    let mut game = started(vec![vec![2]], 1);
    free_ball(&mut game, 437_500, 556_000, 100, 350);
    game.collide_paddle();
    assert_eq!(game.ball.object.velocity, Vec2 { x: 180, y: -316 });
    assert_eq!(speed(100, 350), 364);
    assert_eq!(speed(180, -316), 363);
    let mut left = started(vec![vec![2]], 1);
    free_ball(&mut left, 337_500, 556_000, 100, 350);
    left.collide_paddle();
    assert_eq!(left.ball.object.velocity, Vec2 { x: -180, y: -316 });
}

#[test]
fn ball_away_from_the_paddle_keeps_its_velocity() {
    let mut game = started(vec![vec![2]], 1);
    free_ball(&mut game, 387_500, 555_000, 0, 5);
    game.collide_paddle();
    assert_eq!(game.ball.object.velocity, Vec2 { x: 0, y: 5 });
    let mut stuck = started(vec![vec![2]], 1);
    stuck.ball.object.position.y = 556_000;
    stuck.collide_paddle();
    assert_eq!(stuck.ball.object.velocity, Vec2 { x: 100, y: -350 });
}

#[test]
fn sticky_ball_stays_on_the_paddle() {
    let mut game = started(vec![vec![2]], 1);
    let p = on_paddle(PowerUpKind::Sticky, &game);
    game.activate_power_up(p);
    free_ball(&mut game, 437_500, 556_000, 100, 350);
    game.collide_paddle();
    assert!(game.ball.stuck);
    assert_eq!(game.ball.object.velocity, Vec2 { x: 100, y: 350 });
    game.keys.key_callback(KEY_LAUNCH, KeyAction::Press);
    game.process_input(0);
    assert!(!game.ball.stuck);
    assert_eq!(game.ball.object.velocity, Vec2 { x: 100, y: -350 });
}

#[test]
fn rescale_turns_and_keeps_the_speed() {
    assert_eq!(rescale(3, 4, 10), Vec2 { x: 6, y: 8 });
    assert_eq!(rescale(-3, 4, 10), Vec2 { x: -6, y: 8 });
    assert_eq!(rescale(0, 0, 10), Vec2 { x: 0, y: 0 });
    assert_eq!(rescale(200, 350, 364), Vec2 { x: 180, y: 316 });
    assert_eq!(rescale(5, 0, 0), Vec2 { x: 0, y: 0 });
}

#[test]
fn paddle_moves_while_a_movement_key_is_held() {
    let mut game = started(vec![vec![2]], 1);
    game.keys.key_callback(KEY_LEFT, KeyAction::Press);
    game.process_input(16);
    assert_eq!(game.player.position.x, 342_000);
    assert_eq!(game.ball.object.position.x, 379_500);
    game.process_input(16);
    assert_eq!(game.player.position.x, 334_000);
    game.keys.key_callback(KEY_LEFT, KeyAction::Release);
    game.process_input(16);
    assert_eq!(game.player.position.x, 334_000);
    game.keys.key_callback(KEY_RIGHT, KeyAction::Press);
    game.process_input(10);
    assert_eq!(game.player.position.x, 339_000);
    assert_eq!(game.ball.object.position.x, 376_500);
    assert_eq!(game.player.position.y, 580_000);
}

#[test]
fn paddle_stops_at_the_edges_of_the_field() {
    let mut game = started(vec![vec![2]], 1);
    game.keys.key_callback(KEY_LEFT, KeyAction::Press);
    game.process_input(1000);
    assert_eq!(game.player.position.x, 0);
    assert_eq!(game.ball.object.position.x, 37_500);
    game.keys.key_callback(KEY_LEFT, KeyAction::Release);
    game.keys.key_callback(KEY_RIGHT, KeyAction::Press);
    game.process_input(5000);
    assert_eq!(game.player.position.x, 700_000);
    assert_eq!(game.ball.object.position.x, 737_500);
}

#[test]
fn free_ball_does_not_follow_the_paddle() {
    let mut game = started(vec![vec![2]], 1);
    free_ball(&mut game, 100_000, 100_000, 0, 0);
    game.keys.key_callback(KEY_RIGHT, KeyAction::Press);
    game.process_input(16);
    assert_eq!(game.player.position.x, 358_000);
    assert_eq!(game.ball.object.position.x, 100_000);
}

#[test]
fn launch_key_lets_the_ball_go_once_for_each_press() {
    let mut game = started(vec![vec![2]], 1);
    game.ball.object.velocity = Vec2 { x: 7, y: 7 };
    game.process_input(16);
    assert!(game.ball.stuck);
    game.keys.key_callback(KEY_LAUNCH, KeyAction::Press);
    game.process_input(16);
    assert!(!game.ball.stuck);
    assert_eq!(game.ball.object.velocity, Vec2 { x: 100, y: -350 });
    game.ball.stuck = true;
    game.keys.key_callback(KEY_LAUNCH, KeyAction::Repeat);
    game.process_input(16);
    assert!(game.ball.stuck);
    game.keys.key_callback(KEY_LAUNCH, KeyAction::Release);
    game.keys.key_callback(KEY_LAUNCH, KeyAction::Press);
    game.process_input(16);
    assert!(!game.ball.stuck);
}

#[test]
fn keys_are_not_heard_outside_play() {
    let mut game = Game::new(800, 600, 1);
    game.keys.key_callback(KEY_LEFT, KeyAction::Press);
    game.keys.key_callback(KEY_LAUNCH, KeyAction::Press);
    game.process_input(16);
    assert_eq!(game.player.position.x, 350_000);
    assert!(game.ball.stuck);
    assert!(!game.keys.keys_processed[KEY_LAUNCH as usize]);
}

#[test]
fn ball_breaks_a_brick_and_bounces_off() {
    let mut game = started(vec![vec![2, 0, 0, 0, 0, 0, 0, 0]], 1);
    assert_eq!(game.bricks[0].size, Vec2 { x: 100_000, y: 300_000 });
    free_ball(&mut game, 40_000, 295_000, 100, -350);
    game.collide_bricks();
    assert!(game.bricks[0].destroyed);
    assert_eq!(game.ball.object.velocity, Vec2 { x: 100, y: 350 });
    assert_eq!(game.ball.object.position, Vec2 { x: 40_000, y: 300_000 });
    assert!(game.falling.is_empty());
    assert!(!game.effects.shake);
    let velocity = game.ball.object.velocity;
    game.ball.object.position.y = 295_000;
    game.collide_bricks();
    assert_eq!(game.ball.object.velocity, velocity);
}

#[test]
fn solid_brick_stays_and_shakes_the_picture() {
    let mut game = started(vec![vec![1, 0, 0, 0, 0, 0, 0, 0]], 1);
    free_ball(&mut game, 95_000, 100_000, -100, -350);
    let rng = game.rng.state;
    game.collide_brick(0);
    assert!(!game.bricks[0].destroyed);
    assert!(game.effects.shake);
    assert_eq!(game.shake_time, 50);
    assert_eq!(game.ball.object.velocity, Vec2 { x: 100, y: -350 });
    assert_eq!(game.ball.object.position, Vec2 { x: 100_000, y: 100_000 });
    assert_eq!(game.rng.state, rng);
    game.update_shake(20);
    assert_eq!(game.shake_time, 30);
    assert!(game.effects.shake);
    game.update_shake(30);
    assert_eq!(game.shake_time, 0);
    assert!(!game.effects.shake);
    game.update_shake(30);
    assert_eq!(game.shake_time, 0);
}

#[test]
fn destroyed_brick_drops_a_power_up_when_the_draw_says_so() {
    let mut game = started(vec![vec![2, 0, 0, 0, 0, 0, 0, 0]], 190);
    free_ball(&mut game, 40_000, 295_000, 100, -350);
    game.collide_bricks();
    assert!(game.bricks[0].destroyed);
    assert_eq!(game.falling, vec![PowerUp::new(PowerUpKind::PadSizeIncrease, Vec2 { x: 0, y: 0 })]);
}

#[test]
fn ball_that_passes_through_breaks_bricks_without_bouncing() {
    let mut game = started(vec![vec![2, 1, 0, 0, 0, 0, 0, 0]], 1);
    let p = on_paddle(PowerUpKind::PassThrough, &game);
    game.activate_power_up(p);
    assert!(game.ball.pass_through);
    assert_eq!(game.ball.object.color, Color { r: 1000, g: 500, b: 500 });
    free_ball(&mut game, 40_000, 295_000, 100, -350);
    game.collide_brick(0);
    assert!(game.bricks[0].destroyed);
    assert_eq!(game.ball.object.velocity, Vec2 { x: 100, y: -350 });
    assert_eq!(game.ball.object.position, Vec2 { x: 40_000, y: 295_000 });
    free_ball(&mut game, 140_000, 295_000, 100, -350);
    game.collide_brick(1);
    assert!(!game.bricks[1].destroyed);
    assert_eq!(game.ball.object.velocity, Vec2 { x: 100, y: 350 });
}

#[test]
fn bounce_pushes_the_ball_out_along_the_side_it_met() {
    let start = BallObject::new(Vec2 { x: 1000, y: 2000 }, 100, Vec2 { x: 30, y: -40 });
    let mut ball = start;
    bounce(&mut ball, Collision { hit: true, direction: Direction::Left, difference: Vec2 { x: -60, y: 0 } });
    assert_eq!(ball.object.position, Vec2 { x: 1040, y: 2000 });
    assert_eq!(ball.object.velocity, Vec2 { x: -30, y: -40 });
    ball = start;
    bounce(&mut ball, Collision { hit: true, direction: Direction::Right, difference: Vec2 { x: 60, y: 0 } });
    assert_eq!(ball.object.position, Vec2 { x: 960, y: 2000 });
    assert_eq!(ball.object.velocity, Vec2 { x: -30, y: -40 });
    ball = start;
    bounce(&mut ball, Collision { hit: true, direction: Direction::Up, difference: Vec2 { x: 0, y: 75 } });
    assert_eq!(ball.object.position, Vec2 { x: 1000, y: 1975 });
    assert_eq!(ball.object.velocity, Vec2 { x: 30, y: 40 });
    ball = start;
    bounce(&mut ball, Collision { hit: true, direction: Direction::Down, difference: Vec2 { x: 0, y: -75 } });
    assert_eq!(ball.object.position, Vec2 { x: 1000, y: 2025 });
    assert_eq!(ball.object.velocity, Vec2 { x: 30, y: 40 });
}

#[test]
fn power_up_that_meets_the_paddle_comes_into_effect() {
    let mut game = started(vec![vec![2]], 1);
    let caught = on_paddle(PowerUpKind::Sticky, &game);
    let missed = PowerUp::new(PowerUpKind::Chaos, Vec2 { x: 0, y: 100_000 });
    let gone = PowerUp::new(PowerUpKind::Confuse, Vec2 { x: 350_000, y: 600_000 });
    game.falling = vec![missed, caught, gone];
    game.catch_power_ups();
    assert_eq!(game.falling, vec![missed]);
    assert_eq!(game.active.len(), 1);
    assert_eq!(game.active[0].kind, PowerUpKind::Sticky);
    assert!(game.active[0].activated);
    assert_eq!(game.active[0].duration, 20_000);
    assert!(game.ball.sticky);
    assert_eq!(game.player.color, Color { r: 1000, g: 500, b: 1000 });
    assert!(!game.effects.chaos);
    assert!(!game.effects.confuse);
}

#[test]
fn each_kind_of_power_up_has_its_effect() {
    let mut game = started(vec![vec![2]], 1);
    let speed_up = on_paddle(PowerUpKind::Speed, &game);
    game.activate_power_up(speed_up);
    assert_eq!(game.ball.object.velocity, Vec2 { x: 120, y: -420 });
    let wider = on_paddle(PowerUpKind::PadSizeIncrease, &game);
    game.activate_power_up(wider);
    assert_eq!(game.player.size, Vec2 { x: 150_000, y: 20_000 });
    let confuse = on_paddle(PowerUpKind::Confuse, &game);
    game.activate_power_up(confuse);
    assert!(game.effects.confuse);
    assert!(!game.effects.chaos);
    let chaos = on_paddle(PowerUpKind::Chaos, &game);
    game.activate_power_up(chaos);
    assert!(game.effects.chaos);
    assert_eq!(game.active.len(), 4);
    game.update_power_ups(0);
    assert_eq!(game.active.len(), 2);
    assert_eq!(game.ball.object.velocity, Vec2 { x: 120, y: -420 });
    assert_eq!(game.player.size.x, 150_000);
}

#[test]
fn positive_effect_ends_when_its_time_is_up() {
    let mut game = started(vec![vec![2]], 1);
    let sticky = on_paddle(PowerUpKind::Sticky, &game);
    game.activate_power_up(sticky);
    game.update_power_ups(19_999);
    assert!(game.ball.sticky);
    assert_eq!(game.active.len(), 1);
    assert_eq!(game.active[0].duration, 1);
    game.update_power_ups(1);
    assert!(!game.ball.sticky);
    assert!(game.active.is_empty());
    assert_eq!(game.player.color, Color { r: 1000, g: 1000, b: 1000 });
    game.update_power_ups(1);
    assert!(game.active.is_empty());
}

#[test]
fn helpful_effect_ends_with_the_first_of_its_kind_that_expires() {
    let mut game = started(vec![vec![2]], 1);
    let first = on_paddle(PowerUpKind::Sticky, &game);
    game.activate_power_up(first);
    game.update_power_ups(5_000);
    let second = on_paddle(PowerUpKind::Sticky, &game);
    game.activate_power_up(second);
    assert_eq!(game.active.len(), 2);
    game.update_power_ups(14_999);
    assert!(game.ball.sticky);
    assert_eq!(game.player.color, Color { r: 1000, g: 500, b: 1000 });
    game.update_power_ups(1);
    assert_eq!(game.active.len(), 1);
    assert_eq!(game.active[0].duration, 5_000);
    assert!(!game.ball.sticky);
    assert_eq!(game.player.color, Color { r: 1000, g: 1000, b: 1000 });
    let through = on_paddle(PowerUpKind::PassThrough, &game);
    game.activate_power_up(through);
    game.update_power_ups(10_000);
    assert!(!game.ball.pass_through);
    assert_eq!(game.ball.object.color, Color { r: 1000, g: 1000, b: 1000 });
    assert!(game.active.is_empty());
}

#[test]
fn shared_effect_lasts_until_the_last_of_its_kind_expires() {
    let mut game = started(vec![vec![2]], 1);
    let first = on_paddle(PowerUpKind::Confuse, &game);
    game.activate_power_up(first);
    game.update_power_ups(5_000);
    let second = on_paddle(PowerUpKind::Confuse, &game);
    game.activate_power_up(second);
    assert_eq!(game.active.len(), 2);
    game.update_power_ups(10_000);
    assert_eq!(game.active.len(), 1);
    assert!(game.effects.confuse);
    game.update_power_ups(4_999);
    assert!(game.effects.confuse);
    game.update_power_ups(1);
    assert!(game.active.is_empty());
    assert!(!game.effects.confuse);
}

#[test]
fn falling_power_ups_fall_in_each_frame() {
    let mut game = started(vec![vec![2]], 1);
    game.falling = vec![PowerUp::new(PowerUpKind::Chaos, Vec2 { x: 0, y: 100_000 })];
    game.update(16);
    assert_eq!(game.falling.len(), 1);
    assert_eq!(game.falling[0].object.position, Vec2 { x: 0, y: 102_400 });
}

#[test]
fn ball_below_the_field_costs_a_life() {
    let mut game = started(vec![vec![2, 1]], 1);
    let sticky = on_paddle(PowerUpKind::Sticky, &game);
    game.activate_power_up(sticky);
    game.player.position.x = 10_000;
    game.bricks[0].destroyed = true;
    free_ball(&mut game, 100_000, 600_000, 0, 350);
    game.check_loss();
    assert_eq!(game.lives, 2);
    assert_eq!(game.state, GameState::Active);
    assert_eq!(game.ball, make_ball(800, 600));
    assert_eq!(game.player, make_player(800, 600));
    assert!(game.active.is_empty());
    assert!(game.bricks[0].destroyed);
    game.check_loss();
    assert_eq!(game.lives, 2);
}

#[test]
fn last_life_lost_starts_the_level_over_in_the_menu() {
    let mut game = started(vec![vec![2, 1]], 1);
    game.lives = 1;
    game.bricks[0].destroyed = true;
    free_ball(&mut game, 100_000, 700_000, 0, 350);
    game.update(0);
    assert_eq!(game.state, GameState::Menu);
    assert_eq!(game.lives, 3);
    assert!(!game.bricks[0].destroyed);
    assert_eq!(game.ball, make_ball(800, 600));
}

#[test]
fn reset_level_puts_the_bricks_back() {
    let mut game = started(vec![vec![2, 3]], 1);
    game.bricks[0].destroyed = true;
    game.bricks[1].destroyed = true;
    game.lives = 2;
    game.reset_level();
    assert_eq!(game.bricks, game.levels[0].bricks);
    assert_eq!(game.lives, 3);
    assert_eq!(game.state, GameState::Active);
}

#[test]
fn reset_player_ends_the_lasting_effects() {
    let mut game = started(vec![vec![2]], 1);
    for kind in [PowerUpKind::Confuse, PowerUpKind::Chaos, PowerUpKind::PassThrough, PowerUpKind::PadSizeIncrease] {
        let p = on_paddle(kind, &game);
        game.activate_power_up(p);
    }
    game.shake_time = 50;
    game.effects.shake = true;
    game.reset_player();
    assert!(game.active.is_empty());
    assert_eq!(game.effects, PostProcessor { shake: true, confuse: false, chaos: false });
    assert_eq!(game.player, make_player(800, 600));
    assert_eq!(game.ball, make_ball(800, 600));
}

#[test]
fn a_frame_moves_the_ball_and_feeds_the_particles() {
    let mut game = started(vec![vec![2]], 1);
    free_ball(&mut game, 400_000, 400_000, 100, -350);
    game.update(16);
    assert_eq!(game.ball.object.position, Vec2 { x: 401_600, y: 394_400 });
    assert_eq!(game.particles.particles.iter().filter(|p| p.life > 0).count(), 2);
    assert_eq!(game.particles.particles[0].velocity, Vec2 { x: 10, y: -35 });
    game.update(16);
    assert_eq!(game.particles.particles.iter().filter(|p| p.life > 0).count(), 4);
    assert_eq!(game.state, GameState::Active);
    assert_eq!(game.lives, 3);
}

#[test]
fn do_collisions_tests_bricks_power_ups_and_paddle() {
    let mut game = started(vec![vec![2, 0, 0, 0, 0, 0, 0, 0]], 1);
    game.falling = vec![on_paddle(PowerUpKind::Chaos, &game)];
    free_ball(&mut game, 40_000, 295_000, 100, -350);
    game.do_collisions();
    assert!(game.bricks[0].destroyed);
    assert!(game.effects.chaos);
    assert!(game.falling.is_empty());
    assert_eq!(game.ball.object.velocity, Vec2 { x: 100, y: 350 });
}

#[test]
fn effects_are_handed_to_the_shader_with_the_time() {
    let effects = PostProcessor { shake: true, confuse: false, chaos: true };
    assert_eq!(
        effects.render(1234),
        EffectUniforms { shake: true, confuse: false, chaos: true, time: 1234 }
    );
    assert_eq!(PostProcessor::new(), PostProcessor { shake: false, confuse: false, chaos: false });
}

#[test]
fn game_objects_compare_by_their_fields() {
    let a = GameObject::new(Vec2 { x: 1, y: 2 }, Vec2 { x: 3, y: 4 }, Sprite::Block, Color::white());
    let mut b = a;
    assert_eq!(a, b);
    b.destroyed = true;
    assert_ne!(a, b);
}
