use breakout::ball_object::BallObject;
use breakout::game_object::{Color, GameObject, Sprite};
use breakout::math::{Vec2, COORD_MAX};

#[test]
fn new_ball_rests_stuck_in_its_square() {
    let ball = BallObject::new(Vec2 { x: 5, y: 6 }, 12_500, Vec2 { x: 100, y: -350 });
    assert_eq!(ball.object.position, Vec2 { x: 5, y: 6 });
    assert_eq!(ball.object.size, Vec2 { x: 25_000, y: 25_000 });
    assert_eq!(ball.object.velocity, Vec2 { x: 100, y: -350 });
    assert_eq!(ball.object.color, Color { r: 1000, g: 1000, b: 1000 });
    assert_eq!(ball.object.sprite, Sprite::Ball);
    assert_eq!(ball.radius, 12_500);
    assert!(ball.stuck);
    assert!(!ball.sticky);
    assert!(!ball.pass_through);
}

#[test]
fn new_object_rests_whole() {
    let o = GameObject::new(Vec2 { x: 1, y: 2 }, Vec2 { x: 3, y: 4 }, Sprite::Paddle, Color::white());
    assert_eq!(o.velocity, Vec2 { x: 0, y: 0 });
    assert_eq!(o.rotation, 0);
    assert!(!o.is_solid);
    assert!(!o.destroyed);
}

#[test]
fn stuck_ball_does_not_move() {
    let mut ball = BallObject::new(Vec2 { x: 1000, y: 1000 }, 12_500, Vec2 { x: 100, y: -350 });
    let at = ball.move_ball(16, 800);
    assert_eq!(at, Vec2 { x: 1000, y: 1000 });
    assert_eq!(ball.object.velocity, Vec2 { x: 100, y: -350 });
}

#[test]
fn free_ball_flies_by_its_velocity() {
    let mut ball = BallObject::new(Vec2 { x: 100_000, y: 100_000 }, 12_500, Vec2 { x: 100, y: -350 });
    ball.stuck = false;
    let at = ball.move_ball(16, 800);
    assert_eq!(at, Vec2 { x: 101_600, y: 94_400 });
    assert_eq!(ball.object.position, at);
    assert_eq!(ball.object.velocity, Vec2 { x: 100, y: -350 });
}

#[test]
fn ball_bounces_off_the_left_wall_and_the_ceiling() {
    let mut ball = BallObject::new(Vec2 { x: 1000, y: 1000 }, 12_500, Vec2 { x: -100, y: -350 });
    ball.stuck = false;
    let at = ball.move_ball(16, 800);
    assert_eq!(at, Vec2 { x: 0, y: 0 });
    assert_eq!(ball.object.velocity, Vec2 { x: 100, y: 350 });
}

#[test]
fn ball_bounces_off_the_right_wall() {
    let mut ball = BallObject::new(Vec2 { x: 790_000, y: 100_000 }, 12_500, Vec2 { x: 100, y: 350 });
    ball.stuck = false;
    let at = ball.move_ball(16, 800);
    assert_eq!(at, Vec2 { x: 775_000, y: 105_600 });
    assert_eq!(ball.object.velocity, Vec2 { x: -100, y: 350 });
}

#[test]
fn ball_falls_through_the_bottom() {
    let mut ball = BallObject::new(Vec2 { x: 100_000, y: 590_000 }, 12_500, Vec2 { x: 0, y: 350 });
    ball.stuck = false;
    let at = ball.move_ball(1000, 800);
    assert_eq!(at, Vec2 { x: 100_000, y: 940_000 });
    let further = ball.move_ball(u32::MAX, 800);
    assert_eq!(further.y, 940_000 + 350 * 4_294_967_295);
    ball.object.velocity.y = 1_000_000;
    let far = ball.move_ball(u32::MAX, 800);
    assert_eq!(far.y, COORD_MAX);
}

#[test]
fn reset_puts_the_ball_back_without_effects() {
    let mut ball = BallObject::new(Vec2 { x: 1, y: 2 }, 12_500, Vec2 { x: 3, y: 4 });
    ball.stuck = false;
    ball.sticky = true;
    ball.pass_through = true;
    ball.reset(Vec2 { x: 10, y: 20 }, Vec2 { x: 100, y: -350 });
    assert_eq!(ball.object.position, Vec2 { x: 10, y: 20 });
    assert_eq!(ball.object.velocity, Vec2 { x: 100, y: -350 });
    assert_eq!(ball.radius, 12_500);
    assert!(ball.stuck);
    assert!(!ball.sticky);
    assert!(!ball.pass_through);
}
