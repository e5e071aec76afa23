use breakout::ball_object::BallObject;
use breakout::collision::{
    check_ball_collision, check_collision, vector_direction, Collision, Direction,
};
use breakout::game_object::{Color, GameObject, Sprite};
use breakout::math::Vec2;

fn boxed(x: i64, y: i64, w: i64, h: i64) -> GameObject {
    GameObject::new(Vec2 { x, y }, Vec2 { x: w, y: h }, Sprite::Block, Color::white())
}

fn ball_at(x: i64, y: i64, radius: i64) -> BallObject {
    BallObject::new(Vec2 { x, y }, radius, Vec2 { x: 0, y: 0 })
}

const MISS: Collision =
    Collision { hit: false, direction: Direction::Up, difference: Vec2 { x: 0, y: 0 } };

#[test]
fn boxes_that_share_area_overlap() {
    assert!(check_collision(&boxed(0, 0, 10, 10), &boxed(5, 5, 10, 10)));
    assert!(check_collision(&boxed(5, 5, 10, 10), &boxed(0, 0, 10, 10)));
    assert!(check_collision(&boxed(0, 0, 10, 10), &boxed(2, 2, 3, 3)));
}

#[test]
fn boxes_that_share_an_edge_overlap() {
    assert!(check_collision(&boxed(0, 0, 10, 10), &boxed(10, 0, 10, 10)));
    assert!(check_collision(&boxed(0, 0, 10, 10), &boxed(10, 10, 10, 10)));
}

#[test]
fn boxes_apart_do_not_overlap() {
    assert!(!check_collision(&boxed(0, 0, 10, 10), &boxed(11, 0, 10, 10)));
    assert!(!check_collision(&boxed(0, 0, 10, 10), &boxed(0, 11, 10, 10)));
    assert!(!check_collision(&boxed(0, 0, 10, 10), &boxed(-11, 0, 10, 10)));
}

#[test]
fn direction_is_the_nearest_axis() {
    assert_eq!(vector_direction(Vec2 { x: 0, y: 1 }), Direction::Up);
    assert_eq!(vector_direction(Vec2 { x: 1, y: 0 }), Direction::Right);
    assert_eq!(vector_direction(Vec2 { x: 0, y: -1 }), Direction::Down);
    assert_eq!(vector_direction(Vec2 { x: -1, y: 0 }), Direction::Left);
    assert_eq!(vector_direction(Vec2 { x: -2, y: 1 }), Direction::Left);
    assert_eq!(vector_direction(Vec2 { x: 3, y: -2 }), Direction::Right);
}

#[test]
fn direction_of_ties_and_of_the_null_vector() {
    assert_eq!(vector_direction(Vec2 { x: 0, y: 0 }), Direction::Up);
    assert_eq!(vector_direction(Vec2 { x: 1, y: 1 }), Direction::Up);
    assert_eq!(vector_direction(Vec2 { x: -1, y: 1 }), Direction::Up);
    assert_eq!(vector_direction(Vec2 { x: 1, y: -1 }), Direction::Right);
    assert_eq!(vector_direction(Vec2 { x: -1, y: -1 }), Direction::Down);
}

#[test]
fn ball_that_reaches_into_a_box_hits_it() {
    let c = check_ball_collision(&ball_at(0, 0, 10), &boxed(15, 0, 20, 20));
    assert_eq!(c, Collision { hit: true, direction: Direction::Right, difference: Vec2 { x: 5, y: 0 } });
    let above = check_ball_collision(&ball_at(0, 0, 10), &boxed(0, 16, 20, 20));
    assert_eq!(above, Collision { hit: true, direction: Direction::Up, difference: Vec2 { x: 0, y: 6 } });
}

#[test]
fn ball_that_only_touches_a_box_misses_it() {
    assert_eq!(check_ball_collision(&ball_at(0, 0, 10), &boxed(20, 0, 20, 20)), MISS);
    assert_eq!(check_ball_collision(&ball_at(0, 0, 10), &boxed(21, 0, 20, 20)), MISS);
}

#[test]
fn ball_centred_on_a_corner_hits() {
    let target = boxed(100, 100, 40, 30);
    for (cx, cy) in [(100, 100), (140, 100), (100, 130), (140, 130)] {
        for radius in [1, 5, 24] {
            let c = check_ball_collision(&ball_at(cx - radius, cy - radius, radius), &target);
            assert!(c.hit);
            assert_eq!(c.difference, Vec2 { x: 0, y: 0 });
            assert_eq!(c.direction, Direction::Up);
        }
    }
}

#[test]
fn ball_near_a_corner_is_measured_to_the_corner() {
    let near = check_ball_collision(&ball_at(0, 0, 10), &boxed(17, 17, 10, 10));
    assert_eq!(near, Collision { hit: true, direction: Direction::Up, difference: Vec2 { x: 7, y: 7 } });
    assert_eq!(check_ball_collision(&ball_at(0, 0, 10), &boxed(18, 18, 10, 10)), MISS);
}

#[test]
fn ball_outside_the_grown_box_misses() {
    let target = boxed(100, 100, 40, 30);
    assert_eq!(check_ball_collision(&ball_at(70, 105, 10), &target), MISS);
    assert_eq!(check_ball_collision(&ball_at(150, 105, 10), &target), MISS);
    assert_eq!(check_ball_collision(&ball_at(110, 70, 10), &target), MISS);
    assert_eq!(check_ball_collision(&ball_at(110, 140, 10), &target), MISS);
}

#[test]
fn ball_inside_a_box_hits() {
    let c = check_ball_collision(&ball_at(110, 105, 5), &boxed(100, 100, 40, 30));
    assert_eq!(c, Collision { hit: true, direction: Direction::Up, difference: Vec2 { x: 0, y: 0 } });
}
