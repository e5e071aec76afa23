use breakout::game_level::{check_grid, color_of_tile, GameLevel, LevelError};
use breakout::game_object::{Color, GameObject, Sprite};
use breakout::math::Vec2;

fn sample_grid() -> Vec<Vec<u32>> {
    vec![vec![1, 1, 1], vec![2, 2, 2], vec![0, 3, 0]]
}

fn load(grid: &Vec<Vec<u32>>, w: u32, h: u32) -> Result<GameLevel, LevelError> {
    GameLevel::load(grid, w, h)
}

#[test]
fn level_grid_yields_one_brick_for_each_tile_that_is_not_empty() {
    let level = load(&sample_grid(), 300, 150).ok().unwrap();
    assert_eq!(level.bricks.len(), 7);
    assert_eq!(level.bricks.iter().filter(|b| b.is_solid).count(), 3);
    assert_eq!(level.bricks.iter().filter(|b| !b.is_solid).count(), 4);
    assert!(level.bricks.iter().all(|b| !b.destroyed));
    assert!(level.bricks.iter().all(|b| b.size == Vec2 { x: 100_000, y: 50_000 }));
}

#[test]
fn bricks_stand_in_their_cells_row_by_row() {
    let level = load(&sample_grid(), 300, 150).ok().unwrap();
    let places: Vec<(i64, i64)> = level.bricks.iter().map(|b| (b.position.x, b.position.y)).collect();
    assert_eq!(
        places,
        vec![
            (0, 0),
            (100_000, 0),
            (200_000, 0),
            (0, 50_000),
            (100_000, 50_000),
            (200_000, 50_000),
            (100_000, 100_000),
        ]
    );
    assert_eq!(
        level.bricks[0],
        GameObject {
            position: Vec2 { x: 0, y: 0 },
            size: Vec2 { x: 100_000, y: 50_000 },
            velocity: Vec2 { x: 0, y: 0 },
            color: Color { r: 800, g: 800, b: 700 },
            rotation: 0,
            sprite: Sprite::BlockSolid,
            is_solid: true,
            destroyed: false,
        }
    );
    assert_eq!(level.bricks[3].color, Color { r: 200, g: 600, b: 1000 });
    assert_eq!(level.bricks[3].sprite, Sprite::Block);
    assert_eq!(level.bricks[6].color, Color { r: 0, g: 700, b: 0 });
}

#[test]
fn cell_size_is_the_field_divided_by_the_grid_rounded_down() {
    let level = load(&vec![vec![2, 0, 5], vec![0, 4, 0]], 100, 75).ok().unwrap();
    assert_eq!(level.bricks.len(), 3);
    assert_eq!(level.bricks[0].size, Vec2 { x: 33_333, y: 37_500 });
    assert_eq!(level.bricks[1].position, Vec2 { x: 66_666, y: 0 });
    assert_eq!(level.bricks[2].position, Vec2 { x: 33_333, y: 37_500 });
    assert_eq!(level.bricks[1].color, Color { r: 1000, g: 500, b: 0 });
    assert_eq!(level.bricks[2].color, Color { r: 800, g: 800, b: 400 });
}

#[test]
fn tile_colors() {
    assert_eq!(color_of_tile(1), Color { r: 800, g: 800, b: 700 });
    assert_eq!(color_of_tile(2), Color { r: 200, g: 600, b: 1000 });
    assert_eq!(color_of_tile(3), Color { r: 0, g: 700, b: 0 });
    assert_eq!(color_of_tile(4), Color { r: 800, g: 800, b: 400 });
    assert_eq!(color_of_tile(5), Color { r: 1000, g: 500, b: 0 });
    assert_eq!(color_of_tile(0), Color { r: 1000, g: 1000, b: 1000 });
}

#[test]
fn empty_grid_is_no_level() {
    assert_eq!(load(&vec![], 300, 150).err(), Some(LevelError::Empty));
    assert_eq!(load(&vec![vec![]], 300, 150).err(), Some(LevelError::Empty));
    assert_eq!(load(&vec![vec![], vec![1]], 300, 150).err(), Some(LevelError::Empty));
    assert_eq!(check_grid(&vec![]), Some(LevelError::Empty));
}

#[test]
fn ragged_grid_is_no_level() {
    assert_eq!(load(&vec![vec![1, 2], vec![1]], 300, 150).err(), Some(LevelError::Ragged { row: 1 }));
    assert_eq!(
        load(&vec![vec![1, 2], vec![1, 2], vec![1, 2, 3]], 300, 150).err(),
        Some(LevelError::Ragged { row: 2 })
    );
    assert_eq!(load(&vec![vec![1, 2], vec![9]], 300, 150).err(), Some(LevelError::Ragged { row: 1 }));
}

#[test]
fn unknown_tile_is_no_level() {
    assert_eq!(
        load(&vec![vec![1, 6]], 300, 150).err(),
        Some(LevelError::UnknownTile { row: 0, column: 1 })
    );
    assert_eq!(
        load(&vec![vec![1, 2], vec![9, 7], vec![1]], 300, 150).err(),
        Some(LevelError::UnknownTile { row: 1, column: 0 })
    );
    assert_eq!(check_grid(&vec![vec![5, 5], vec![5, 5]]), None);
}

#[test]
fn level_is_completed_when_every_breakable_brick_is_destroyed() {
    let mut level = load(&sample_grid(), 300, 150).ok().unwrap();
    assert!(!level.is_completed());
    for brick in level.bricks.iter_mut() {
        if !brick.is_solid {
            brick.destroyed = true;
        }
    }
    assert!(level.is_completed());
    level.bricks[4].destroyed = false;
    assert!(!level.is_completed());
}

#[test]
fn level_of_solid_bricks_is_completed() {
    let level = load(&vec![vec![1, 0, 1]], 300, 150).ok().unwrap();
    assert!(level.is_completed());
    let none = load(&vec![vec![0, 0]], 300, 150).ok().unwrap();
    assert!(none.bricks.is_empty());
    assert!(none.is_completed());
}
