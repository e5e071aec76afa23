use breakout::game_level::{GameLevel, LevelError};
use breakout::level_format::{parse_grid, parse_row};

fn chars(s: &str) -> Vec<char> {
    s.chars().collect()
}

#[test]
fn text_with_one_row_in_each_line_gives_the_grid() {
    let grid = vec![vec![1, 1, 1], vec![2, 2, 2], vec![0, 3, 0]];
    assert_eq!(parse_grid("1 1 1\n2 2 2\n0 3 0\n"), Some(grid.clone()));
    assert_eq!(parse_grid("1 1 1\n2 2 2\n0 3 0"), Some(grid));
}

#[test]
fn blanks_of_any_kind_and_number_separate_the_tiles() {
    assert_eq!(parse_grid("  12   7\t3\r\n5 \r\n"), Some(vec![vec![12, 7, 3], vec![5]]));
    assert_eq!(parse_grid("007 0"), Some(vec![vec![7, 0]]));
}

#[test]
fn empty_lines_are_empty_rows() {
    assert_eq!(parse_grid(""), Some(vec![]));
    assert_eq!(parse_grid("\n"), Some(vec![vec![]]));
    assert_eq!(parse_grid("1\n\n2"), Some(vec![vec![1], vec![], vec![2]]));
    assert_eq!(parse_grid("1\n\n"), Some(vec![vec![1], vec![]]));
    assert_eq!(parse_grid("   "), Some(vec![vec![]]));
}

#[test]
fn numbers_up_to_the_largest_tile_number_are_read() {
    assert_eq!(parse_grid("4294967295"), Some(vec![vec![4294967295]]));
    assert_eq!(parse_grid("4294967296"), None);
    assert_eq!(parse_grid("1 99999999999999999999999999 2"), None);
    assert_eq!(parse_grid("00000000000000000000001"), Some(vec![vec![1]]));
}

#[test]
fn anything_but_digits_and_blanks_is_malformed() {
    assert_eq!(parse_grid("1 x"), None);
    assert_eq!(parse_grid("-1"), None);
    assert_eq!(parse_grid("1,2"), None);
    assert_eq!(parse_grid("1 2\n3 4\n5 é"), None);
    assert_eq!(parse_grid("1.5"), None);
}

#[test]
fn a_row_is_read_between_two_places() {
    let text = chars("10 20\n30 4x");
    assert_eq!(parse_row(&text, 0, 5), Some(vec![10, 20]));
    assert_eq!(parse_row(&text, 1, 4), Some(vec![0, 2]));
    assert_eq!(parse_row(&text, 6, 10), Some(vec![30, 4]));
    assert_eq!(parse_row(&text, 6, 11), None);
    assert_eq!(parse_row(&text, 3, 3), Some(vec![]));
    assert_eq!(parse_row(&text, 0, 6), None);
}

#[test]
fn level_is_built_from_its_text() {
    let level = GameLevel::parse("1 1 1\n2 2 2\n0 3 0\n", 300, 150).ok().unwrap();
    assert_eq!(level.bricks.len(), 7);
    assert_eq!(level.bricks.iter().filter(|b| b.is_solid).count(), 3);
    let same = GameLevel::load(&vec![vec![1, 1, 1], vec![2, 2, 2], vec![0, 3, 0]], 300, 150)
        .ok()
        .unwrap();
    assert_eq!(level.bricks, same.bricks);
}

#[test]
fn faulty_text_is_no_level() {
    assert_eq!(GameLevel::parse("1 a", 300, 150).err(), Some(LevelError::Malformed));
    assert_eq!(GameLevel::parse("", 300, 150).err(), Some(LevelError::Empty));
    assert_eq!(GameLevel::parse("\n1", 300, 150).err(), Some(LevelError::Empty));
    assert_eq!(GameLevel::parse("1 2\n3", 300, 150).err(), Some(LevelError::Ragged { row: 1 }));
    assert_eq!(GameLevel::parse("1 2\n\n", 300, 150).err(), Some(LevelError::Ragged { row: 1 }));
    assert_eq!(
        GameLevel::parse("1 2\n3 9", 300, 150).err(),
        Some(LevelError::UnknownTile { row: 1, column: 1 })
    );
}
