//! A level: the bricks that a grid of tile numbers describes.

use vstd::prelude::*;
use crate::game_object::Color;
use crate::game_object::GameObject;
use crate::game_object::Sprite;
use crate::math::Vec2;
use crate::math::UNITS_PER_PIXEL;

verus! {

/// The tile that leaves its cell empty.
pub const TILE_EMPTY: u32 = 0;

/// The tile of a solid brick, which the ball cannot destroy.
pub const TILE_SOLID: u32 = 1;

/// The largest tile number; the numbers above `TILE_SOLID` up to this one
/// are bricks that the ball destroys, one colour each.
pub const TILE_LAST: u32 = 5;

/// Why a grid describes no level.
#[derive(Clone, Copy, Debug, PartialEq, Eq, Structural)]
pub enum LevelError {
    /// The text holds something other than numbers and blanks, or a number
    /// too large for a tile.
    Malformed,
    /// The grid has no row, or its first row has no cell.
    Empty,
    /// The row is not as long as the first one.
    Ragged { row: usize },
    /// The cell holds a number that is no tile.
    UnknownTile { row: usize, column: usize },
}

/// The bricks of one level, row by row from the top left.
pub struct GameLevel {
    pub bricks: Vec<GameObject>,
}

/// The colour of the brick that a tile number stands for.
pub open spec fn tile_color(tile: u32) -> Color {
    if tile == 1 {
        Color { r: 800, g: 800, b: 700 }
    } else if tile == 2 {
        Color { r: 200, g: 600, b: 1000 }
    } else if tile == 3 {
        Color { r: 0, g: 700, b: 0 }
    } else if tile == 4 {
        Color { r: 800, g: 800, b: 400 }
    } else if tile == 5 {
        Color { r: 1000, g: 500, b: 0 }
    } else {
        Color { r: 1000, g: 1000, b: 1000 }
    }
}

/// The brick that `tile` puts into the cell at `column` and `row`, where
/// each cell is `unit_width` wide and `unit_height` high.
pub open spec fn brick_of(tile: u32, column: int, row: int, unit_width: int, unit_height: int)
    -> GameObject {
    GameObject {
        position: Vec2 { x: (unit_width * column) as i64, y: (unit_height * row) as i64 },
        size: Vec2 { x: unit_width as i64, y: unit_height as i64 },
        velocity: Vec2 { x: 0, y: 0 },
        color: tile_color(tile),
        rotation: 0,
        sprite: if tile == TILE_SOLID {
            Sprite::BlockSolid
        } else {
            Sprite::Block
        },
        is_solid: tile == TILE_SOLID,
        destroyed: false,
    }
}

/// The bricks of one row of tiles, from the left: one for each tile that is
/// not empty.
pub open spec fn row_bricks(tiles: Seq<u32>, row: int, unit_width: int, unit_height: int) -> Seq<
    GameObject,
>
    decreases tiles.len(),
{
    if tiles.len() == 0 {
        Seq::empty()
    } else {
        let before = row_bricks(tiles.drop_last(), row, unit_width, unit_height);
        if tiles.last() == TILE_EMPTY {
            before
        } else {
            before.push(brick_of(tiles.last(), tiles.len() - 1, row, unit_width, unit_height))
        }
    }
}

/// The bricks of a grid of tiles, row after row from the top.
pub open spec fn grid_bricks(grid: Seq<Seq<u32>>, unit_width: int, unit_height: int) -> Seq<
    GameObject,
>
    decreases grid.len(),
{
    if grid.len() == 0 {
        Seq::empty()
    } else {
        grid_bricks(grid.drop_last(), unit_width, unit_height) + row_bricks(
            grid.last(),
            grid.len() - 1,
            unit_width,
            unit_height,
        )
    }
}

/// The first cell among the first `n` of a row that holds no tile number.
pub open spec fn first_unknown(tiles: Seq<u32>, n: int) -> Option<int>
    decreases n,
{
    if n <= 0 {
        None
    } else {
        match first_unknown(tiles, n - 1) {
            Some(column) => Some(column),
            None => if tiles[n - 1] > TILE_LAST {
                Some(n - 1)
            } else {
                None
            },
        }
    }
}

/// What is wrong with row number `row`, which should have `columns` cells.
pub open spec fn row_fault(tiles: Seq<u32>, columns: int, row: int) -> Option<LevelError> {
    if tiles.len() != columns {
        Some(LevelError::Ragged { row: row as usize })
    } else {
        match first_unknown(tiles, columns) {
            Some(column) => Some(LevelError::UnknownTile { row: row as usize, column: column as usize }),
            None => None,
        }
    }
}

/// The first fault among the first `n` rows of a grid.
pub open spec fn first_fault(grid: Seq<Seq<u32>>, columns: int, n: int) -> Option<LevelError>
    decreases n,
{
    if n <= 0 {
        None
    } else {
        match first_fault(grid, columns, n - 1) {
            Some(fault) => Some(fault),
            None => row_fault(grid[n - 1], columns, n - 1),
        }
    }
}

/// Why `grid` describes no level, if it does not: it is empty, or, reading
/// from the top, a row differs in length from the first or holds a number
/// that is no tile.
pub open spec fn grid_fault(grid: Seq<Seq<u32>>) -> Option<LevelError> {
    if grid.len() == 0 || grid[0].len() == 0 {
        Some(LevelError::Empty)
    } else {
        first_fault(grid, grid[0].len() as int, grid.len() as int)
    }
}

/// The rows of tile data as sequences.
pub open spec fn rows_of(tile_data: Seq<Vec<u32>>) -> Seq<Seq<u32>> {
    Seq::new(tile_data.len(), |i: int| tile_data[i]@)
}

/// The colour of the brick that a tile number stands for.
pub fn color_of_tile(tile: u32) -> (color: Color)
    ensures
        color == tile_color(tile),
{
    if tile == 1 {
        Color { r: 800, g: 800, b: 700 }
    } else if tile == 2 {
        Color { r: 200, g: 600, b: 1000 }
    } else if tile == 3 {
        Color { r: 0, g: 700, b: 0 }
    } else if tile == 4 {
        Color { r: 800, g: 800, b: 400 }
    } else if tile == 5 {
        Color { r: 1000, g: 500, b: 0 }
    } else {
        Color { r: 1000, g: 1000, b: 1000 }
    }
}

/// Looks for what is wrong with a grid of tile numbers.
pub fn check_grid(tile_data: &Vec<Vec<u32>>) -> (fault: Option<LevelError>)
    ensures
        fault == grid_fault(rows_of(tile_data@)),
{
    if tile_data.len() == 0 || tile_data[0].len() == 0 {
        return Some(LevelError::Empty);
    }
    let columns = tile_data[0].len();
    let ghost grid = rows_of(tile_data@);
    let mut y: usize = 0;
    while y < tile_data.len()
        invariant
            y <= tile_data.len(),
            grid == rows_of(tile_data@),
            grid.len() > 0,
            columns == grid[0].len(),
            columns > 0,
            first_fault(grid, columns as int, y as int) is None,
        decreases tile_data.len() - y,
    {
        let row = &tile_data[y];
        assert(grid[y as int] == row@);
        if row.len() != columns {
            proof {
                lemma_fault_stays(grid, columns as int, y + 1, tile_data.len() as int);
            }
            return Some(LevelError::Ragged { row: y });
        }
        let mut x: usize = 0;
        while x < columns
            invariant
                x <= columns,
                row.len() == columns,
                y < tile_data.len(),
                grid == rows_of(tile_data@),
                grid[y as int] == row@,
                columns == grid[0].len(),
                columns > 0,
                first_fault(grid, columns as int, y as int) is None,
                first_unknown(row@, x as int) is None,
            decreases columns - x,
        {
            if row[x] > TILE_LAST {
                proof {
                    lemma_unknown_stays(row@, x + 1, columns as int);
                    lemma_fault_stays(grid, columns as int, y + 1, tile_data.len() as int);
                }
                return Some(LevelError::UnknownTile { row: y, column: x });
            }
            x += 1;
        }
        y += 1;
    }
    None
}

impl GameLevel {
    /// Every brick lies within the limits of the playing field.
    pub open spec fn wf(&self) -> bool {
        forall|i: int| 0 <= i < self.bricks@.len() ==> (#[trigger] self.bricks@[i]).wf()
    }

    /// Whether every brick that can be destroyed has been.
    pub open spec fn completed(&self) -> bool {
        forall|i: int|
            0 <= i < self.bricks@.len() && !(#[trigger] self.bricks@[i]).is_solid
                ==> self.bricks@[i].destroyed
    }

    /// Builds the level that a grid of tile numbers describes, for a
    /// playing field of the given size in pixels: the field is cut into as
    /// many columns and rows as the grid has, and each tile but the empty one
    /// puts a brick into its cell.
    pub fn load(tile_data: &Vec<Vec<u32>>, level_width: u32, level_height: u32) -> (loaded: Result<
        GameLevel,
        LevelError,
    >)
        ensures
            match grid_fault(rows_of(tile_data@)) {
                Some(fault) => loaded == Err::<GameLevel, LevelError>(fault),
                None => loaded is Ok && loaded->Ok_0.wf() && loaded->Ok_0.bricks@ == grid_bricks(
                    rows_of(tile_data@),
                    level_width as int * UNITS_PER_PIXEL as int / tile_data@[0]@.len() as int,
                    level_height as int * UNITS_PER_PIXEL as int / tile_data@.len() as int,
                ),
            },
    {
        if let Some(fault) = check_grid(tile_data) {
            return Err(fault);
        }
        let rows = tile_data.len();
        let columns = tile_data[0].len();
        let width: u64 = level_width as u64 * 1000;
        let height: u64 = level_height as u64 * 1000;
        let unit_width: u64 = width / (columns as u64);
        let unit_height: u64 = height / (rows as u64);
        let ghost grid = rows_of(tile_data@);
        let mut bricks: Vec<GameObject> = Vec::new();
        let mut y: usize = 0;
        proof {
            assert(unit_width * columns <= width) by (nonlinear_arith)
                requires
                    unit_width == width / (columns as u64),
                    columns > 0,
                    width >= 0,
            ;
            assert(unit_height * rows <= height) by (nonlinear_arith)
                requires
                    unit_height == height / (rows as u64),
                    rows > 0,
                    height >= 0,
            ;
            assert(unit_width <= width) by (nonlinear_arith)
                requires
                    unit_width * columns <= width,
                    columns >= 1,
                    unit_width >= 0,
            ;
            assert(unit_height <= height) by (nonlinear_arith)
                requires
                    unit_height * rows <= height,
                    rows >= 1,
                    unit_height >= 0,
            ;
            assert(grid.take(0) =~= Seq::<Seq<u32>>::empty());
        }
        while y < rows
            invariant
                y <= rows,
                rows == tile_data.len(),
                columns > 0,
                grid == rows_of(tile_data@),
                first_fault(grid, columns as int, rows as int) is None,
                unit_width <= width,
                unit_height <= height,
                unit_width * columns <= width <= 0xFFFF_FFFF * 1000,
                unit_height * rows <= height <= 0xFFFF_FFFF * 1000,
                bricks@ == grid_bricks(grid.take(y as int), unit_width as int, unit_height as int),
                forall|i: int| 0 <= i < bricks@.len() ==> (#[trigger] bricks@[i]).wf(),
            decreases rows - y,
        {
            let row = &tile_data[y];
            proof {
                lemma_no_fault(grid, columns as int, rows as int, y as int);
                assert(grid[y as int] == row@);
                assert(row@.take(0) =~= Seq::<u32>::empty());
                assert(unit_height * y <= unit_height * rows) by (nonlinear_arith)
                    requires
                        0 <= unit_height,
                        y <= rows,
                ;
                assert(0 <= unit_height * y) by (nonlinear_arith)
                    requires
                        0 <= unit_height,
                        0 <= y,
                ;
            }
            let ghost above = bricks@;
            let mut x: usize = 0;
            while x < columns
                invariant
                    x <= columns,
                    row@.len() == columns,
                    y < rows,
                    unit_width <= width,
                    unit_height <= 0xFFFF_FFFF * 1000,
                    unit_width * columns <= width <= 0xFFFF_FFFF * 1000,
                    0 <= unit_height * y <= 0xFFFF_FFFF * 1000,
                    bricks@ == above + row_bricks(
                        row@.take(x as int),
                        y as int,
                        unit_width as int,
                        unit_height as int,
                    ),
                    forall|i: int| 0 <= i < bricks@.len() ==> (#[trigger] bricks@[i]).wf(),
                decreases columns - x,
            {
                let tile = row[x];
                proof {
                    assert(row@.take(x + 1).drop_last() =~= row@.take(x as int));
                    assert(row@.take(x + 1).last() == tile);
                    assert(unit_width * x <= unit_width * columns) by (nonlinear_arith)
                        requires
                            0 <= unit_width,
                            x <= columns,
                    ;
                    assert(0 <= unit_width * x) by (nonlinear_arith)
                        requires
                            0 <= unit_width,
                            0 <= x,
                    ;
                }
                if tile != TILE_EMPTY {
                    let solid = tile == TILE_SOLID;
                    let brick = GameObject {
                        position: Vec2 {
                            x: (unit_width * (x as u64)) as i64,
                            y: (unit_height * (y as u64)) as i64,
                        },
                        size: Vec2 { x: unit_width as i64, y: unit_height as i64 },
                        velocity: Vec2 { x: 0, y: 0 },
                        color: color_of_tile(tile),
                        rotation: 0,
                        sprite: if solid {
                            Sprite::BlockSolid
                        } else {
                            Sprite::Block
                        },
                        is_solid: solid,
                        destroyed: false,
                    };
                    assert(brick == brick_of(
                        tile,
                        x as int,
                        y as int,
                        unit_width as int,
                        unit_height as int,
                    ));
                    assert(brick.wf());
                    bricks.push(brick);
                }
                x += 1;
            }
            proof {
                assert(row@.take(columns as int) =~= row@);
                assert(grid.take(y + 1).drop_last() =~= grid.take(y as int));
                assert(grid.take(y + 1).last() == row@);
            }
            y += 1;
        }
        proof {
            assert(grid.take(rows as int) =~= grid);
        }
        Ok(GameLevel { bricks })
    }

    /// Builds the level that a text describes, one row of tile numbers in
    /// each line, for a playing field of the given size in pixels.
    pub fn parse(text: &str, level_width: u32, level_height: u32) -> (loaded: Result<
        GameLevel,
        LevelError,
    >)
        ensures
            !crate::level_format::text_ok(text@) ==> loaded == Err::<GameLevel, LevelError>(
                LevelError::Malformed,
            ),
            crate::level_format::text_ok(text@) ==> match grid_fault(
                crate::level_format::grid_of(text@),
            ) {
                Some(fault) => loaded == Err::<GameLevel, LevelError>(fault),
                None => loaded is Ok && loaded->Ok_0.wf() && loaded->Ok_0.bricks@ == grid_bricks(
                    crate::level_format::grid_of(text@),
                    level_width as int * UNITS_PER_PIXEL as int / crate::level_format::grid_of(
                        text@,
                    )[0].len() as int,
                    level_height as int * UNITS_PER_PIXEL as int / crate::level_format::grid_of(
                        text@,
                    ).len() as int,
                ),
            },
    {
        match crate::level_format::parse_grid(text) {
            Some(tile_data) => {
                let loaded = GameLevel::load(&tile_data, level_width, level_height);
                proof {
                    if grid_fault(rows_of(tile_data@)) is None {
                        assert(rows_of(tile_data@)[0] == tile_data@[0]@);
                    }
                }
                loaded
            },
            None => Err(LevelError::Malformed),
        }
    }

    /// Whether the level is won: every brick that can be destroyed has been.
    pub fn is_completed(&self) -> (done: bool)
        ensures
            done == self.completed(),
    {
        let mut i: usize = 0;
        while i < self.bricks.len()
            invariant
                i <= self.bricks@.len(),
                forall|j: int|
                    0 <= j < i && !(#[trigger] self.bricks@[j]).is_solid
                        ==> self.bricks@[j].destroyed,
            decreases self.bricks@.len() - i,
        {
            if !self.bricks[i].is_solid && !self.bricks[i].destroyed {
                return false;
            }
            i += 1;
        }
        true
    }
}

/// A fault found among the first `n` rows is the first fault of any longer
/// stretch of rows.
proof fn lemma_fault_stays(grid: Seq<Seq<u32>>, columns: int, n: int, m: int)
    requires
        first_fault(grid, columns, n) is Some,
        n <= m,
    ensures
        first_fault(grid, columns, m) == first_fault(grid, columns, n),
    decreases m - n,
{
    if n < m {
        lemma_fault_stays(grid, columns, n, m - 1);
    }
}

/// An unknown tile found among the first `n` cells is the first of any
/// longer stretch of cells.
proof fn lemma_unknown_stays(tiles: Seq<u32>, n: int, m: int)
    requires
        first_unknown(tiles, n) is Some,
        n <= m,
    ensures
        first_unknown(tiles, m) == first_unknown(tiles, n),
    decreases m - n,
{
    if n < m {
        lemma_unknown_stays(tiles, n, m - 1);
    }
}

/// In a grid without fault among its first `n` rows, each of these rows is
/// as long as it should be.
proof fn lemma_no_fault(grid: Seq<Seq<u32>>, columns: int, n: int, row: int)
    requires
        first_fault(grid, columns, n) is None,
        0 <= row < n,
    ensures
        grid[row].len() == columns,
    decreases n,
{
    if row < n - 1 {
        lemma_no_fault(grid, columns, n - 1, row);
    }
}

} // verus!
