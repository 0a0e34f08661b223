//! The tile grid: a vector of columns, indexed `[x][y]`.

use vstd::prelude::*;

verus! {

/// The code of a tile that can be walked on.
pub const FLOOR: i32 = 0;

/// The code of a wall tile.
pub const WALL: i32 = 1;

/// The number of rows of a grid: the length of its first column.
pub open spec fn rows(grid: Seq<Vec<i32>>) -> int {
    if grid.len() > 0 {
        grid[0].len() as int
    } else {
        0
    }
}

/// Whether all columns of the grid have the same length.
pub open spec fn is_rectangular(grid: Seq<Vec<i32>>) -> bool {
    forall|x: int| 0 <= x < grid.len() ==> (#[trigger] grid[x]).len() == rows(grid)
}

/// Whether the grid is `width` columns of `height` tiles each.
pub open spec fn is_grid(grid: Seq<Vec<i32>>, width: int, height: int) -> bool {
    &&& grid.len() == width
    &&& forall|x: int| 0 <= x < grid.len() ==> (#[trigger] grid[x]).len() == height
}

/// Whether `(x, y)` is a tile of the grid.
pub open spec fn on_grid(grid: Seq<Vec<i32>>, x: int, y: int) -> bool {
    0 <= x < grid.len() && 0 <= y < grid[x].len()
}

/// The tiles of a grid as a value: a sequence of columns.
pub open spec fn tiles(grid: Seq<Vec<i32>>) -> Seq<Seq<i32>> {
    Seq::new(grid.len(), |x: int| grid[x]@)
}

/// Whether `(x, y)` is a tile of the map `tiles`.
pub open spec fn on_map(tiles: Seq<Seq<i32>>, x: int, y: int) -> bool {
    0 <= x < tiles.len() && 0 <= y < tiles[x].len()
}

/// Whether every tile of the grid is floor or wall.
pub open spec fn is_binary(grid: Seq<Vec<i32>>) -> bool {
    forall|x: int, y: int| on_grid(grid, x, y) ==> (#[trigger] grid[x][y]) == FLOOR || grid[x][y] == WALL
}

/// Whether the tile `(px, py)` lies in the rectangle from `(x0, y0)` up to,
/// but not including, `(x1, y1)`.
pub open spec fn in_rect(x0: int, x1: int, y0: int, y1: int, px: int, py: int) -> bool {
    x0 <= px < x1 && y0 <= py < y1
}

/// Whether two grids have the same number of columns and the same length in
/// each column.
pub open spec fn same_shape(before: Seq<Vec<i32>>, after: Seq<Vec<i32>>) -> bool {
    &&& after.len() == before.len()
    &&& forall|x: int| 0 <= x < before.len() ==> (#[trigger] after[x]).len() == before[x].len()
}

/// The tile at `(x, y)`, or `None` where the grid has no such tile.
pub fn tile_at(grid: &Vec<Vec<i32>>, x: i32, y: i32) -> (tile: Option<i32>)
    ensures
        tile == if on_grid(grid@, x as int, y as int) {
            Some(grid[x as int][y as int])
        } else {
            None
        },
{
    if x < 0 || y < 0 {
        return None;
    }
    let column = x as usize;
    let row = y as usize;
    if column >= grid.len() {
        return None;
    }
    if row >= grid[column].len() {
        return None;
    }
    Some(grid[column][row])
}

/// A grid of `width` columns of `height` tiles, all of them `tile`.
pub fn new_grid(width: usize, height: usize, tile: i32) -> (grid: Vec<Vec<i32>>)
    ensures
        is_grid(grid@, width as int, height as int),
        forall|x: int, y: int| on_grid(grid@, x, y) ==> (#[trigger] grid[x][y]) == tile,
{
    let mut grid: Vec<Vec<i32>> = Vec::new();
    let mut x: usize = 0;
    while x < width
        invariant
            x <= width,
            is_grid(grid@, x as int, height as int),
            forall|i: int, j: int| on_grid(grid@, i, j) ==> (#[trigger] grid[i][j]) == tile,
        decreases width - x,
    {
        let mut column: Vec<i32> = Vec::new();
        let mut y: usize = 0;
        while y < height
            invariant
                y <= height,
                column.len() == y,
                forall|j: int| 0 <= j < y ==> column[j] == tile,
            decreases height - y,
        {
            column.push(tile);
            y = y + 1;
        }
        grid.push(column);
        x = x + 1;
    }
    grid
}

/// Turns every tile of the rectangle from `(x0, y0)` up to, but not
/// including, `(x1, y1)` into floor. An empty rectangle changes nothing.
pub fn carve_rect(grid: &mut Vec<Vec<i32>>, x0: i32, x1: i32, y0: i32, y1: i32)
    requires
        is_rectangular(old(grid)@),
        x0 < x1 && y0 < y1 ==> 0 <= x0 && x1 <= old(grid).len() && 0 <= y0 && y1 <= rows(old(grid)@),
    ensures
        same_shape(old(grid)@, final(grid)@),
        forall|x: int, y: int|
            on_grid(old(grid)@, x, y) ==> (#[trigger] final(grid)[x][y]) == if in_rect(
                x0 as int,
                x1 as int,
                y0 as int,
                y1 as int,
                x,
                y,
            ) {
                FLOOR
            } else {
                old(grid)[x][y]
            },
{
    if x0 >= x1 || y0 >= y1 {
        return ;
    }
    let mut x: i32 = x0;
    while x < x1
        invariant
            0 <= x0 <= x <= x1 <= grid.len(),
            0 <= y0 < y1 <= rows(old(grid)@),
            is_rectangular(old(grid)@),
            same_shape(old(grid)@, grid@),
            forall|i: int, j: int|
                on_grid(old(grid)@, i, j) ==> (#[trigger] grid[i][j]) == if in_rect(
                    x0 as int,
                    x as int,
                    y0 as int,
                    y1 as int,
                    i,
                    j,
                ) {
                    FLOOR
                } else {
                    old(grid)[i][j]
                },
        decreases x1 - x,
    {
        let ghost before = grid@;
        let mut y: i32 = y0;
        while y < y1
            invariant
                0 <= x0 <= x < x1 <= grid.len(),
                0 <= y0 <= y <= y1 <= rows(old(grid)@),
                is_rectangular(old(grid)@),
                same_shape(old(grid)@, grid@),
                same_shape(old(grid)@, before),
                forall|i: int, j: int|
                    on_grid(old(grid)@, i, j) ==> (#[trigger] grid[i][j]) == if i == x && y0 <= j < y {
                        FLOOR
                    } else {
                        before[i][j]
                    },
            decreases y1 - y,
        {
            grid[x as usize][y as usize] = FLOOR;
            y = y + 1;
        }
        x = x + 1;
    }
}

} // verus!
