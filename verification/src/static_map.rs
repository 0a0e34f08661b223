//! The terrain of a level: the tile grid and the rooms on it.

use vstd::prelude::*;
use crate::grid::FLOOR;
use crate::grid::WALL;
use crate::grid::is_binary;
use crate::grid::is_grid;
use crate::grid::new_grid;
use crate::grid::on_grid;
use crate::grid::on_map;
use crate::grid::tiles;
use crate::grid::tile_at;
use crate::map_generator::BSPNodeParams;
use crate::map_generator::Direction;
use crate::map_generator::is_dungeon_of;
use crate::map_generator::dungeon_draws;
use crate::random::RandomSource;
use crate::random::rest_draws;

verus! {

/// The terrain of a level. It is made once and then only read.
pub struct StaticMapManager {
    /// The number of columns of the map.
    pub dungeon_width: i32,
    /// The number of rows of the map.
    pub dungeon_height: i32,
    /// The tiles, indexed `[x][y]`.
    pub dungeon_map_2d: Vec<Vec<i32>>,
    /// The rooms of the map.
    pub room_params: Vec<BSPNodeParams>,
}

/// The terrain of a level, as a value.
pub struct StaticMapState {
    pub dungeon_width: i32,
    pub dungeon_height: i32,
    /// The tiles, indexed `[x][y]`.
    pub dungeon_map_2d: Seq<Seq<i32>>,
    pub room_params: Seq<BSPNodeParams>,
}

impl View for StaticMapManager {
    type V = StaticMapState;

    open spec fn view(&self) -> StaticMapState {
        StaticMapState {
            dungeon_width: self.dungeon_width,
            dungeon_height: self.dungeon_height,
            dungeon_map_2d: tiles(self.dungeon_map_2d@),
            room_params: self.room_params@,
        }
    }
}

impl StaticMapState {
    /// Whether the tile `(x, y)` is on the map and can be walked on.
    pub open spec fn is_floor(self, x: int, y: int) -> bool {
        on_map(self.dungeon_map_2d, x, y) && self.dungeon_map_2d[x][y] == FLOOR
    }

    /// Whether some room holds both tiles.
    pub open spec fn in_same_room(self, a: (i32, i32), b: (i32, i32)) -> bool {
        exists|i: int|
            0 <= i < self.room_params.len() && (#[trigger] self.room_params[i]).contains(a.0 as int, a.1 as int)
                && self.room_params[i].contains(b.0 as int, b.1 as int)
    }
}

/// The tile `(x, y)` of the map that is one room with a wall around it.
pub open spec fn simple_tile(width: int, height: int, x: int, y: int) -> i32 {
    if x == 0 || x == width - 1 || y == 0 || y == height - 1 {
        WALL
    } else {
        FLOOR
    }
}

/// The tiles of the map that is one room with a wall around it.
pub open spec fn simple_grid(width: i32, height: i32) -> Seq<Seq<i32>> {
    Seq::new(
        width as nat,
        |x: int| Seq::new(height as nat, |y: int| simple_tile(width as int, height as int, x, y)),
    )
}

/// The one room of the map that is one room with a wall around it: the
/// whole interior, which starts at `(1, 1)` and is two tiles narrower and
/// lower than the map, with its middle as centre.
pub open spec fn simple_room(width: i32, height: i32) -> BSPNodeParams {
    BSPNodeParams {
        x: 1,
        y: 1,
        width: (width - 2) as i32,
        height: (height - 2) as i32,
        room_center_x: (1 + (width - 2) / 2) as i32,
        room_center_y: (1 + (height - 2) / 2) as i32,
        connect_to: Direction::Nowhere,
    }
}

/// The room of the simple map is its interior: a tile of the map is floor
/// exactly if it lies in the room. The centre of the room is the middle of
/// the map, and a floor tile wherever the map has an interior.
pub proof fn lemma_simple_room_is_interior(width: i32, height: i32)
    requires
        0 <= width,
        0 <= height,
    ensures
        forall|x: int, y: int|
            0 <= x < width && 0 <= y < height ==> (simple_tile(width as int, height as int, x, y) == FLOOR
                <==> #[trigger] simple_room(width, height).contains(x, y)),
        simple_room(width, height).room_center_x == simple_room(width, height).x + simple_room(width, height).width
            / 2,
        simple_room(width, height).room_center_y == simple_room(width, height).y + simple_room(
            width,
            height,
        ).height / 2,
        simple_room(width, height).room_center_x == width / 2,
        simple_room(width, height).room_center_y == height / 2,
        width >= 3 && height >= 3 ==> simple_tile(
            width as int,
            height as int,
            simple_room(width, height).room_center_x as int,
            simple_room(width, height).room_center_y as int,
        ) == FLOOR,
{
}

/// Whether the tile `(x, y)` lies in the rectangle of `room`.
pub fn room_contains(room: &BSPNodeParams, x: i32, y: i32) -> (inside: bool)
    ensures
        inside == room.contains(x as int, y as int),
{
    let left = room.x as i64;
    let top = room.y as i64;
    left <= x as i64 && (x as i64) < left + room.width as i64 && top <= y as i64 && (y as i64) < top
        + room.height as i64
}

impl StaticMapManager {
    /// Whether the grid has the size that the map says, and every room and
    /// its centre lie on it.
    pub open spec fn wf(self) -> bool {
        &&& is_grid(self.dungeon_map_2d@, self.dungeon_width as int, self.dungeon_height as int)
        &&& forall|i: int|
            0 <= i < self.room_params.len() ==> (#[trigger] self.room_params[i]).lies_on(
                self.dungeon_width as int,
                self.dungeon_height as int,
            )
    }

    /// Whether the tile `(x, y)` is on the map and can be walked on.
    pub fn is_floor(&self, x: i32, y: i32) -> (floor: bool)
        ensures
            floor == self@.is_floor(x as int, y as int),
    {
        match tile_at(&self.dungeon_map_2d, x, y) {
            Some(tile) => tile == FLOOR,
            None => false,
        }
    }

    /// Whether some room holds both tiles.
    pub fn in_same_room(&self, a: (i32, i32), b: (i32, i32)) -> (same: bool)
        ensures
            same == self@.in_same_room(a, b),
    {
        let mut i: usize = 0;
        while i < self.room_params.len()
            invariant
                i <= self.room_params.len(),
                forall|k: int|
                    0 <= k < i ==> !((#[trigger] self.room_params[k]).contains(a.0 as int, a.1 as int)
                        && self.room_params[k].contains(b.0 as int, b.1 as int)),
            decreases self.room_params.len() - i,
        {
            let room = &self.room_params[i];
            if room_contains(room, a.0, a.1) && room_contains(room, b.0, b.1) {
                assert(self@.room_params[i as int].contains(a.0 as int, a.1 as int));
                return true;
            }
            i = i + 1;
        }
        false
    }

    /// A map of the given size that is floor everywhere and has no rooms.
    pub fn new(width: i32, height: i32) -> (map: StaticMapManager)
        requires
            0 <= width,
            0 <= height,
        ensures
            map.wf(),
            map.dungeon_width == width,
            map.dungeon_height == height,
            map@ == (StaticMapState {
                dungeon_width: width,
                dungeon_height: height,
                dungeon_map_2d: Seq::new(width as nat, |x: int| Seq::new(height as nat, |y: int| FLOOR)),
                room_params: Seq::empty(),
            }),
    {
        let grid = new_grid(width as usize, height as usize, FLOOR);
        assert(tiles(grid@) =~~= Seq::new(width as nat, |x: int| Seq::new(height as nat, |y: int| FLOOR))) by {
            assert forall|x: int| 0 <= x < width implies #[trigger] tiles(grid@)[x] =~= Seq::new(
                height as nat,
                |y: int| FLOOR,
            ) by {
                assert(grid[x].len() == height);
                assert forall|y: int| 0 <= y < height implies grid[x]@[y] == FLOOR by {
                    assert(on_grid(grid@, x, y));
                }
            }
        }
        StaticMapManager { dungeon_width: width, dungeon_height: height, dungeon_map_2d: grid, room_params: Vec::new() }
    }

    /// Replaces the map by one of the given size that is a single room with
    /// a wall of one tile around it.
    pub fn generate_simple_map(&mut self, width: i32, height: i32)
        requires
            0 <= width,
            0 <= height,
        ensures
            final(self)@ == (StaticMapState {
                dungeon_width: width,
                dungeon_height: height,
                dungeon_map_2d: simple_grid(width, height),
                room_params: seq![simple_room(width, height)],
            }),
            is_grid(final(self).dungeon_map_2d@, width as int, height as int),
            width >= 2 && height >= 2 ==> final(self).wf(),
    {
        let mut grid: Vec<Vec<i32>> = Vec::new();
        let mut x: i32 = 0;
        while x < width
            invariant
                0 <= x <= width,
                0 <= height,
                is_grid(grid@, x as int, height as int),
                forall|i: int, j: int|
                    on_grid(grid@, i, j) ==> (#[trigger] grid[i][j]) == simple_tile(width as int, height as int, i, j),
            decreases width - x,
        {
            let mut column: Vec<i32> = Vec::new();
            let mut y: i32 = 0;
            while y < height
                invariant
                    0 <= x < width,
                    0 <= y <= height,
                    column.len() == y,
                    forall|j: int| 0 <= j < y ==> column[j] == simple_tile(width as int, height as int, x as int, j),
                decreases height - y,
            {
                let on_edge = x == 0 || x == width - 1 || y == 0 || y == height - 1;
                column.push(if on_edge { WALL } else { FLOOR });
                y = y + 1;
            }
            grid.push(column);
            x = x + 1;
        }
        let mut rooms: Vec<BSPNodeParams> = Vec::new();
        rooms.push(
            BSPNodeParams {
                x: 1,
                y: 1,
                width: width - 2,
                height: height - 2,
                room_center_x: width / 2,
                room_center_y: height / 2,
                connect_to: Direction::Nowhere,
            },
        );
        self.dungeon_width = width;
        self.dungeon_height = height;
        self.dungeon_map_2d = grid;
        self.room_params = rooms;
        assert(self.room_params@ =~= seq![simple_room(width, height)]);
        assert(tiles(self.dungeon_map_2d@) =~~= simple_grid(width, height)) by {
            assert forall|x: int| 0 <= x < width implies #[trigger] tiles(self.dungeon_map_2d@)[x] =~= simple_grid(
                width,
                height,
            )[x] by {
                assert(self.dungeon_map_2d[x].len() == height);
                assert forall|y: int| 0 <= y < height implies self.dungeon_map_2d[x]@[y] == simple_tile(
                    width as int,
                    height as int,
                    x,
                    y,
                ) by {
                    assert(on_grid(self.dungeon_map_2d@, x, y));
                }
            }
        }
    }

    /// Replaces the map by a dungeon of the given size, generated with draws
    /// from the thread's random generator.
    pub fn generate_dungeon(&mut self, width: i32, height: i32)
        requires
            0 <= width,
            0 <= height,
        ensures
            final(self).dungeon_width == width,
            final(self).dungeon_height == height,
            exists|draws: Seq<u32>|
                is_dungeon_of(final(self).dungeon_map_2d@, final(self).room_params@, width, height, draws),
            final(self).wf(),
            final(self).has_regular_rooms(),
            is_binary(final(self).dungeon_map_2d@),
    {
        let (grid, rooms) = crate::map_generator::generate_dungeon(width, height);
        let ghost draws = choose|draws: Seq<u32>| is_dungeon_of(grid@, rooms@, width, height, draws);
        self.dungeon_map_2d = grid;
        self.room_params = rooms;
        self.dungeon_width = width;
        self.dungeon_height = height;
        assert(is_dungeon_of(self.dungeon_map_2d@, self.room_params@, width, height, draws));
    }

    /// Replaces the map by the dungeon of the given size for the draws in
    /// `rng`.
    pub fn generate_dungeon_from(&mut self, width: i32, height: i32, rng: &mut RandomSource)
        requires
            0 <= width,
            0 <= height,
        ensures
            final(self).dungeon_width == width,
            final(self).dungeon_height == height,
            is_dungeon_of(final(self).dungeon_map_2d@, final(self).room_params@, width, height, old(rng)@),
            final(rng)@ == rest_draws(old(rng)@, dungeon_draws(width, height, old(rng)@)),
            final(self).wf(),
            final(self).has_regular_rooms(),
            is_binary(final(self).dungeon_map_2d@),
    {
        let (grid, rooms) = crate::map_generator::generate_dungeon_from(width, height, rng);
        self.dungeon_map_2d = grid;
        self.room_params = rooms;
        self.dungeon_width = width;
        self.dungeon_height = height;
    }

    /// Whether every room is at least `MIN_ROOM_SIZE` wide and high and has
    /// its centre in its middle.
    pub open spec fn has_regular_rooms(self) -> bool {
        forall|i: int| 0 <= i < self.room_params.len() ==> (#[trigger] self.room_params[i]).is_regular_room()
    }
}

} // verus!
