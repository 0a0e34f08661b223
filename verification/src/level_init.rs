//! Setting up a level: the map, where the player starts, the goal, and the
//! items and mobs that the level begins with.

use vstd::prelude::*;
use vstd::arithmetic::div_mod::lemma_fundamental_div_mod_converse;
use crate::combat::DROPPED_HEAL_AMOUNT;
use crate::combat::dropped_potion;
use crate::dynamic_map::DynamicMapState;
use crate::game_master::GameMaster;
use crate::game_master::GameState;
use crate::grid::is_grid;
use crate::grid::tiles;
use crate::item::DroppedItem;
use crate::item::GameItem;
use crate::item::HealthPotion;
use crate::map_generator::BSPNodeParams;
use crate::map_generator::DUNGEON_DRAWS;
use crate::map_generator::dungeon_draws;
use crate::map_generator::dungeon_grid;
use crate::map_generator::dungeon_rooms;
use crate::mob::GameMob;
use crate::mob::level_fits;
use crate::mob::mob_of_level;
use crate::player::PlayerState;
use crate::random::RandomSource;
use crate::random::first_draw;
use crate::random::lemma_rest_draws_twice;
use crate::random::rest_draws;
use crate::random::takes_at_most;
use crate::random::lemma_takes_at_most_twice;
use crate::map_generator::lemma_draws_suffice;
use crate::map_generator::lemma_dungeon_rooms;
use crate::static_map::StaticMapManager;
use crate::static_map::StaticMapState;

verus! {

/// How far into a room of the given extent a draw leads: less than the
/// extent, and nowhere in a room without extent.
pub open spec fn offset_in(extent: i32, draw: u32) -> int {
    if extent > 0 {
        (draw as int) % (extent as int)
    } else {
        0
    }
}

/// The tiles that have been chosen so far, and the draws that are left.
pub struct Scatter {
    pub tiles: Seq<(i32, i32)>,
    pub draws: Seq<u32>,
}

impl StaticMapState {
    /// Whether something can be placed on the tile `(x, y)`: it is floor.
    pub open spec fn is_placeable(self, x: int, y: int) -> bool {
        i32::MIN <= x <= i32::MAX && i32::MIN <= y <= i32::MAX && self.is_floor(x, y)
    }

    /// The state after one attempt to choose a tile in `room`. Once
    /// `target` tiles are chosen nothing is drawn any more. Otherwise two
    /// draws give a tile of the room, which is chosen if it is floor.
    pub open spec fn after_attempt(self, room: BSPNodeParams, target: int, before: Scatter) -> Scatter {
        if before.tiles.len() >= target {
            before
        } else {
            let x = room.x + offset_in(room.width, first_draw(before.draws));
            let y = room.y + offset_in(room.height, first_draw(rest_draws(before.draws, 1)));
            Scatter {
                tiles: if self.is_placeable(x, y) {
                    before.tiles.push((x as i32, y as i32))
                } else {
                    before.tiles
                },
                draws: rest_draws(before.draws, 2),
            }
        }
    }

    /// The state after `count` attempts in `room`.
    pub open spec fn after_attempts(self, room: BSPNodeParams, target: int, before: Scatter, count: nat) -> Scatter
        decreases count,
    {
        if count == 0 {
            before
        } else {
            self.after_attempt(room, target, self.after_attempts(room, target, before, (count - 1) as nat))
        }
    }

    /// The state after `per_room` attempts in each of the first
    /// `rooms_done` rooms.
    pub open spec fn after_rooms(self, target: int, per_room: nat, before: Scatter, rooms_done: nat) -> Scatter
        decreases rooms_done,
    {
        if rooms_done == 0 {
            before
        } else {
            self.after_attempts(
                self.room_params[rooms_done - 1],
                target,
                self.after_rooms(target, per_room, before, (rooms_done - 1) as nat),
                per_room,
            )
        }
    }

    /// The number of attempts that each room gets for `target` tiles: its
    /// share of them, and one more.
    pub open spec fn attempts_per_room(self, target: int) -> nat {
        if target > 0 && self.room_params.len() > 0 {
            (target / (self.room_params.len() as int) + 1) as nat
        } else {
            0
        }
    }

    /// Up to `target` floor tiles, chosen room by room with the given
    /// draws, and the draws that are left. Fewer tiles are chosen where
    /// draws fall on walls.
    pub open spec fn scattered(self, target: int, draws: Seq<u32>) -> Scatter {
        self.after_rooms(
            target,
            self.attempts_per_room(target),
            Scatter { tiles: Seq::empty(), draws },
            self.room_params.len(),
        )
    }
}

/// Once `target` tiles are chosen, further attempts change nothing.
pub proof fn lemma_attempts_when_full(
    map: StaticMapState,
    room: BSPNodeParams,
    target: int,
    before: Scatter,
    count: nat,
)
    requires
        before.tiles.len() >= target,
    ensures
        map.after_attempts(room, target, before, count) == before,
    decreases count,
{
    if count > 0 {
        lemma_attempts_when_full(map, room, target, before, (count - 1) as nat);
    }
}

/// Once `target` tiles are chosen after `done` attempts, the attempts that
/// follow change nothing.
pub proof fn lemma_attempts_stop(
    map: StaticMapState,
    room: BSPNodeParams,
    target: int,
    before: Scatter,
    done: nat,
    count: nat,
)
    requires
        done <= count,
        map.after_attempts(room, target, before, done).tiles.len() >= target,
    ensures
        map.after_attempts(room, target, before, count) == map.after_attempts(room, target, before, done),
    decreases count,
{
    if done < count {
        lemma_attempts_stop(map, room, target, before, done, (count - 1) as nat);
    }
}

/// Once `target` tiles are chosen, further rooms change nothing.
pub proof fn lemma_rooms_when_full(map: StaticMapState, target: int, per_room: nat, before: Scatter, rooms_done: nat)
    requires
        before.tiles.len() >= target,
    ensures
        map.after_rooms(target, per_room, before, rooms_done) == before,
    decreases rooms_done,
{
    if rooms_done > 0 {
        lemma_rooms_when_full(map, target, per_room, before, (rooms_done - 1) as nat);
        lemma_attempts_when_full(map, map.room_params[rooms_done - 1], target, before, per_room);
    }
}

/// Never more than `target` tiles are chosen, and every chosen tile is
/// floor.
pub proof fn lemma_attempts_bounded(
    map: StaticMapState,
    room: BSPNodeParams,
    target: int,
    before: Scatter,
    count: nat,
)
    requires
        before.tiles.len() <= target || target < 0,
        forall|i: int| 0 <= i < before.tiles.len() ==> map.is_floor(
            (#[trigger] before.tiles[i]).0 as int,
            before.tiles[i].1 as int,
        ),
    ensures
        map.after_attempts(room, target, before, count).tiles.len() <= target || target < 0,
        forall|i: int|
            0 <= i < map.after_attempts(room, target, before, count).tiles.len() ==> map.is_floor(
                (#[trigger] map.after_attempts(room, target, before, count).tiles[i]).0 as int,
                map.after_attempts(room, target, before, count).tiles[i].1 as int,
            ),
    decreases count,
{
    if count > 0 {
        lemma_attempts_bounded(map, room, target, before, (count - 1) as nat);
    }
}

/// Never more than `target` tiles are chosen, and every chosen tile is
/// floor, over all rooms.
pub proof fn lemma_rooms_bounded(map: StaticMapState, target: int, per_room: nat, before: Scatter, rooms_done: nat)
    requires
        before.tiles.len() <= target || target < 0,
        forall|i: int| 0 <= i < before.tiles.len() ==> map.is_floor(
            (#[trigger] before.tiles[i]).0 as int,
            before.tiles[i].1 as int,
        ),
    ensures
        map.after_rooms(target, per_room, before, rooms_done).tiles.len() <= target || target < 0,
        forall|i: int|
            0 <= i < map.after_rooms(target, per_room, before, rooms_done).tiles.len() ==> map.is_floor(
                (#[trigger] map.after_rooms(target, per_room, before, rooms_done).tiles[i]).0 as int,
                map.after_rooms(target, per_room, before, rooms_done).tiles[i].1 as int,
            ),
    decreases rooms_done,
{
    if rooms_done > 0 {
        lemma_rooms_bounded(map, target, per_room, before, (rooms_done - 1) as nat);
        lemma_attempts_bounded(
            map,
            map.room_params[rooms_done - 1],
            target,
            map.after_rooms(target, per_room, before, (rooms_done - 1) as nat),
            per_room,
        );
    }
}

/// No more than `target` tiles are scattered, none for a `target` below
/// one, and every one of them is floor.
pub proof fn lemma_scattered_bounded(map: StaticMapState, target: int, draws: Seq<u32>)
    ensures
        map.scattered(target, draws).tiles.len() <= if target > 0 {
            target
        } else {
            0
        },
        forall|i: int|
            0 <= i < map.scattered(target, draws).tiles.len() ==> map.is_floor(
                (#[trigger] map.scattered(target, draws).tiles[i]).0 as int,
                map.scattered(target, draws).tiles[i].1 as int,
            ),
{
    let start = Scatter { tiles: Seq::empty(), draws };
    if target <= 0 {
        lemma_rooms_when_full(map, target, map.attempts_per_room(target), start, map.room_params.len());
    } else {
        lemma_rooms_bounded(map, target, map.attempts_per_room(target), start, map.room_params.len());
    }
}

/// Each attempt takes at most two draws.
pub proof fn lemma_attempts_take(map: StaticMapState, room: BSPNodeParams, target: int, before: Scatter, count: nat)
    ensures
        takes_at_most(before.draws, map.after_attempts(room, target, before, count).draws, 2 * count),
    decreases count,
{
    if count == 0 {
        assert(before.draws =~= rest_draws(before.draws, 0));
    } else {
        let earlier = map.after_attempts(room, target, before, (count - 1) as nat);
        let later = map.after_attempts(room, target, before, count);
        lemma_attempts_take(map, room, target, before, (count - 1) as nat);
        assert(takes_at_most(earlier.draws, later.draws, 2)) by {
            if later.draws == earlier.draws {
                assert(earlier.draws =~= rest_draws(earlier.draws, 0));
            } else {
                assert(later.draws == rest_draws(earlier.draws, 2));
            }
        }
        lemma_takes_at_most_twice(before.draws, earlier.draws, later.draws, (2 * (count - 1)) as nat, 2);
    }
}

/// The attempts in all rooms together take at most two draws each.
pub proof fn lemma_rooms_take(map: StaticMapState, target: int, per_room: nat, before: Scatter, rooms_done: nat)
    ensures
        takes_at_most(
            before.draws,
            map.after_rooms(target, per_room, before, rooms_done).draws,
            2 * per_room * rooms_done,
        ),
    decreases rooms_done,
{
    if rooms_done == 0 {
        assert(before.draws =~= rest_draws(before.draws, 0));
        assert(2 * per_room * rooms_done == 0) by (nonlinear_arith)
            requires
                rooms_done == 0,
        ;
    } else {
        let earlier = map.after_rooms(target, per_room, before, (rooms_done - 1) as nat);
        let later = map.after_rooms(target, per_room, before, rooms_done);
        lemma_rooms_take(map, target, per_room, before, (rooms_done - 1) as nat);
        lemma_attempts_take(map, map.room_params[rooms_done - 1], target, earlier, per_room);
        lemma_takes_at_most_twice(
            before.draws,
            earlier.draws,
            later.draws,
            2 * per_room * ((rooms_done - 1) as nat),
            2 * per_room,
        );
        assert(2 * per_room * ((rooms_done - 1) as nat) + 2 * per_room == 2 * per_room * rooms_done)
            by (nonlinear_arith)
            requires
                rooms_done >= 1,
        ;
    }
}

/// The number that is counted as asked for: none for a number below zero.
pub open spec fn wanted(target: int) -> nat {
    if target > 0 {
        target as nat
    } else {
        0
    }
}

/// Scattering takes at most two draws for each tile that is asked for and
/// two more for each room.
pub proof fn lemma_scatter_takes(map: StaticMapState, target: int, draws: Seq<u32>)
    ensures
        takes_at_most(draws, map.scattered(target, draws).draws, 2 * (wanted(target) + map.room_params.len())),
{
    let rooms = map.room_params.len();
    let per_room = map.attempts_per_room(target);
    lemma_rooms_take(map, target, per_room, Scatter { tiles: Seq::empty(), draws }, rooms);
    assert(per_room * rooms <= wanted(target) + rooms) by {
        if target > 0 && rooms > 0 {
            let share = target / (rooms as int);
            assert(share * rooms <= target) by {
                vstd::arithmetic::div_mod::lemma_fundamental_div_mod(target, rooms as int);
                vstd::arithmetic::div_mod::lemma_mod_pos_bound(target, rooms as int);
                assert(share * rooms == (rooms as int) * share) by (nonlinear_arith);
            }
            assert((share + 1) * rooms == share * rooms + rooms) by (nonlinear_arith);
        } else {
            assert(0 * rooms == 0) by (nonlinear_arith);
        }
    }
    assert(2 * per_room * rooms <= 2 * (wanted(target) + rooms)) by (nonlinear_arith)
        requires
            per_room * rooms <= wanted(target) + rooms,
    ;
}

/// One coordinate of the tile that a draw chooses in a room that starts at
/// `origin` and has the given extent.
fn coordinate_in(origin: i32, extent: i32, draw: u32) -> (coordinate: i64)
    ensures
        coordinate == origin + offset_in(extent, draw),
{
    if extent > 0 {
        origin as i64 + (draw % (extent as u32)) as i64
    } else {
        origin as i64
    }
}

/// Chooses up to `target` floor tiles of the map, room by room, with the
/// draws in `rng`. Each room gets its share of attempts and one more; an
/// attempt that falls on a wall is lost.
pub fn scatter_tiles(map: &StaticMapManager, target: i32, rng: &mut RandomSource) -> (tiles: Vec<(i32, i32)>)
    ensures
        tiles@ == map@.scattered(target as int, old(rng)@).tiles,
        final(rng)@ == map@.scattered(target as int, old(rng)@).draws,
{
    let mut tiles: Vec<(i32, i32)> = Vec::new();
    let rooms = map.room_params.len();
    let ghost start = Scatter { tiles: Seq::empty(), draws: rng@ };
    if target <= 0 || rooms == 0 {
        proof {
            if rooms > 0 {
                lemma_rooms_when_full(map@, target as int, 0, start, rooms as nat);
            }
        }
        return tiles;
    }
    let goal: usize = target as usize;
    let per_room: usize = goal / rooms + 1;
    let mut room_index: usize = 0;
    while room_index < rooms
        invariant
            room_index <= rooms,
            rooms == map.room_params.len(),
            target > 0,
            goal == target,
            per_room == map@.attempts_per_room(target as int),
            (Scatter { tiles: tiles@, draws: rng@ }) == map@.after_rooms(
                target as int,
                per_room as nat,
                start,
                room_index as nat,
            ),
        decreases rooms - room_index,
    {
        let room = map.room_params[room_index];
        let ghost entered = Scatter { tiles: tiles@, draws: rng@ };
        let mut attempt: usize = 0;
        while attempt < per_room && tiles.len() < goal
            invariant
                attempt <= per_room,
                goal == target,
                (Scatter { tiles: tiles@, draws: rng@ }) == map@.after_attempts(
                    room,
                    target as int,
                    entered,
                    attempt as nat,
                ),
            decreases per_room - attempt,
        {
            let ghost before = rng@;
            let draw_x = rng.next_u32();
            let draw_y = rng.next_u32();
            proof {
                lemma_rest_draws_twice(before, 1, 1);
            }
            let x = coordinate_in(room.x, room.width, draw_x);
            let y = coordinate_in(room.y, room.height, draw_y);
            if -2147483648 <= x && x <= 2147483647 && -2147483648 <= y && y <= 2147483647 {
                if map.is_floor(x as i32, y as i32) {
                    tiles.push((x as i32, y as i32));
                }
            }
            attempt = attempt + 1;
        }
        proof {
            if attempt < per_room {
                lemma_attempts_stop(map@, room, target as int, entered, attempt as nat, per_room as nat);
            }
        }
        room_index = room_index + 1;
    }
    tiles
}

/// The tiles of a map row by row: the tile `(x, y)` is at `y * width + x`.
pub open spec fn flattened(tiles: Seq<Seq<i32>>, width: int, height: int) -> Seq<i32> {
    Seq::new((width * height) as nat, |k: int| tiles[k % width][k / width])
}

/// The room in which the player starts, of `rooms` rooms.
pub open spec fn spawn_room(rooms: int, draw: u32) -> int {
    (draw as int) % rooms
}

/// The room of the goal, of `rooms` rooms, at least two: between one and
/// `rooms - 1` rooms behind that of the player, counting on from the first
/// room behind the last.
pub open spec fn goal_room(rooms: int, spawn: int, draw: u32) -> int {
    let step = 1 + (draw as int) % (rooms - 1);
    if spawn + step < rooms {
        spawn + step
    } else {
        spawn + step - rooms
    }
}

/// With two rooms or more the goal is in another room than the player.
pub proof fn lemma_goal_room_differs(rooms: int, draw_spawn: u32, draw_goal: u32)
    requires
        rooms >= 2,
    ensures
        0 <= spawn_room(rooms, draw_spawn) < rooms,
        0 <= goal_room(rooms, spawn_room(rooms, draw_spawn), draw_goal) < rooms,
        goal_room(rooms, spawn_room(rooms, draw_spawn), draw_goal) != spawn_room(rooms, draw_spawn),
{
}

/// A potion on each of the tiles, with the index of the tile as id.
pub open spec fn items_on(tiles: Seq<(i32, i32)>) -> Seq<DroppedItem> {
    Seq::new(tiles.len(), |i: int| dropped_potion(i as i32, tiles[i]))
}

/// A mob of the given level on each of the tiles, with the index of the
/// tile as id.
pub open spec fn mobs_on(tiles: Seq<(i32, i32)>, level: i32) -> Seq<GameMob> {
    Seq::new(tiles.len(), |i: int| mob_of_level(i as i32, tiles[i].0, tiles[i].1, level))
}

impl GameState {
    /// The game with the tiles of its map copied row by row.
    pub open spec fn with_map_copied(self) -> GameState {
        GameState {
            dungeon_width: self.static_map.dungeon_width,
            dungeon_height: self.static_map.dungeon_height,
            dungeon_map_1d: flattened(
                self.static_map.dungeon_map_2d,
                self.static_map.dungeon_width as int,
                self.static_map.dungeon_height as int,
            ),
            ..self
        }
    }

    /// The centre of the room with the given index.
    pub open spec fn room_center(self, index: int) -> (i32, i32) {
        (self.static_map.room_params[index].room_center_x, self.static_map.room_params[index].room_center_y)
    }

    /// The draws that are left when the places of the player and of the
    /// goal are chosen: two are taken where there is a choice.
    pub open spec fn draws_after_spawn(self, draws: Seq<u32>) -> Seq<u32> {
        if self.static_map.room_params.len() >= 2 {
            rest_draws(draws, 2)
        } else {
            draws
        }
    }

    /// The index of the room in which the player starts.
    pub open spec fn spawn_index(self, draws: Seq<u32>) -> int {
        if self.static_map.room_params.len() >= 2 {
            spawn_room(self.static_map.room_params.len() as int, first_draw(draws))
        } else {
            0
        }
    }

    /// The index of the room of the goal.
    pub open spec fn goal_index(self, draws: Seq<u32>) -> int {
        if self.static_map.room_params.len() >= 2 {
            goal_room(
                self.static_map.room_params.len() as int,
                self.spawn_index(draws),
                first_draw(rest_draws(draws, 1)),
            )
        } else {
            0
        }
    }

    /// The tiles on which the level gets its items.
    pub open spec fn item_scatter(self, draws: Seq<u32>) -> Scatter {
        self.static_map.scattered(self.initial_item_count as int, self.draws_after_spawn(draws))
    }

    /// The tiles on which the level gets its mobs.
    pub open spec fn mob_scatter(self, draws: Seq<u32>) -> Scatter {
        self.static_map.scattered(self.initial_mob_count as int, self.item_scatter(draws).draws)
    }

    /// Whether populating the level stays within the range of `i32`: the
    /// values of the mobs, if any is placed.
    pub open spec fn populate_fits(self, draws: Seq<u32>) -> bool {
        self.static_map.room_params.len() > 0 && self.mob_scatter(draws).tiles.len() > 0 ==> level_fits(
            self.current_level,
        )
    }

    /// The game on a map on which nothing has been placed yet, after
    /// placing: the player stands in the centre of a room and the goal in
    /// the centre of another, or of the same where there is only one; up to
    /// `initial_item_count` potions and up to `initial_mob_count` mobs of
    /// the current level lie and stand on floor tiles. On a map without
    /// rooms nothing is placed.
    pub open spec fn populated(self, draws: Seq<u32>) -> GameState {
        if self.static_map.room_params.len() == 0 {
            self
        } else {
            let item_tiles = self.item_scatter(draws).tiles;
            let mob_tiles = self.mob_scatter(draws).tiles;
            GameState {
                dynamic_map: DynamicMapState {
                    player: PlayerState {
                        position: self.room_center(self.spawn_index(draws)),
                        ..self.dynamic_map.player
                    },
                    goal_position: self.room_center(self.goal_index(draws)),
                    item_list: self.dynamic_map.item_list + items_on(item_tiles),
                    mob_list: self.dynamic_map.mob_list + mobs_on(mob_tiles, self.current_level),
                    ..self.dynamic_map
                },
                current_item_id_max: item_tiles.len() as i32,
                ..self
            }
        }
    }

    /// The draws that are left after placing.
    pub open spec fn draws_after_populating(self, draws: Seq<u32>) -> Seq<u32> {
        if self.static_map.room_params.len() == 0 {
            draws
        } else {
            self.mob_scatter(draws).draws
        }
    }

    /// The game at the start of a level on the dungeon of the given size
    /// for `draws`, before anything is placed: its map is the dungeon, the
    /// tiles are copied row by row, and no item or mob of the level before
    /// is left.
    pub open spec fn on_new_level(self, width: i32, height: i32, draws: Seq<u32>) -> GameState {
        (GameState {
            static_map: StaticMapState {
                dungeon_width: width,
                dungeon_height: height,
                dungeon_map_2d: dungeon_grid(width, height, draws),
                room_params: dungeon_rooms(width, height, draws),
            },
            dynamic_map: self.dynamic_map.cleared(),
            ..self
        }).with_map_copied()
    }

    /// The game at the start of a level on the dungeon of the given size
    /// for `draws`: the dungeon takes its draws first, the placing those
    /// that follow.
    pub open spec fn after_initialize_level(self, width: i32, height: i32, draws: Seq<u32>) -> GameState {
        self.on_new_level(width, height, draws).populated(
            rest_draws(draws, dungeon_draws(width, height, draws)),
        )
    }

    /// The draws that are left after the start of a level.
    pub open spec fn draws_after_initialize_level(self, width: i32, height: i32, draws: Seq<u32>) -> Seq<u32> {
        self.on_new_level(width, height, draws).draws_after_populating(
            rest_draws(draws, dungeon_draws(width, height, draws)),
        )
    }

    /// Whether the start of a level stays within the range of `i32`.
    pub open spec fn initialize_level_fits(self, width: i32, height: i32, draws: Seq<u32>) -> bool {
        self.on_new_level(width, height, draws).populate_fits(
            rest_draws(draws, dungeon_draws(width, height, draws)),
        )
    }
}

/// What holds of every level on which the player, the goal, items and mobs
/// have been placed, if no item or mob was there before. The player and
/// the goal stand in the centres of rooms, of two different rooms where
/// there are two or more. No more items and mobs are there than were asked
/// for. Each lies or stands on a floor tile and has its place in the list
/// as id, and each mob is of the current level.
pub proof fn lemma_populated(state: GameState, draws: Seq<u32>)
    requires
        state.static_map.room_params.len() > 0,
        state.dynamic_map.item_list.len() == 0,
        state.dynamic_map.mob_list.len() == 0,
    ensures
        0 <= state.spawn_index(draws) < state.static_map.room_params.len(),
        0 <= state.goal_index(draws) < state.static_map.room_params.len(),
        state.static_map.room_params.len() >= 2 ==> state.spawn_index(draws) != state.goal_index(draws),
        state.populated(draws).dynamic_map.player.position == state.room_center(state.spawn_index(draws)),
        state.populated(draws).dynamic_map.goal_position == state.room_center(state.goal_index(draws)),
        state.populated(draws).dynamic_map.item_list.len() <= wanted(state.initial_item_count as int),
        state.populated(draws).dynamic_map.mob_list.len() <= wanted(state.initial_mob_count as int),
        state.populated(draws).current_item_id_max == state.populated(draws).dynamic_map.item_list.len(),
        forall|i: int|
            0 <= i < state.populated(draws).dynamic_map.item_list.len() ==> {
                let item = #[trigger] state.populated(draws).dynamic_map.item_list[i];
                &&& item.id == i
                &&& state.static_map.is_floor(item.position.0 as int, item.position.1 as int)
            },
        forall|i: int|
            0 <= i < state.populated(draws).dynamic_map.mob_list.len() ==> {
                let mob = #[trigger] state.populated(draws).dynamic_map.mob_list[i];
                &&& mob == mob_of_level(i as i32, mob.position.0, mob.position.1, state.current_level)
                &&& state.static_map.is_floor(mob.position.0 as int, mob.position.1 as int)
            },
{
    let rooms = state.static_map.room_params.len() as int;
    if rooms >= 2 {
        lemma_goal_room_differs(rooms, first_draw(draws), first_draw(rest_draws(draws, 1)));
    }
    lemma_scattered_bounded(state.static_map, state.initial_item_count as int, state.draws_after_spawn(draws));
    lemma_scattered_bounded(state.static_map, state.initial_mob_count as int, state.item_scatter(draws).draws);
    let items = state.item_scatter(draws).tiles;
    let mobs = state.mob_scatter(draws).tiles;
    assert(state.populated(draws).dynamic_map.item_list =~= items_on(items));
    assert(state.populated(draws).dynamic_map.mob_list =~= mobs_on(mobs, state.current_level));
    assert forall|i: int| 0 <= i < items.len() implies state.static_map.is_floor(
        (#[trigger] items_on(items)[i]).position.0 as int,
        items_on(items)[i].position.1 as int,
    ) by {
        assert(state.static_map.is_floor(items[i].0 as int, items[i].1 as int));
    }
    assert forall|i: int| 0 <= i < mobs.len() implies state.static_map.is_floor(
        (#[trigger] mobs_on(mobs, state.current_level)[i]).position.0 as int,
        mobs_on(mobs, state.current_level)[i].position.1 as int,
    ) by {
        assert(state.static_map.is_floor(mobs[i].0 as int, mobs[i].1 as int));
    }
}

/// What holds at the start of every level. The map is the dungeon for the
/// draws. If it has rooms, the player and the goal stand on floor tiles,
/// and no more items and mobs are there than were asked for.
pub proof fn lemma_level_start(state: GameState, width: i32, height: i32, draws: Seq<u32>)
    requires
        0 <= width,
        0 <= height,
    ensures
        state.after_initialize_level(width, height, draws).static_map == (StaticMapState {
            dungeon_width: width,
            dungeon_height: height,
            dungeon_map_2d: dungeon_grid(width, height, draws),
            room_params: dungeon_rooms(width, height, draws),
        }),
        dungeon_rooms(width, height, draws).len() > 0 ==> {
            let after = state.after_initialize_level(width, height, draws);
            &&& after.static_map.is_floor(
                after.dynamic_map.player.position.0 as int,
                after.dynamic_map.player.position.1 as int,
            )
            &&& after.static_map.is_floor(
                after.dynamic_map.goal_position.0 as int,
                after.dynamic_map.goal_position.1 as int,
            )
            &&& after.dynamic_map.item_list.len() <= wanted(state.initial_item_count as int)
            &&& after.dynamic_map.mob_list.len() <= wanted(state.initial_mob_count as int)
        },
{
    let fresh = state.on_new_level(width, height, draws);
    let later = rest_draws(draws, dungeon_draws(width, height, draws));
    lemma_dungeon_rooms(width, height, draws);
    if dungeon_rooms(width, height, draws).len() > 0 {
        lemma_populated(fresh, later);
        let spawn = dungeon_rooms(width, height, draws)[fresh.spawn_index(later)];
        let goal = dungeon_rooms(width, height, draws)[fresh.goal_index(later)];
        assert(spawn.fits(width as int, height as int) && goal.fits(width as int, height as int));
        assert(fresh.static_map.is_floor(spawn.room_center_x as int, spawn.room_center_y as int));
        assert(fresh.static_map.is_floor(goal.room_center_x as int, goal.room_center_y as int));
    }
}

/// The index of the tile `(x, y)` in a map of the given width that is laid
/// out row by row, and where that index leads back to.
proof fn lemma_row_major(x: int, y: int, width: int, height: int)
    requires
        0 <= x < width,
        0 <= y < height,
    ensures
        0 <= y * width + x < width * height,
        (y * width + x) % width == x,
        (y * width + x) / width == y,
        (y + 1) * width == y * width + width,
{
    assert(y * width + x < width * height) by (nonlinear_arith)
        requires
            0 <= x < width,
            0 <= y < height,
    ;
    assert(0 <= y * width) by (nonlinear_arith)
        requires
            0 <= y,
            0 < width,
    ;
    assert((y + 1) * width == y * width + width) by (nonlinear_arith);
    lemma_fundamental_div_mod_converse(y * width + x, width, y, x);
}

impl GameMaster {
    /// Copies the size and the tiles of the map, the tiles row by row.
    pub fn copy_from_static_map_manager(&mut self)
        requires
            is_grid(
                old(self).static_map_manager.dungeon_map_2d@,
                old(self).static_map_manager.dungeon_width as int,
                old(self).static_map_manager.dungeon_height as int,
            ),
            old(self).static_map_manager.dungeon_width * old(self).static_map_manager.dungeon_height <= i32::MAX,
        ensures
            final(self)@ == old(self)@.with_map_copied(),
    {
        let width = self.static_map_manager.dungeon_width;
        let height = self.static_map_manager.dungeon_height;
        let mut flat: Vec<i32> = Vec::new();
        if width > 0 && height > 0 {
            let mut y: i32 = 0;
            while y < height
                invariant
                    0 < width,
                    0 <= y <= height,
                    width * height <= i32::MAX,
                    width == self.static_map_manager.dungeon_width,
                    is_grid(self.static_map_manager.dungeon_map_2d@, width as int, height as int),
                    flat.len() == y * width,
                    forall|k: int|
                        0 <= k < flat.len() ==> (#[trigger] flat[k]) == self.static_map_manager.dungeon_map_2d[k
                            % (width as int)][k / (width as int)],
                    self@ == old(self)@,
                decreases height - y,
            {
                let mut x: i32 = 0;
                while x < width
                    invariant
                        0 <= x <= width,
                        0 <= y < height,
                        width * height <= i32::MAX,
                        width == self.static_map_manager.dungeon_width,
                        is_grid(self.static_map_manager.dungeon_map_2d@, width as int, height as int),
                        flat.len() == y * width + x,
                        forall|k: int|
                            0 <= k < flat.len() ==> (#[trigger] flat[k])
                                == self.static_map_manager.dungeon_map_2d[k % (width as int)][k / (width as int)],
                        self@ == old(self)@,
                    decreases width - x,
                {
                    proof {
                        lemma_row_major(x as int, y as int, width as int, height as int);
                    }
                    flat.push(self.static_map_manager.dungeon_map_2d[x as usize][y as usize]);
                    x = x + 1;
                }
                proof {
                    lemma_row_major(0, y as int, width as int, height as int);
                }
                y = y + 1;
            }
        } else {
            assert(width == 0 || height == 0) by {
                if width > 0 {
                    assert(self.static_map_manager.dungeon_map_2d@[0].len() == height);
                }
            }
            assert(width * height == 0) by (nonlinear_arith)
                requires
                    width == 0 || height == 0,
            ;
        }
        assert(flat.len() == width * height) by (nonlinear_arith)
            requires
                flat.len() == height * width || (flat.len() == 0 && width * height == 0),
        ;
        self.dungeon_width = width;
        self.dungeon_height = height;
        self.dungeon_map_1d = flat;
        proof {
            let expected = flattened(old(self)@.static_map.dungeon_map_2d, width as int, height as int);
            assert(self.dungeon_map_1d@.len() == expected.len());
            assert(self.dungeon_map_1d@ =~= expected);
        }
    }
}

impl GameMaster {
    /// Places the player, the goal, and the items and mobs of the level on
    /// the map, with the draws in `rng`.
    pub fn populate_from(&mut self, rng: &mut RandomSource)
        requires
            old(self)@.populate_fits(old(rng)@),
        ensures
            final(self)@ == old(self)@.populated(old(rng)@),
            final(rng)@ == old(self)@.draws_after_populating(old(rng)@),
    {
        let rooms = self.static_map_manager.room_params.len();
        if rooms == 0 {
            return ;
        }
        let ghost start = self@;
        let ghost draws = rng@;
        let spawn: usize;
        let goal: usize;
        if rooms == 1 {
            spawn = 0;
            goal = 0;
        } else {
            let draw_spawn = rng.next_u32();
            let draw_goal = rng.next_u32();
            proof {
                lemma_rest_draws_twice(draws, 1, 1);
            }
            spawn = (draw_spawn as usize) % rooms;
            let step: usize = 1 + (draw_goal as usize) % (rooms - 1);
            goal = if step < rooms - spawn { spawn + step } else { step - (rooms - spawn) };
        }
        let spawn_room = self.static_map_manager.room_params[spawn];
        let goal_room = self.static_map_manager.room_params[goal];
        self.dynamic_map_manager.player.position = (spawn_room.room_center_x, spawn_room.room_center_y);
        self.dynamic_map_manager.goal_position = (goal_room.room_center_x, goal_room.room_center_y);

        let item_tiles = scatter_tiles(&self.static_map_manager, self.initial_item_count, rng);
        proof {
            lemma_scattered_bounded(start.static_map, start.initial_item_count as int, start.draws_after_spawn(draws));
        }
        let mut i: usize = 0;
        while i < item_tiles.len()
            invariant
                i <= item_tiles.len() <= i32::MAX,
                self.dynamic_map_manager.item_list@ == start.dynamic_map.item_list + items_on(item_tiles@).take(
                    i as int,
                ),
                self@ == (GameState {
                    dynamic_map: DynamicMapState {
                        player: PlayerState {
                            position: start.room_center(start.spawn_index(draws)),
                            ..start.dynamic_map.player
                        },
                        goal_position: start.room_center(start.goal_index(draws)),
                        item_list: self.dynamic_map_manager.item_list@,
                        ..start.dynamic_map
                    },
                    ..start
                }),
            decreases item_tiles.len() - i,
        {
            let tile = item_tiles[i];
            self.dynamic_map_manager.item_list.push(
                DroppedItem {
                    id: i as i32,
                    position: tile,
                    item: GameItem::HealthPotion(HealthPotion { heal_amount: DROPPED_HEAL_AMOUNT }),
                },
            );
            i = i + 1;
            assert(self.dynamic_map_manager.item_list@ =~= start.dynamic_map.item_list + items_on(
                item_tiles@,
            ).take(i as int));
        }
        assert(items_on(item_tiles@).take(item_tiles.len() as int) =~= items_on(item_tiles@));
        self.current_item_id_max = item_tiles.len() as i32;

        let mob_tiles = scatter_tiles(&self.static_map_manager, self.initial_mob_count, rng);
        proof {
            lemma_scattered_bounded(start.static_map, start.initial_mob_count as int, start.item_scatter(draws).draws);
        }
        let level = self.current_level;
        let mut j: usize = 0;
        while j < mob_tiles.len()
            invariant
                j <= mob_tiles.len() <= i32::MAX,
                mob_tiles.len() > 0 ==> level_fits(level),
                level == start.current_level,
                self.dynamic_map_manager.mob_list@ == start.dynamic_map.mob_list + mobs_on(mob_tiles@, level).take(
                    j as int,
                ),
                self@ == (GameState {
                    dynamic_map: DynamicMapState {
                        player: PlayerState {
                            position: start.room_center(start.spawn_index(draws)),
                            ..start.dynamic_map.player
                        },
                        goal_position: start.room_center(start.goal_index(draws)),
                        item_list: start.dynamic_map.item_list + items_on(item_tiles@),
                        mob_list: self.dynamic_map_manager.mob_list@,
                        ..start.dynamic_map
                    },
                    current_item_id_max: item_tiles.len() as i32,
                    ..start
                }),
            decreases mob_tiles.len() - j,
        {
            let tile = mob_tiles[j];
            self.dynamic_map_manager.mob_list.push(GameMob::new_from_level(j as i32, tile.0, tile.1, level));
            j = j + 1;
            assert(self.dynamic_map_manager.mob_list@ =~= start.dynamic_map.mob_list + mobs_on(
                mob_tiles@,
                level,
            ).take(j as int));
        }
        assert(mobs_on(mob_tiles@, level).take(mob_tiles.len() as int) =~= mobs_on(mob_tiles@, level));
    }

    /// Starts a level on the dungeon of the given size for the draws in
    /// `rng`.
    pub fn initialize_level_from(&mut self, width: i32, height: i32, rng: &mut RandomSource)
        requires
            0 <= width,
            0 <= height,
            width * height <= i32::MAX,
            old(self)@.initialize_level_fits(width, height, old(rng)@),
        ensures
            final(self)@ == old(self)@.after_initialize_level(width, height, old(rng)@),
            final(rng)@ == old(self)@.draws_after_initialize_level(width, height, old(rng)@),
    {
        self.static_map_manager.generate_dungeon_from(width, height, rng);
        self.copy_from_static_map_manager();
        self.dynamic_map_manager.clear();
        assert(self@ == old(self)@.on_new_level(width, height, old(rng)@));
        self.populate_from(rng);
    }

    /// Starts a level on a dungeon of the given size, with draws from the
    /// thread's random generator.
    pub fn initialize_level(&mut self, width: i32, height: i32)
        requires
            0 <= width,
            0 <= height,
            width * height <= i32::MAX,
            forall|draws: Seq<u32>| old(self)@.initialize_level_fits(width, height, draws),
        ensures
            exists|draws: Seq<u32>| final(self)@ == old(self)@.after_initialize_level(width, height, draws),
    {
        let mut rng = RandomSource::new();
        rng.refill(level_draws(self.initial_item_count, self.initial_mob_count));
        let ghost draws = rng@;
        self.initialize_level_from(width, height, &mut rng);
        assert(self@ == old(self)@.after_initialize_level(width, height, draws));
    }
}

/// The number of draws that suffices for the start of a level with the
/// given numbers of items and mobs: those for the dungeon, two for the
/// places of the player and the goal, and two for each attempt to place an
/// item or a mob, of which there are no more than the number asked for and
/// one more for each of the eight rooms that a dungeon can have.
pub open spec fn level_draw_count(item_count: i32, mob_count: i32) -> nat {
    (DUNGEON_DRAWS + 2 + 2 * (wanted(item_count as int) + 8) + 2 * (wanted(mob_count as int) + 8)) as nat
}

/// The start of a level never takes more than `level_draw_count` draws.
pub proof fn lemma_level_takes(state: GameState, width: i32, height: i32, draws: Seq<u32>)
    requires
        0 <= width,
        0 <= height,
    ensures
        takes_at_most(
            draws,
            state.draws_after_initialize_level(width, height, draws),
            level_draw_count(state.initial_item_count, state.initial_mob_count),
        ),
{
    let fresh = state.on_new_level(width, height, draws);
    let taken = dungeon_draws(width, height, draws);
    let later = rest_draws(draws, taken);
    lemma_draws_suffice(0, 0, width, height, 0, draws);
    lemma_dungeon_rooms(width, height, draws);
    assert(takes_at_most(draws, later, DUNGEON_DRAWS as nat));
    let rooms = fresh.static_map.room_params.len();
    if rooms == 0 {
    } else {
        let spawned = fresh.draws_after_spawn(later);
        assert(takes_at_most(later, spawned, 2)) by {
            if rooms >= 2 {
                assert(spawned == rest_draws(later, 2));
            } else {
                assert(later =~= rest_draws(later, 0));
            }
        }
        let items = fresh.item_scatter(later);
        let mobs = fresh.mob_scatter(later);
        lemma_scatter_takes(fresh.static_map, fresh.initial_item_count as int, spawned);
        lemma_scatter_takes(fresh.static_map, fresh.initial_mob_count as int, items.draws);
        let item_bound = 2 * (wanted(state.initial_item_count as int) + 8);
        let mob_bound = 2 * (wanted(state.initial_mob_count as int) + 8);
        lemma_takes_widen(spawned, items.draws, 2 * (wanted(state.initial_item_count as int) + rooms), item_bound);
        lemma_takes_widen(items.draws, mobs.draws, 2 * (wanted(state.initial_mob_count as int) + rooms), mob_bound);
        lemma_takes_at_most_twice(draws, later, spawned, DUNGEON_DRAWS as nat, 2);
        lemma_takes_at_most_twice(draws, spawned, items.draws, (DUNGEON_DRAWS + 2) as nat, item_bound);
        lemma_takes_at_most_twice(draws, items.draws, mobs.draws, (DUNGEON_DRAWS + 2 + item_bound) as nat, mob_bound);
    }
}

/// What takes no more than `count` draws takes no more than a larger
/// number.
proof fn lemma_takes_widen(before: Seq<u32>, after: Seq<u32>, count: nat, more: nat)
    requires
        takes_at_most(before, after, count),
        count <= more,
    ensures
        takes_at_most(before, after, more),
{
    let taken = choose|taken: nat| taken <= count && after == #[trigger] rest_draws(before, taken);
    assert(after == rest_draws(before, taken));
}

/// The number of draws that suffices for the start of a level, or as many
/// as `usize` can count.
pub fn level_draws(item_count: i32, mob_count: i32) -> (count: usize)
    ensures
        count == if level_draw_count(item_count, mob_count) <= usize::MAX {
            level_draw_count(item_count, mob_count)
        } else {
            usize::MAX as nat
        },
{
    let items: u64 = if item_count > 0 { item_count as u64 } else { 0 };
    let mobs: u64 = if mob_count > 0 { mob_count as u64 } else { 0 };
    let total: u64 = DUNGEON_DRAWS as u64 + 2 + 2 * (items + 8) + 2 * (mobs + 8);
    if total <= usize::MAX as u64 {
        total as usize
    } else {
        usize::MAX
    }
}

} // verus!
