//! Copies of the game, on which a turn can be tried before it is run.

use vstd::prelude::*;
use crate::dynamic_map::DynamicMapManager;
use crate::game_master::GameMaster;
use crate::grid::tiles;
use crate::player::GamePlayer;
use crate::static_map::StaticMapManager;

verus! {

/// A copy of a list.
pub fn copy_of<T: Copy>(list: &Vec<T>) -> (copy: Vec<T>)
    ensures
        copy@ == list@,
{
    let mut copy: Vec<T> = Vec::new();
    let mut i: usize = 0;
    while i < list.len()
        invariant
            i <= list.len(),
            copy@ == list@.take(i as int),
        decreases list.len() - i,
    {
        copy.push(list[i]);
        i = i + 1;
        assert(copy@ =~= list@.take(i as int));
    }
    assert(list@.take(list.len() as int) =~= list@);
    copy
}

/// A copy of a grid.
pub fn copy_of_grid(grid: &Vec<Vec<i32>>) -> (copy: Vec<Vec<i32>>)
    ensures
        tiles(copy@) == tiles(grid@),
{
    let mut copy: Vec<Vec<i32>> = Vec::new();
    let mut x: usize = 0;
    while x < grid.len()
        invariant
            x <= grid.len(),
            copy.len() == x,
            forall|i: int| 0 <= i < x ==> (#[trigger] copy[i])@ == grid[i]@,
        decreases grid.len() - x,
    {
        copy.push(copy_of(&grid[x]));
        x = x + 1;
    }
    assert(tiles(copy@) =~= tiles(grid@));
    copy
}

impl GamePlayer {
    /// A copy of the player.
    pub fn snapshot(&self) -> (copy: GamePlayer)
        ensures
            copy@ == self@,
    {
        GamePlayer {
            position: self.position,
            direction: self.direction,
            max_hp: self.max_hp,
            hp: self.hp,
            attack: self.attack,
            defense: self.defense,
            items: copy_of(&self.items),
            active_item_index: self.active_item_index,
            exp_point: self.exp_point,
            is_heal_when_level_up: self.is_heal_when_level_up,
            level: self.level,
        }
    }
}

impl StaticMapManager {
    /// A copy of the map.
    pub fn snapshot(&self) -> (copy: StaticMapManager)
        ensures
            copy@ == self@,
    {
        StaticMapManager {
            dungeon_width: self.dungeon_width,
            dungeon_height: self.dungeon_height,
            dungeon_map_2d: copy_of_grid(&self.dungeon_map_2d),
            room_params: copy_of(&self.room_params),
        }
    }
}

impl DynamicMapManager {
    /// A copy of what moves on the level.
    pub fn snapshot(&self) -> (copy: DynamicMapManager)
        ensures
            copy@ == self@,
    {
        DynamicMapManager {
            player: self.player.snapshot(),
            item_list: copy_of(&self.item_list),
            mob_list: copy_of(&self.mob_list),
            defeated_mob_id: copy_of(&self.defeated_mob_id),
            goal_position: self.goal_position,
        }
    }
}

impl GameMaster {
    /// A copy of the game.
    pub fn snapshot(&self) -> (copy: GameMaster)
        ensures
            copy@ == self@,
    {
        GameMaster {
            static_map_manager: self.static_map_manager.snapshot(),
            dynamic_map_manager: self.dynamic_map_manager.snapshot(),
            current_level: self.current_level,
            dungeon_width: self.dungeon_width,
            dungeon_height: self.dungeon_height,
            dungeon_map_1d: copy_of(&self.dungeon_map_1d),
            message: copy_of(&self.message),
            initial_item_count: self.initial_item_count,
            initial_mob_count: self.initial_mob_count,
            mob_drop_item_probability: self.mob_drop_item_probability,
            player_attack_info: copy_of(&self.player_attack_info),
            player_side_effect_info: copy_of(&self.player_side_effect_info),
            mob_attack_info: copy_of(&self.mob_attack_info),
            mob_side_effect_info: copy_of(&self.mob_side_effect_info),
            current_item_id_max: self.current_item_id_max,
            dropped_item_added_ids: copy_of(&self.dropped_item_added_ids),
            dropped_item_removed_ids: copy_of(&self.dropped_item_removed_ids),
        }
    }
}

} // verus!
