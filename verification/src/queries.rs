//! What the host reads from the game after a turn.

use vstd::prelude::*;
use crate::copies::copy_of;
use crate::game_master::GameMaster;
use crate::game_master::GameState;

verus! {

impl GameState {
    /// The positions of the items on the map, in the order of the list.
    pub open spec fn dropped_item_positions(self) -> Seq<(i32, i32)> {
        Seq::new(self.dynamic_map.item_list.len(), |i: int| self.dynamic_map.item_list[i].position)
    }

    /// The ids of the items on the map, in the order of the list.
    pub open spec fn dropped_item_ids(self) -> Seq<i32> {
        Seq::new(self.dynamic_map.item_list.len(), |i: int| self.dynamic_map.item_list[i].id)
    }

    /// The positions of the mobs, in the order of the list.
    pub open spec fn mob_positions(self) -> Seq<(i32, i32)> {
        Seq::new(self.dynamic_map.mob_list.len(), |i: int| self.dynamic_map.mob_list[i].position)
    }

    /// The host's numbers for the directions of the mobs, in the order of
    /// the list.
    pub open spec fn mob_directions(self) -> Seq<i32> {
        Seq::new(self.dynamic_map.mob_list.len(), |i: int| self.dynamic_map.mob_list[i].direction.code() as i32)
    }

    /// The ids of the mobs, in the order of the list.
    pub open spec fn mob_ids(self) -> Seq<i32> {
        Seq::new(self.dynamic_map.mob_list.len(), |i: int| self.dynamic_map.mob_list[i].id)
    }
}

impl GameMaster {
    /// The tile of the goal.
    pub fn get_goal_position(&self) -> (position: (i32, i32))
        ensures
            position == self@.dynamic_map.goal_position,
    {
        self.dynamic_map_manager.goal_position
    }

    /// The tile of the player.
    pub fn get_player_position(&self) -> (position: (i32, i32))
        ensures
            position == self@.dynamic_map.player.position,
    {
        self.dynamic_map_manager.player.position
    }

    /// The host's number for the direction of the player.
    pub fn get_player_direction(&self) -> (code: i32)
        ensures
            code == self@.dynamic_map.player.direction.code(),
    {
        self.dynamic_map_manager.player.direction.to_code()
    }

    /// The positions of the items on the map.
    pub fn get_dropped_item_positions(&self) -> (positions: Vec<(i32, i32)>)
        ensures
            positions@ == self@.dropped_item_positions(),
    {
        let mut positions: Vec<(i32, i32)> = Vec::new();
        let mut i: usize = 0;
        while i < self.dynamic_map_manager.item_list.len()
            invariant
                i <= self.dynamic_map_manager.item_list.len(),
                positions@ == self@.dropped_item_positions().take(i as int),
            decreases self.dynamic_map_manager.item_list.len() - i,
        {
            positions.push(self.dynamic_map_manager.item_list[i].position);
            i = i + 1;
            assert(positions@ =~= self@.dropped_item_positions().take(i as int));
        }
        assert(positions@ =~= self@.dropped_item_positions());
        positions
    }

    /// The ids of the items on the map.
    pub fn get_dropped_item_ids(&self) -> (ids: Vec<i32>)
        ensures
            ids@ == self@.dropped_item_ids(),
    {
        let mut ids: Vec<i32> = Vec::new();
        let mut i: usize = 0;
        while i < self.dynamic_map_manager.item_list.len()
            invariant
                i <= self.dynamic_map_manager.item_list.len(),
                ids@ == self@.dropped_item_ids().take(i as int),
            decreases self.dynamic_map_manager.item_list.len() - i,
        {
            ids.push(self.dynamic_map_manager.item_list[i].id);
            i = i + 1;
            assert(ids@ =~= self@.dropped_item_ids().take(i as int));
        }
        assert(ids@ =~= self@.dropped_item_ids());
        ids
    }

    /// The ids of the items that left the map in this turn.
    pub fn get_dropped_item_removed_ids(&self) -> (ids: Vec<i32>)
        ensures
            ids@ == self@.dropped_item_removed_ids,
    {
        copy_of(&self.dropped_item_removed_ids)
    }

    /// The ids of the items that appeared on the map in this turn.
    pub fn get_dropped_item_added_ids(&self) -> (ids: Vec<i32>)
        ensures
            ids@ == self@.dropped_item_added_ids,
    {
        copy_of(&self.dropped_item_added_ids)
    }

    /// The positions of the mobs.
    pub fn get_mob_positions(&self) -> (positions: Vec<(i32, i32)>)
        ensures
            positions@ == self@.mob_positions(),
    {
        let mut positions: Vec<(i32, i32)> = Vec::new();
        let mut i: usize = 0;
        while i < self.dynamic_map_manager.mob_list.len()
            invariant
                i <= self.dynamic_map_manager.mob_list.len(),
                positions@ == self@.mob_positions().take(i as int),
            decreases self.dynamic_map_manager.mob_list.len() - i,
        {
            positions.push(self.dynamic_map_manager.mob_list[i].position);
            i = i + 1;
            assert(positions@ =~= self@.mob_positions().take(i as int));
        }
        assert(positions@ =~= self@.mob_positions());
        positions
    }

    /// The host's numbers for the directions of the mobs.
    pub fn get_mob_directions(&self) -> (directions: Vec<i32>)
        ensures
            directions@ == self@.mob_directions(),
    {
        let mut directions: Vec<i32> = Vec::new();
        let mut i: usize = 0;
        while i < self.dynamic_map_manager.mob_list.len()
            invariant
                i <= self.dynamic_map_manager.mob_list.len(),
                directions@ == self@.mob_directions().take(i as int),
            decreases self.dynamic_map_manager.mob_list.len() - i,
        {
            directions.push(self.dynamic_map_manager.mob_list[i].direction.to_code());
            i = i + 1;
            assert(directions@ =~= self@.mob_directions().take(i as int));
        }
        assert(directions@ =~= self@.mob_directions());
        directions
    }

    /// The ids of the mobs.
    pub fn get_mob_ids(&self) -> (ids: Vec<i32>)
        ensures
            ids@ == self@.mob_ids(),
    {
        let mut ids: Vec<i32> = Vec::new();
        let mut i: usize = 0;
        while i < self.dynamic_map_manager.mob_list.len()
            invariant
                i <= self.dynamic_map_manager.mob_list.len(),
                ids@ == self@.mob_ids().take(i as int),
            decreases self.dynamic_map_manager.mob_list.len() - i,
        {
            ids.push(self.dynamic_map_manager.mob_list[i].id);
            i = i + 1;
            assert(ids@ =~= self@.mob_ids().take(i as int));
        }
        assert(ids@ =~= self@.mob_ids());
        ids
    }

    /// The ids of the mobs that were defeated in this turn.
    pub fn get_defeated_mob_ids(&self) -> (ids: Vec<i32>)
        ensures
            ids@ == self@.dynamic_map.defeated_mob_id,
    {
        copy_of(&self.dynamic_map_manager.defeated_mob_id)
    }
}

} // verus!
