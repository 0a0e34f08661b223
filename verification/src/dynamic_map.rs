//! What moves on a level: the player, the mobs and the items on the floor.

use vstd::prelude::*;
use crate::item::DroppedItem;
use crate::mob::GameMob;
use crate::player::GamePlayer;
use crate::player::PlayerState;

verus! {

/// What moves on a level.
pub struct DynamicMapManager {
    pub player: GamePlayer,
    /// The items that lie on the map.
    pub item_list: Vec<DroppedItem>,
    /// The mobs that are alive.
    pub mob_list: Vec<GameMob>,
    /// The ids of the mobs that were defeated in the last turn.
    pub defeated_mob_id: Vec<i32>,
    pub goal_position: (i32, i32),
}

/// What moves on a level, as a value.
pub struct DynamicMapState {
    pub player: PlayerState,
    pub item_list: Seq<DroppedItem>,
    pub mob_list: Seq<GameMob>,
    pub defeated_mob_id: Seq<i32>,
    pub goal_position: (i32, i32),
}

impl View for DynamicMapManager {
    type V = DynamicMapState;

    open spec fn view(&self) -> DynamicMapState {
        DynamicMapState {
            player: self.player@,
            item_list: self.item_list@,
            mob_list: self.mob_list@,
            defeated_mob_id: self.defeated_mob_id@,
            goal_position: self.goal_position,
        }
    }
}

impl DynamicMapState {
    /// A new player at the origin, the goal at the origin, and nothing
    /// else.
    pub open spec fn initial() -> DynamicMapState {
        DynamicMapState {
            player: PlayerState::initial(),
            item_list: Seq::empty(),
            mob_list: Seq::empty(),
            defeated_mob_id: Seq::empty(),
            goal_position: (0, 0),
        }
    }

    /// The state without items, mobs and defeated mobs; the player and the
    /// goal stay.
    pub open spec fn cleared(self) -> DynamicMapState {
        DynamicMapState {
            item_list: Seq::empty(),
            mob_list: Seq::empty(),
            defeated_mob_id: Seq::empty(),
            ..self
        }
    }
}

impl DynamicMapManager {
    /// A new player and an empty level.
    pub fn new() -> (map: DynamicMapManager)
        ensures
            map@ == DynamicMapState::initial(),
    {
        DynamicMapManager {
            player: GamePlayer::new(),
            item_list: Vec::new(),
            mob_list: Vec::new(),
            defeated_mob_id: Vec::new(),
            goal_position: (0, 0),
        }
    }

    /// Empties the lists for a new level. The player and the goal stay.
    pub fn clear(&mut self)
        ensures
            final(self)@ == old(self)@.cleared(),
    {
        self.item_list.clear();
        self.mob_list.clear();
        self.defeated_mob_id.clear();
    }
}

} // verus!
