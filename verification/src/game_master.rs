//! The game as a whole: the map, what moves on it, and what the player
//! asked for in the current turn.
//!
//! The host hands in one intent of the player at a time (`player_turn`,
//! `player_move`, `player_attack`, `player_pickup_item`, `player_use_item`)
//! and then lets the turn run with `process`.

use vstd::prelude::*;
use crate::dynamic_map::DynamicMapManager;
use crate::dynamic_map::DynamicMapState;
use crate::item::DroppedItem;
use crate::item::GameItem;
use crate::item::SideEffect;
use crate::mob::GameMob;
use crate::player::Direction;
use crate::player::PlayerState;
use crate::static_map::StaticMapManager;
use crate::static_map::StaticMapState;

verus! {

/// What happened in a turn, for the host to show.
#[derive(Debug, Clone, Copy, PartialEq, Eq, Structural)]
pub enum Message {
    /// The player picked an item up.
    ItemPickedUp,
    /// The player stepped on an item with a full inventory.
    InventoryFull,
    /// The player used an item.
    HpRecovered,
    /// The player hit the mob `id` for `damage`.
    MobDamaged { id: i32, damage: i32 },
    /// The mob `id` was defeated.
    MobDefeated { id: i32 },
    /// The player's attack hit nobody.
    AttackFumbled,
    /// The player rose by a level.
    LevelUp,
    /// The mob `id` hit the player for `damage`.
    PlayerDamaged { id: i32, damage: i32 },
    /// The player has no hit points left.
    PlayerDown,
}

/// The game.
pub struct GameMaster {
    pub static_map_manager: StaticMapManager,
    pub dynamic_map_manager: DynamicMapManager,
    /// The depth of the current level; mobs grow with it.
    pub current_level: i32,
    pub dungeon_width: i32,
    pub dungeon_height: i32,
    /// The tiles row by row: the tile `(x, y)` is at `y * dungeon_width + x`.
    pub dungeon_map_1d: Vec<i32>,
    /// What happened since the host last cleared the messages.
    pub message: Vec<Message>,
    /// The number of items that a new level should get.
    pub initial_item_count: i32,
    /// The number of mobs that a new level should get.
    pub initial_mob_count: i32,
    /// The chance, in percent, that a defeated mob leaves an item.
    pub mob_drop_item_probability: u32,
    /// The attack that the player asked for: tile and damage.
    pub player_attack_info: Vec<(i32, i32, i32)>,
    /// What the item that the player used does to others.
    pub player_side_effect_info: Vec<SideEffect>,
    /// The attacks of the mobs in this turn: tile, damage and the mob's id.
    pub mob_attack_info: Vec<(i32, i32, i32, i32)>,
    /// What the items that the mobs used do to others.
    pub mob_side_effect_info: Vec<SideEffect>,
    /// The id that the next dropped item gets.
    pub current_item_id_max: i32,
    /// The ids of the items that appeared on the map in this turn.
    pub dropped_item_added_ids: Vec<i32>,
    /// The ids of the items that left the map in this turn.
    pub dropped_item_removed_ids: Vec<i32>,
}

/// The game as a value.
pub struct GameState {
    pub static_map: StaticMapState,
    pub dynamic_map: DynamicMapState,
    pub current_level: i32,
    pub dungeon_width: i32,
    pub dungeon_height: i32,
    pub dungeon_map_1d: Seq<i32>,
    pub message: Seq<Message>,
    pub initial_item_count: i32,
    pub initial_mob_count: i32,
    pub mob_drop_item_probability: u32,
    pub player_attack_info: Seq<(i32, i32, i32)>,
    pub player_side_effect_info: Seq<SideEffect>,
    pub mob_attack_info: Seq<(i32, i32, i32, i32)>,
    pub mob_side_effect_info: Seq<SideEffect>,
    pub current_item_id_max: i32,
    pub dropped_item_added_ids: Seq<i32>,
    pub dropped_item_removed_ids: Seq<i32>,
}

impl View for GameMaster {
    type V = GameState;

    open spec fn view(&self) -> GameState {
        GameState {
            static_map: self.static_map_manager@,
            dynamic_map: self.dynamic_map_manager@,
            current_level: self.current_level,
            dungeon_width: self.dungeon_width,
            dungeon_height: self.dungeon_height,
            dungeon_map_1d: self.dungeon_map_1d@,
            message: self.message@,
            initial_item_count: self.initial_item_count,
            initial_mob_count: self.initial_mob_count,
            mob_drop_item_probability: self.mob_drop_item_probability,
            player_attack_info: self.player_attack_info@,
            player_side_effect_info: self.player_side_effect_info@,
            mob_attack_info: self.mob_attack_info@,
            mob_side_effect_info: self.mob_side_effect_info@,
            current_item_id_max: self.current_item_id_max,
            dropped_item_added_ids: self.dropped_item_added_ids@,
            dropped_item_removed_ids: self.dropped_item_removed_ids@,
        }
    }
}

/// The index of the first mob at or behind `start` that stands on `position`,
/// or the number of mobs where there is none.
pub open spec fn mob_index_from(mobs: Seq<GameMob>, position: (i32, i32), start: int) -> int
    decreases mobs.len() - start,
{
    if start < 0 || start >= mobs.len() {
        mobs.len() as int
    } else if mobs[start].position == position {
        start
    } else {
        mob_index_from(mobs, position, start + 1)
    }
}

/// The index of the first mob that stands on `position`, or the number of
/// mobs where there is none.
pub open spec fn mob_index_at(mobs: Seq<GameMob>, position: (i32, i32)) -> int {
    mob_index_from(mobs, position, 0)
}

/// The index of the first item at or behind `start` that lies on
/// `position`, or the number of items where there is none.
pub open spec fn item_index_from(items: Seq<DroppedItem>, position: (i32, i32), start: int) -> int
    decreases items.len() - start,
{
    if start < 0 || start >= items.len() {
        items.len() as int
    } else if items[start].position == position {
        start
    } else {
        item_index_from(items, position, start + 1)
    }
}

/// The index of the first item that lies on `position`, or the number of
/// items where there is none.
pub open spec fn item_index_at(items: Seq<DroppedItem>, position: (i32, i32)) -> int {
    item_index_from(items, position, 0)
}

/// `mob_index_from` gives the first mob on the tile: the mob at that
/// index stands there, no mob between `start` and it does, and the index
/// is the number of mobs exactly when none behind `start` stands there.
pub proof fn lemma_mob_index_from(mobs: Seq<GameMob>, position: (i32, i32), start: int)
    requires
        0 <= start <= mobs.len(),
    ensures
        start <= mob_index_from(mobs, position, start) <= mobs.len(),
        mob_index_from(mobs, position, start) < mobs.len() ==> mobs[mob_index_from(
            mobs,
            position,
            start,
        )].position == position,
        forall|i: int| start <= i < mob_index_from(mobs, position, start) ==> (#[trigger] mobs[i]).position != position,
    decreases mobs.len() - start,
{
    if start < mobs.len() && mobs[start].position != position {
        lemma_mob_index_from(mobs, position, start + 1);
    }
}

/// `item_index_from` gives the first item on the tile.
pub proof fn lemma_item_index_from(items: Seq<DroppedItem>, position: (i32, i32), start: int)
    requires
        0 <= start <= items.len(),
    ensures
        start <= item_index_from(items, position, start) <= items.len(),
        item_index_from(items, position, start) < items.len() ==> items[item_index_from(
            items,
            position,
            start,
        )].position == position,
        forall|i: int|
            start <= i < item_index_from(items, position, start) ==> (#[trigger] items[i]).position != position,
    decreases items.len() - start,
{
    if start < items.len() && items[start].position != position {
        lemma_item_index_from(items, position, start + 1);
    }
}

/// The index of the first mob on `position`, if there is one.
pub fn find_mob_at(mobs: &Vec<GameMob>, position: (i32, i32)) -> (found: Option<usize>)
    ensures
        match found {
            Some(index) => index < mobs.len() && index == mob_index_at(mobs@, position),
            None => mob_index_at(mobs@, position) == mobs.len(),
        },
{
    let mut i: usize = 0;
    while i < mobs.len()
        invariant
            i <= mobs.len(),
            mob_index_at(mobs@, position) == mob_index_from(mobs@, position, i as int),
        decreases mobs.len() - i,
    {
        if mobs[i].position.0 == position.0 && mobs[i].position.1 == position.1 {
            return Some(i);
        }
        i = i + 1;
    }
    None
}

/// The index of the first item on `position`, if there is one.
pub fn find_item_at(items: &Vec<DroppedItem>, position: (i32, i32)) -> (found: Option<usize>)
    ensures
        match found {
            Some(index) => index < items.len() && index == item_index_at(items@, position),
            None => item_index_at(items@, position) == items.len(),
        },
{
    let mut i: usize = 0;
    while i < items.len()
        invariant
            i <= items.len(),
            item_index_at(items@, position) == item_index_from(items@, position, i as int),
        decreases items.len() - i,
    {
        if items[i].position.0 == position.0 && items[i].position.1 == position.1 {
            return Some(i);
        }
        i = i + 1;
    }
    None
}

impl GameState {
    /// The state of a new game: level 1, ten items and ten mobs for a new
    /// level, a drop chance of 50 percent, and a map of 100 by 100 floor
    /// tiles without rooms.
    pub open spec fn is_initial(self) -> bool {
        &&& self.static_map == (StaticMapState {
            dungeon_width: 100,
            dungeon_height: 100,
            dungeon_map_2d: Seq::new(100, |x: int| Seq::new(100, |y: int| crate::grid::FLOOR)),
            room_params: Seq::empty(),
        })
        &&& self.dynamic_map == DynamicMapState::initial()
        &&& self.current_level == 1
        &&& self.dungeon_width == 100
        &&& self.dungeon_height == 100
        &&& self.dungeon_map_1d == Seq::<i32>::empty()
        &&& self.message == Seq::<Message>::empty()
        &&& self.initial_item_count == 10
        &&& self.initial_mob_count == 10
        &&& self.mob_drop_item_probability == 50
        &&& self.player_attack_info == Seq::<(i32, i32, i32)>::empty()
        &&& self.player_side_effect_info == Seq::<SideEffect>::empty()
        &&& self.mob_attack_info == Seq::<(i32, i32, i32, i32)>::empty()
        &&& self.mob_side_effect_info == Seq::<SideEffect>::empty()
        &&& self.current_item_id_max == 0
        &&& self.dropped_item_added_ids == Seq::<i32>::empty()
        &&& self.dropped_item_removed_ids == Seq::<i32>::empty()
    }

    /// The state with another player.
    pub open spec fn with_player(self, player: PlayerState) -> GameState {
        GameState { dynamic_map: DynamicMapState { player, ..self.dynamic_map }, ..self }
    }

    /// The state with one more message.
    pub open spec fn with_message(self, message: Message) -> GameState {
        GameState { message: self.message.push(message), ..self }
    }

    /// The state at the start of an intent that takes a turn: no item has
    /// appeared or left yet.
    pub open spec fn with_fresh_item_changes(self) -> GameState {
        GameState { dropped_item_added_ids: Seq::empty(), dropped_item_removed_ids: Seq::empty(), ..self }
    }

    /// The state one level deeper.
    pub open spec fn after_next_level(self) -> GameState {
        GameState { current_level: (self.current_level + 1) as i32, ..self }
    }

    /// The state without messages.
    pub open spec fn after_clear_message(self) -> GameState {
        GameState { message: Seq::empty(), ..self }
    }

    /// The state in which the player faces the direction with the host's
    /// number `direction`.
    pub open spec fn after_player_turn(self, direction: i32) -> GameState {
        self.with_player(PlayerState { direction: Direction::of_code(direction as int), ..self.dynamic_map.player })
    }

    /// Whether the player can step on the tile `(x, y)`: it is floor, and
    /// no mob stands on it.
    pub open spec fn move_allowed(self, x: i32, y: i32) -> bool {
        &&& self.static_map.is_floor(x as int, y as int)
        &&& mob_index_at(self.dynamic_map.mob_list, (x, y)) >= self.dynamic_map.mob_list.len()
    }

    /// The state in which the player has picked up the item with the index
    /// `index`: the item is in the inventory and off the map, and is noted
    /// as removed.
    pub open spec fn with_item_taken(self, index: int) -> GameState {
        let item = self.dynamic_map.item_list[index];
        GameState {
            dynamic_map: DynamicMapState {
                player: self.dynamic_map.player.with_item(item.item),
                item_list: self.dynamic_map.item_list.remove(index),
                ..self.dynamic_map
            },
            dropped_item_removed_ids: self.dropped_item_removed_ids.push(item.id),
            ..self
        }
    }

    /// The state after the player asked to step on `(x, y)`. A step that is
    /// not allowed moves nobody. Where the step leads onto an item, the
    /// player picks it up if the inventory has room, and is told that it is
    /// full otherwise.
    pub open spec fn after_player_move(self, x: i32, y: i32) -> GameState {
        let fresh = self.with_fresh_item_changes();
        if !self.move_allowed(x, y) {
            fresh
        } else {
            let moved = fresh.with_player(PlayerState { position: (x, y), ..self.dynamic_map.player });
            let index = item_index_at(self.dynamic_map.item_list, (x, y));
            if index >= self.dynamic_map.item_list.len() {
                moved
            } else if self.dynamic_map.player.has_room() {
                moved.with_item_taken(index).with_message(Message::ItemPickedUp)
            } else {
                moved.with_message(Message::InventoryFull)
            }
        }
    }

    /// The state after the player asked to attack: the attack waits to be
    /// carried out.
    pub open spec fn after_player_attack(self) -> GameState {
        GameState {
            player_attack_info: seq![self.dynamic_map.player.attack_info()],
            ..self.with_fresh_item_changes()
        }
    }

    /// The state after the player asked to pick up what lies on its tile.
    /// The item leaves the map also where the inventory is full.
    pub open spec fn after_player_pickup_item(self) -> GameState {
        let fresh = self.with_fresh_item_changes();
        let index = item_index_at(self.dynamic_map.item_list, self.dynamic_map.player.position);
        if index >= self.dynamic_map.item_list.len() {
            fresh
        } else {
            fresh.with_item_taken(index)
        }
    }

    /// Whether the player can use the item in the slot `item_idx`: the
    /// slot exists and holds a potion.
    pub open spec fn can_use_item(self, item_idx: i32) -> bool {
        0 <= item_idx < self.dynamic_map.player.items.len() && self.dynamic_map.player.items[item_idx as int].usable()
    }

    /// The player with the slot `item_idx` chosen, if there is such a slot.
    pub open spec fn player_selecting(self, item_idx: i32) -> PlayerState {
        if item_idx >= 0 {
            self.dynamic_map.player.with_selection(item_idx as usize)
        } else {
            self.dynamic_map.player
        }
    }

    /// The state after the player asked to use the item in the slot
    /// `item_idx`: the slot is chosen if it exists, the active item is
    /// used, and what that does to others waits to be carried out.
    pub open spec fn after_player_use_item(self, item_idx: i32) -> GameState {
        let player = self.player_selecting(item_idx);
        GameState {
            player_side_effect_info: seq![player.use_item_effect()],
            ..self.with_player(player.after_use_item()).with_message(Message::HpRecovered)
        }
    }
}

/// Where the player stands after asking to step on `(x, y)`: on that tile
/// if it is a floor tile of the map on which no mob stands, and where it
/// stood before if the tile is a wall, off the map or taken by a mob.
/// Nothing else moves, and the map stays as it is.
pub proof fn lemma_player_move(state: GameState, x: i32, y: i32)
    ensures
        state.move_allowed(x, y) <==> state.static_map.is_floor(x as int, y as int) && forall|i: int|
            0 <= i < state.dynamic_map.mob_list.len() ==> (#[trigger] state.dynamic_map.mob_list[i]).position != (
                x,
                y,
            ),
        state.move_allowed(x, y) ==> state.after_player_move(x, y).dynamic_map.player.position == (x, y),
        !state.move_allowed(x, y) ==> state.after_player_move(x, y).dynamic_map.player.position
            == state.dynamic_map.player.position,
        state.after_player_move(x, y).dynamic_map.mob_list == state.dynamic_map.mob_list,
        state.after_player_move(x, y).static_map == state.static_map,
{
    lemma_mob_index_from(state.dynamic_map.mob_list, (x, y), 0);
}

impl GameMaster {
    /// A new game.
    pub fn new() -> (game: GameMaster)
        ensures
            game@.is_initial(),
    {
        GameMaster {
            current_level: 1,
            initial_item_count: 10,
            initial_mob_count: 10,
            mob_drop_item_probability: 50,
            dungeon_width: 100,
            dungeon_height: 100,
            dungeon_map_1d: Vec::new(),
            message: Vec::new(),
            player_attack_info: Vec::new(),
            player_side_effect_info: Vec::new(),
            mob_attack_info: Vec::new(),
            mob_side_effect_info: Vec::new(),
            dropped_item_added_ids: Vec::new(),
            dropped_item_removed_ids: Vec::new(),
            current_item_id_max: 0,
            static_map_manager: StaticMapManager::new(100, 100),
            dynamic_map_manager: DynamicMapManager::new(),
        }
    }

    /// Goes one level deeper. The map stays until a level is initialized.
    pub fn next_level(&mut self)
        requires
            old(self).current_level < i32::MAX,
        ensures
            final(self)@ == old(self)@.after_next_level(),
    {
        self.current_level = self.current_level + 1;
    }

    /// Forgets the messages.
    pub fn clear_message(&mut self)
        ensures
            final(self)@ == old(self)@.after_clear_message(),
    {
        self.message.clear();
    }

    /// Turns the player. This takes no turn.
    pub fn player_turn(&mut self, direction: i32)
        ensures
            final(self)@ == old(self)@.after_player_turn(direction),
    {
        self.dynamic_map_manager.player.direction = Direction::from_code(direction);
    }

    /// Moves the player to the tile `(x, y)` if that is allowed, and says
    /// whether it was.
    pub fn player_move(&mut self, x: i32, y: i32) -> (moved: bool)
        ensures
            moved == old(self)@.move_allowed(x, y),
            final(self)@ == old(self)@.after_player_move(x, y),
    {
        self.dropped_item_added_ids.clear();
        self.dropped_item_removed_ids.clear();
        if !self.static_map_manager.is_floor(x, y) {
            return false;
        }
        if find_mob_at(&self.dynamic_map_manager.mob_list, (x, y)).is_some() {
            return false;
        }
        self.dynamic_map_manager.player.position = (x, y);
        match find_item_at(&self.dynamic_map_manager.item_list, (x, y)) {
            Some(index) => {
                let dropped = self.dynamic_map_manager.item_list[index];
                let got_item = self.dynamic_map_manager.player.add_item(&dropped.item);
                if got_item {
                    self.dropped_item_removed_ids.push(dropped.id);
                    self.dynamic_map_manager.item_list.remove(index);
                    self.message.push(Message::ItemPickedUp);
                } else {
                    self.message.push(Message::InventoryFull);
                }
            },
            None => {},
        }
        true
    }

    /// Notes the player's attack for this turn.
    pub fn player_attack(&mut self)
        requires
            old(self)@.dynamic_map.player.attack_fits(),
        ensures
            final(self)@ == old(self)@.after_player_attack(),
    {
        self.dropped_item_added_ids.clear();
        self.dropped_item_removed_ids.clear();
        self.player_attack_info.clear();
        self.dynamic_map_manager.player.attack(&mut self.player_attack_info);
    }

    /// Picks up the item on the player's tile, if there is one.
    pub fn player_pickup_item(&mut self)
        ensures
            final(self)@ == old(self)@.after_player_pickup_item(),
    {
        self.dropped_item_added_ids.clear();
        self.dropped_item_removed_ids.clear();
        let position = self.dynamic_map_manager.player.position;
        match find_item_at(&self.dynamic_map_manager.item_list, position) {
            Some(index) => {
                let dropped = self.dynamic_map_manager.item_list.remove(index);
                self.dropped_item_removed_ids.push(dropped.id);
                self.dynamic_map_manager.player.add_item(&dropped.item);
            },
            None => {},
        }
    }

    /// Whether the player can use the item in the slot `item_idx`.
    pub fn player_can_use_item(&self, item_idx: i32) -> (usable: bool)
        ensures
            usable == self@.can_use_item(item_idx),
    {
        if item_idx < 0 || item_idx as usize >= self.dynamic_map_manager.player.items.len() {
            return false;
        }
        match self.dynamic_map_manager.player.items[item_idx as usize] {
            GameItem::HealthPotion(_) => true,
            _ => false,
        }
    }

    /// Chooses the slot `item_idx` and uses the item in the active slot.
    pub fn player_use_item(&mut self, item_idx: i32)
        requires
            old(self)@.player_selecting(item_idx).use_item_fits(),
        ensures
            final(self)@ == old(self)@.after_player_use_item(item_idx),
    {
        self.player_side_effect_info.clear();
        if item_idx >= 0 {
            self.dynamic_map_manager.player.select_item(item_idx as usize);
        }
        let effect = self.dynamic_map_manager.player.use_item();
        self.player_side_effect_info.push(effect);
        self.message.push(Message::HpRecovered);
    }
}

} // verus!
