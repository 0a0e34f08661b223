//! The player: position, facing, combat values, inventory and level.

use vstd::prelude::*;
use crate::item::GameItem;
use crate::item::SideEffect;

verus! {

/// The eight directions an entity can face, clockwise from `Up`.
#[derive(Debug, Clone, Copy, PartialEq, Eq, Structural)]
pub enum Direction {
    Up,
    UpRight,
    Right,
    DownRight,
    Down,
    DownLeft,
    Left,
    UpLeft,
}

impl Direction {
    /// The step along the x axis that this direction takes.
    pub open spec fn dx(self) -> int {
        match self {
            Direction::UpRight | Direction::Right | Direction::DownRight => 1,
            Direction::DownLeft | Direction::Left | Direction::UpLeft => -1,
            Direction::Up | Direction::Down => 0,
        }
    }

    /// The step along the y axis that this direction takes; `Up` is towards
    /// smaller y.
    pub open spec fn dy(self) -> int {
        match self {
            Direction::Up | Direction::UpRight | Direction::UpLeft => -1,
            Direction::Down | Direction::DownRight | Direction::DownLeft => 1,
            Direction::Left | Direction::Right => 0,
        }
    }

    /// The number under which the host knows this direction: 0 for `Up`,
    /// then clockwise up to 7 for `UpLeft`.
    pub open spec fn code(self) -> int {
        match self {
            Direction::Up => 0,
            Direction::UpRight => 1,
            Direction::Right => 2,
            Direction::DownRight => 3,
            Direction::Down => 4,
            Direction::DownLeft => 5,
            Direction::Left => 6,
            Direction::UpLeft => 7,
        }
    }

    /// The direction that the host means by `code`; any number outside
    /// 0..=7 means `Up`.
    pub open spec fn of_code(code: int) -> Direction {
        if code == 1 {
            Direction::UpRight
        } else if code == 2 {
            Direction::Right
        } else if code == 3 {
            Direction::DownRight
        } else if code == 4 {
            Direction::Down
        } else if code == 5 {
            Direction::DownLeft
        } else if code == 6 {
            Direction::Left
        } else if code == 7 {
            Direction::UpLeft
        } else {
            Direction::Up
        }
    }

    /// The direction from a tile towards another one that lies `dx` to the
    /// right and `dy` below it. Only the signs count. For two equal tiles
    /// there is no direction.
    pub open spec fn towards(dx: int, dy: int) -> Option<Direction> {
        if dx > 0 {
            if dy > 0 {
                Some(Direction::DownRight)
            } else if dy < 0 {
                Some(Direction::UpRight)
            } else {
                Some(Direction::Right)
            }
        } else if dx < 0 {
            if dy > 0 {
                Some(Direction::DownLeft)
            } else if dy < 0 {
                Some(Direction::UpLeft)
            } else {
                Some(Direction::Left)
            }
        } else {
            if dy > 0 {
                Some(Direction::Down)
            } else if dy < 0 {
                Some(Direction::Up)
            } else {
                None
            }
        }
    }

    /// The host's number for this direction.
    pub fn to_code(self) -> (code: i32)
        ensures
            code == self.code(),
            0 <= code <= 7,
    {
        match self {
            Direction::Up => 0,
            Direction::UpRight => 1,
            Direction::Right => 2,
            Direction::DownRight => 3,
            Direction::Down => 4,
            Direction::DownLeft => 5,
            Direction::Left => 6,
            Direction::UpLeft => 7,
        }
    }

    /// The direction for a number of the host.
    pub fn from_code(code: i32) -> (direction: Direction)
        ensures
            direction == Direction::of_code(code as int),
    {
        match code {
            1 => Direction::UpRight,
            2 => Direction::Right,
            3 => Direction::DownRight,
            4 => Direction::Down,
            5 => Direction::DownLeft,
            6 => Direction::Left,
            7 => Direction::UpLeft,
            _ => Direction::Up,
        }
    }
}

/// Every direction comes back from its own number.
pub proof fn lemma_direction_code_round_trip(direction: Direction)
    ensures
        0 <= direction.code() <= 7,
        Direction::of_code(direction.code()) == direction,
{
}

/// The player.
pub struct GamePlayer {
    pub position: (i32, i32),
    pub direction: Direction,
    pub max_hp: i32,
    pub hp: i32,
    pub attack: i32,
    pub defense: i32,
    /// The inventory. A slot that holds nothing holds `GameItem::Null`.
    pub items: Vec<GameItem>,
    /// The slot whose item is used and whose sword counts in an attack.
    pub active_item_index: usize,
    pub exp_point: i32,
    /// Whether a level-up restores all hit points.
    pub is_heal_when_level_up: bool,
    pub level: i32,
}

/// The number of inventory slots of a new player.
pub const INVENTORY_SLOTS: usize = 8;

/// The experience that a player of the given level needs to level up.
pub open spec fn level_up_threshold(level: int) -> int {
    level * 3
}

/// The player as a value: what `GamePlayer` holds, with the inventory as a
/// sequence.
pub struct PlayerState {
    pub position: (i32, i32),
    pub direction: Direction,
    pub max_hp: i32,
    pub hp: i32,
    pub attack: i32,
    pub defense: i32,
    pub items: Seq<GameItem>,
    pub active_item_index: usize,
    pub exp_point: i32,
    pub is_heal_when_level_up: bool,
    pub level: i32,
}

impl View for GamePlayer {
    type V = PlayerState;

    open spec fn view(&self) -> PlayerState {
        PlayerState {
            position: self.position,
            direction: self.direction,
            max_hp: self.max_hp,
            hp: self.hp,
            attack: self.attack,
            defense: self.defense,
            items: self.items@,
            active_item_index: self.active_item_index,
            exp_point: self.exp_point,
            is_heal_when_level_up: self.is_heal_when_level_up,
            level: self.level,
        }
    }
}

/// The first slot at or behind `start` that holds nothing, or the number
/// of slots where there is none.
pub open spec fn free_slot_from(items: Seq<GameItem>, start: int) -> int
    decreases items.len() - start,
{
    if start < 0 || start >= items.len() {
        items.len() as int
    } else if items[start] is Null {
        start
    } else {
        free_slot_from(items, start + 1)
    }
}

impl PlayerState {
    /// The state of a new player.
    pub open spec fn initial() -> PlayerState {
        PlayerState {
            position: (0, 0),
            direction: Direction::Up,
            max_hp: 100,
            hp: 100,
            attack: 10,
            defense: 5,
            items: Seq::new(INVENTORY_SLOTS as nat, |i: int| GameItem::Null),
            active_item_index: 0,
            exp_point: 0,
            is_heal_when_level_up: false,
            level: 1,
        }
    }

    /// The item in the active slot; nothing where the active slot does not
    /// exist.
    pub open spec fn active_item(self) -> GameItem {
        if self.active_item_index < self.items.len() {
            self.items[self.active_item_index as int]
        } else {
            GameItem::Null
        }
    }

    /// The first slot that holds nothing, or the number of slots where every
    /// slot is taken.
    pub open spec fn free_slot(self) -> int {
        free_slot_from(self.items, 0)
    }

    /// Whether the inventory has a slot for one more item.
    pub open spec fn has_room(self) -> bool {
        self.free_slot() < self.items.len()
    }

    /// The player after picking up `item`: it goes into the first free
    /// slot, and nowhere where there is none.
    pub open spec fn with_item(self, item: GameItem) -> PlayerState {
        if self.has_room() {
            PlayerState { items: self.items.update(self.free_slot(), item), ..self }
        } else {
            self
        }
    }

    /// The player after choosing the slot `index`; a slot that does not
    /// exist is not chosen.
    pub open spec fn with_selection(self, index: usize) -> PlayerState {
        if index < self.items.len() {
            PlayerState { active_item_index: index, ..self }
        } else {
            self
        }
    }

    /// The hit points after a potion that heals `heal`: no more than
    /// `max_hp`.
    pub open spec fn healed_hp(self, heal: i32) -> int {
        if self.hp + heal > self.max_hp {
            self.max_hp as int
        } else {
            self.hp + heal
        }
    }

    /// Whether using the active item stays within the range of `i32`.
    pub open spec fn use_item_fits(self) -> bool {
        self.active_item() matches GameItem::HealthPotion(potion) ==> i32::MIN <= self.hp + potion.heal_amount
            <= i32::MAX
    }

    /// The player after using the active item. A potion heals and is used
    /// up; anything else leaves the player as it is.
    pub open spec fn after_use_item(self) -> PlayerState {
        match self.active_item() {
            GameItem::HealthPotion(potion) => PlayerState {
                hp: self.healed_hp(potion.heal_amount) as i32,
                items: self.items.update(self.active_item_index as int, GameItem::Null),
                ..self
            },
            _ => self,
        }
    }

    /// What using the active item does to others.
    pub open spec fn use_item_effect(self) -> SideEffect {
        if self.active_item() is HealthPotion {
            SideEffect::Nothing
        } else {
            SideEffect::Fault
        }
    }

    /// The damage of an attack: the player's own, and the bonus of a sword
    /// in the active slot.
    pub open spec fn attack_damage(self) -> int {
        self.attack + self.active_item().attack_bonus()
    }

    /// Whether the attack stays within the range of `i32`: the tile in
    /// front of the player, and the damage.
    pub open spec fn attack_fits(self) -> bool {
        &&& i32::MIN <= self.position.0 + self.direction.dx() <= i32::MAX
        &&& i32::MIN <= self.position.1 + self.direction.dy() <= i32::MAX
        &&& i32::MIN <= self.attack_damage() <= i32::MAX
    }

    /// The attack of the player: the tile in front of it, and the damage.
    pub open spec fn attack_info(self) -> (i32, i32, i32) {
        (
            (self.position.0 + self.direction.dx()) as i32,
            (self.position.1 + self.direction.dy()) as i32,
            self.attack_damage() as i32,
        )
    }

    /// Whether the player has the experience to level up.
    pub open spec fn levels_up(self) -> bool {
        self.exp_point >= level_up_threshold(self.level as int)
    }

    /// Whether a level-up, if it is due, stays within the range of `i32`.
    pub open spec fn level_up_fits(self) -> bool {
        self.levels_up() ==> {
            &&& self.level + 1 <= i32::MAX
            &&& self.max_hp + 10 <= i32::MAX
            &&& self.attack + 2 <= i32::MAX
            &&& self.defense + 1 <= i32::MAX
        }
    }

    /// The player after the check for a level-up. With enough experience
    /// the level rises by one, the experience starts again from zero,
    /// `max_hp` grows by 10, `attack` by 2 and `defense` by 1, and the hit
    /// points are restored if the player heals on a level-up.
    pub open spec fn after_level_check(self) -> PlayerState {
        if self.levels_up() {
            PlayerState {
                exp_point: 0,
                level: (self.level + 1) as i32,
                max_hp: (self.max_hp + 10) as i32,
                hp: if self.is_heal_when_level_up { (self.max_hp + 10) as i32 } else { self.hp },
                attack: (self.attack + 2) as i32,
                defense: (self.defense + 1) as i32,
                ..self
            }
        } else {
            self
        }
    }
}

/// A slot that `free_slot_from` gives holds nothing, and no slot between
/// `start` and it is free.
pub proof fn lemma_free_slot_from(items: Seq<GameItem>, start: int)
    requires
        0 <= start <= items.len(),
    ensures
        start <= free_slot_from(items, start) <= items.len(),
        free_slot_from(items, start) < items.len() ==> items[free_slot_from(items, start)] is Null,
        forall|i: int| start <= i < free_slot_from(items, start) ==> !(#[trigger] items[i] is Null),
    decreases items.len() - start,
{
    if start < items.len() && !(items[start] is Null) {
        lemma_free_slot_from(items, start + 1);
    }
}

/// What picking up an item does to the inventory. There is room exactly
/// when some slot holds nothing. The item goes into the first such slot,
/// which is slot 0 where the inventory is empty, and every other slot stays
/// as it is. An inventory without room stays as it is.
pub proof fn lemma_with_item(player: PlayerState, item: GameItem)
    ensures
        player.has_room() <==> exists|i: int| 0 <= i < player.items.len() && #[trigger] player.items[i] is Null,
        player.items.len() > 0 && player.items[0] is Null ==> player.with_item(item).items == player.items.update(
            0,
            item,
        ),
        player.has_room() ==> {
            &&& player.with_item(item).items.len() == player.items.len()
            &&& player.with_item(item).items[player.free_slot()] == item
            &&& forall|i: int|
                0 <= i < player.items.len() && i != player.free_slot() ==> #[trigger] player.with_item(item).items[i]
                    == player.items[i]
        },
        !player.has_room() ==> player.with_item(item) == player,
{
    lemma_free_slot_from(player.items, 0);
}

impl GamePlayer {
    /// A new player at the origin, facing up, at level 1 with 100 hit
    /// points and an empty inventory of eight slots.
    pub fn new() -> (player: GamePlayer)
        ensures
            player@ == PlayerState::initial(),
    {
        let mut player = GamePlayer {
            position: (0, 0),
            direction: Direction::Up,
            max_hp: 100,
            hp: 100,
            attack: 10,
            defense: 5,
            items: Vec::new(),
            active_item_index: 0,
            exp_point: 0,
            is_heal_when_level_up: false,
            level: 1,
        };
        player.init_items(INVENTORY_SLOTS);
        player
    }

    /// Replaces the inventory by `length` empty slots.
    pub fn init_items(&mut self, length: usize)
        ensures
            final(self)@ == (PlayerState {
                items: Seq::new(length as nat, |i: int| GameItem::Null),
                ..old(self)@
            }),
    {
        self.items.clear();
        let mut count: usize = 0;
        while count < length
            invariant
                count <= length,
                self.items@ == Seq::new(count as nat, |i: int| GameItem::Null),
                self@ == (PlayerState { items: self.items@, ..old(self)@ }),
            decreases length - count,
        {
            self.items.push(GameItem::Null);
            count = count + 1;
            assert(self.items@ =~= Seq::new(count as nat, |i: int| GameItem::Null));
        }
    }

    /// Puts `item` into the first free slot. Returns whether there was one;
    /// a full inventory stays as it is.
    pub fn add_item(&mut self, item: &GameItem) -> (added: bool)
        ensures
            added == old(self)@.has_room(),
            final(self)@ == old(self)@.with_item(*item),
    {
        let mut i: usize = 0;
        while i < self.items.len()
            invariant
                i <= self.items.len(),
                self@ == old(self)@,
                free_slot_from(self.items@, 0) == free_slot_from(self.items@, i as int),
            decreases self.items.len() - i,
        {
            if self.items[i] == GameItem::Null {
                self.items[i] = *item;
                return true;
            }
            i = i + 1;
        }
        false
    }

    /// Makes the slot `index` the active one. An index behind the last
    /// slot changes nothing.
    pub fn select_item(&mut self, index: usize)
        ensures
            final(self)@ == old(self)@.with_selection(index),
    {
        if index < self.items.len() {
            self.active_item_index = index;
        }
    }

    /// Uses the item in the active slot.
    pub fn use_item(&mut self) -> (effect: SideEffect)
        requires
            old(self)@.use_item_fits(),
        ensures
            effect == old(self)@.use_item_effect(),
            final(self)@ == old(self)@.after_use_item(),
    {
        let mut result = SideEffect::Fault;
        if self.active_item_index < self.items.len() {
            match self.items[self.active_item_index] {
                GameItem::HealthPotion(potion) => {
                    self.hp = self.hp + potion.heal_amount;
                    if self.hp > self.max_hp {
                        self.hp = self.max_hp;
                    }
                    result = SideEffect::Nothing;
                    self.items[self.active_item_index] = GameItem::Null;
                },
                _ => {},
            }
        }
        result
    }

    /// Appends the player's attack to `result`: the tile in front of the
    /// player, and the damage. Nothing on the map changes.
    pub fn attack(&self, result: &mut Vec<(i32, i32, i32)>)
        requires
            self@.attack_fits(),
        ensures
            final(result)@ == old(result)@.push(self@.attack_info()),
    {
        let mut damage = self.attack;
        if self.active_item_index < self.items.len() {
            match self.items[self.active_item_index] {
                GameItem::Sword(sword) => {
                    damage = damage + sword.attack_bonus;
                },
                _ => {},
            }
        }
        let x = self.position.0;
        let y = self.position.1;
        let target = match self.direction {
            Direction::Up => (x, y - 1),
            Direction::UpRight => (x + 1, y - 1),
            Direction::Right => (x + 1, y),
            Direction::DownRight => (x + 1, y + 1),
            Direction::Down => (x, y + 1),
            Direction::DownLeft => (x - 1, y + 1),
            Direction::Left => (x - 1, y),
            Direction::UpLeft => (x - 1, y - 1),
        };
        result.push((target.0, target.1, damage));
    }

    /// Whether `use_item` can be called: what it adds stays within `i32`.
    pub fn can_use_item(&self) -> (fits: bool)
        ensures
            fits == self@.use_item_fits(),
    {
        if self.active_item_index < self.items.len() {
            match self.items[self.active_item_index] {
                GameItem::HealthPotion(potion) => {
                    let healed = self.hp as i64 + potion.heal_amount as i64;
                    -2147483648 <= healed && healed <= 2147483647
                },
                _ => true,
            }
        } else {
            true
        }
    }

    /// Whether `attack` can be called: the tile in front of the player and
    /// the damage stay within `i32`.
    pub fn can_attack(&self) -> (fits: bool)
        ensures
            fits == self@.attack_fits(),
    {
        let bonus: i64 = if self.active_item_index < self.items.len() {
            match self.items[self.active_item_index] {
                GameItem::Sword(sword) => sword.attack_bonus as i64,
                _ => 0,
            }
        } else {
            0
        };
        let damage = self.attack as i64 + bonus;
        let step_x: i64 = match self.direction {
            Direction::UpRight | Direction::Right | Direction::DownRight => 1,
            Direction::DownLeft | Direction::Left | Direction::UpLeft => -1,
            Direction::Up | Direction::Down => 0,
        };
        let step_y: i64 = match self.direction {
            Direction::Up | Direction::UpRight | Direction::UpLeft => -1,
            Direction::Down | Direction::DownRight | Direction::DownLeft => 1,
            Direction::Left | Direction::Right => 0,
        };
        let x = self.position.0 as i64 + step_x;
        let y = self.position.1 as i64 + step_y;
        -2147483648 <= x && x <= 2147483647 && -2147483648 <= y && y <= 2147483647 && -2147483648 <= damage
            && damage <= 2147483647
    }

    /// Whether `check_level_up` can be called: a level-up, if it is due,
    /// stays within `i32`.
    pub fn can_check_level_up(&self) -> (fits: bool)
        ensures
            fits == self@.level_up_fits(),
    {
        if self.exp_point as i64 >= self.level as i64 * 3 {
            self.level < i32::MAX && self.max_hp <= i32::MAX - 10 && self.attack <= i32::MAX - 2 && self.defense
                < i32::MAX
        } else {
            true
        }
    }

    /// Levels the player up if the experience suffices, and says whether
    /// it did.
    pub fn check_level_up(&mut self) -> (leveled: bool)
        requires
            old(self)@.level_up_fits(),
        ensures
            leveled == old(self)@.levels_up(),
            final(self)@ == old(self)@.after_level_check(),
    {
        let is_level_up = self.exp_point as i64 >= self.level as i64 * 3;
        if is_level_up {
            self.exp_point = 0;
            self.level = self.level + 1;
            self.max_hp = self.max_hp + 10;
            if self.is_heal_when_level_up {
                self.hp = self.max_hp;
            }
            self.attack = self.attack + 2;
            self.defense = self.defense + 1;
        }
        is_level_up
    }
}

} // verus!
