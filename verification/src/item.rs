//! Items that the player can carry and that lie on the map.

use vstd::prelude::*;

verus! {

/// A potion that restores hit points when used.
#[derive(Debug, Clone, Copy, PartialEq, Eq, Structural)]
pub struct HealthPotion {
    pub heal_amount: i32,
}

/// A weapon that raises the damage of an attack while it is the active item.
#[derive(Debug, Clone, Copy, PartialEq, Eq, Structural)]
pub struct Sword {
    pub attack_bonus: i32,
}

/// A piece of armour.
#[derive(Debug, Clone, Copy, PartialEq, Eq, Structural)]
pub struct Shield {
    pub defense_bonus: i32,
}

/// What an inventory slot or a dropped item holds.
#[derive(Debug, Clone, Copy, PartialEq, Eq, Structural)]
pub enum GameItem {
    /// An empty slot.
    Null,
    HealthPotion(HealthPotion),
    Sword(Sword),
    Shield(Shield),
}

/// What using an item does beyond the one who used it.
#[derive(Debug, Clone, Copy, PartialEq, Eq, Structural)]
pub enum SideEffect {
    /// The item could not be used.
    Fault,
    /// The item was used and touched nobody else.
    Nothing,
}

/// An item lying on the map, with the id under which the host knows it.
#[derive(Debug, Clone, Copy)]
pub struct DroppedItem {
    pub id: i32,
    pub position: (i32, i32),
    pub item: GameItem,
}

impl GameItem {
    /// The bonus that this item adds to an attack: a sword's, and zero for
    /// anything else.
    pub open spec fn attack_bonus(self) -> int {
        match self {
            GameItem::Sword(sword) => sword.attack_bonus as int,
            _ => 0,
        }
    }

    /// Whether using this item does anything.
    pub open spec fn usable(self) -> bool {
        self is HealthPotion
    }
}

} // verus!
