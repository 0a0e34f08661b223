//! The mobs: what the player fights.

use vstd::prelude::*;
use crate::player::Direction;

verus! {

/// A mob. Its `id` is given when it is placed and tells it from the other
/// mobs of the level.
#[derive(Debug, Clone, Copy)]
pub struct GameMob {
    pub id: i32,
    pub position: (i32, i32),
    pub direction: Direction,
    pub hp: i32,
    pub attack: i32,
    pub defense: i32,
    /// The experience that the player gets for defeating the mob.
    pub exp_point: i32,
}

/// The hit points of a mob of level 1.
pub const BASE_HP: i32 = 10;

/// The attack of a mob of level 1.
pub const BASE_ATTACK: i32 = 5;

/// The defense of a mob of level 1.
pub const BASE_DEFENSE: i32 = 2;

/// The experience that a mob of level 1 is worth.
pub const BASE_EXP: i32 = 1;

/// The mob with the given id, position and values, facing up.
pub open spec fn mob_with_status(
    id: i32,
    x: i32,
    y: i32,
    hp: i32,
    attack: i32,
    defense: i32,
    exp_point: i32,
) -> GameMob {
    GameMob { id, position: (x, y), direction: Direction::Up, hp, attack, defense, exp_point }
}

/// Whether the values of a mob of the given level fit into `i32`.
pub open spec fn level_fits(level: i32) -> bool {
    i32::MIN <= BASE_HP * level <= i32::MAX
}

/// The mob of the given level: each value is that of level 1 times the
/// level.
pub open spec fn mob_of_level(id: i32, x: i32, y: i32, level: i32) -> GameMob {
    mob_with_status(
        id,
        x,
        y,
        (BASE_HP * level) as i32,
        (BASE_ATTACK * level) as i32,
        (BASE_DEFENSE * level) as i32,
        (BASE_EXP * level) as i32,
    )
}

impl GameMob {
    /// Whether the tile in front of the mob has coordinates within `i32`.
    pub open spec fn attack_fits(self) -> bool {
        &&& i32::MIN <= self.position.0 + self.direction.dx() <= i32::MAX
        &&& i32::MIN <= self.position.1 + self.direction.dy() <= i32::MAX
    }

    /// The attack of the mob: the tile in front of it, and its damage.
    pub open spec fn attack_info(self) -> (i32, i32, i32) {
        (
            (self.position.0 + self.direction.dx()) as i32,
            (self.position.1 + self.direction.dy()) as i32,
            self.attack,
        )
    }

    /// A mob of level 1.
    pub fn new(id: i32, x: i32, y: i32) -> (mob: GameMob)
        ensures
            mob == mob_of_level(id, x, y, 1),
    {
        GameMob::new_from_level(id, x, y, 1)
    }

    /// A mob of the given level.
    pub fn new_from_level(id: i32, x: i32, y: i32, level: i32) -> (mob: GameMob)
        requires
            level_fits(level),
        ensures
            mob == mob_of_level(id, x, y, level),
    {
        let hp = BASE_HP * level;
        let attack = BASE_ATTACK * level;
        let defense = BASE_DEFENSE * level;
        let exp_point = BASE_EXP * level;
        GameMob::new_from_status(id, x, y, hp, attack, defense, exp_point)
    }

    /// A mob with the given values.
    pub fn new_from_status(id: i32, x: i32, y: i32, hp: i32, attack: i32, defense: i32, exp_point: i32) -> (mob:
        GameMob)
        ensures
            mob == mob_with_status(id, x, y, hp, attack, defense, exp_point),
    {
        GameMob { id, position: (x, y), direction: Direction::Up, hp, attack, defense, exp_point }
    }

    /// Whether `attack` can be called: the tile in front of the mob has
    /// coordinates within `i32`.
    pub fn can_attack(&self) -> (fits: bool)
        ensures
            fits == self.attack_fits(),
    {
        let step_x: i64 = match self.direction {
            Direction::UpRight | Direction::Right | Direction::DownRight => 1,
            Direction::DownLeft | Direction::Left | Direction::UpLeft => -1,
            Direction::Up | Direction::Down => 0,
        };
        let step_y: i64 = match self.direction {
            Direction::Up | Direction::UpRight | Direction::UpLeft => -1,
            Direction::Down | Direction::DownRight | Direction::DownLeft => 1,
            Direction::Left | Direction::Right => 0,
        };
        let x = self.position.0 as i64 + step_x;
        let y = self.position.1 as i64 + step_y;
        -2147483648 <= x && x <= 2147483647 && -2147483648 <= y && y <= 2147483647
    }

    /// Appends the mob's attack to `result`: the tile in front of the mob,
    /// and its damage.
    pub fn attack(&self, result: &mut Vec<(i32, i32, i32)>)
        requires
            self.attack_fits(),
        ensures
            final(result)@ == old(result)@.push(self.attack_info()),
    {
        let x = self.position.0;
        let y = self.position.1;
        let target = match self.direction {
            Direction::Up => (x, y - 1),
            Direction::UpRight => (x + 1, y - 1),
            Direction::Right => (x + 1, y),
            Direction::DownRight => (x + 1, y + 1),
            Direction::Down => (x, y + 1),
            Direction::DownLeft => (x - 1, y + 1),
            Direction::Left => (x - 1, y),
            Direction::UpLeft => (x - 1, y - 1),
        };
        result.push((target.0, target.1, self.attack));
    }
}

} // verus!
