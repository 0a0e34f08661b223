//! What the mobs do in a turn.
//!
//! A mob acts only while it is in a room together with the player. Next to
//! the player it turns to it and attacks; farther away it takes a step
//! towards it. The steps are taken one after the other in the order of the
//! list of mobs, each against the positions at that moment: of two mobs
//! that head for the same free tile, the one that comes first in the list
//! gets it.

use vstd::prelude::*;
use crate::dynamic_map::DynamicMapState;
use crate::game_master::GameMaster;
use crate::game_master::GameState;
use crate::mob::GameMob;
use crate::player::Direction;

verus! {

/// Whether a tile that lies `dx` to the right and `dy` below another one
/// touches it, diagonals included.
pub open spec fn is_adjacent(dx: int, dy: int) -> bool {
    -1 <= dx <= 1 && -1 <= dy <= 1
}

/// The distance that `delta` spans.
pub open spec fn distance(delta: int) -> int {
    if delta < 0 {
        -delta
    } else {
        delta
    }
}

/// The direction of a step towards a tile that lies `dx` to the right and
/// `dy` below: along the axis on which it is farther away, and along the y
/// axis where it is equally far on both.
pub open spec fn chase_direction(dx: int, dy: int) -> Direction {
    if distance(dx) > distance(dy) {
        if dx > 0 {
            Direction::Right
        } else {
            Direction::Left
        }
    } else {
        if dy > 0 {
            Direction::Down
        } else {
            Direction::Up
        }
    }
}

/// A step that a mob wants to take: the mob's id and the tile.
pub type ProposedMove = (i32, (i32, i32));

/// Whether the tile `position` is taken by a mob other than those with the
/// id `id`.
pub open spec fn is_blocked(mobs: Seq<GameMob>, id: i32, position: (i32, i32)) -> bool {
    exists|j: int| 0 <= j < mobs.len() && (#[trigger] mobs[j]).id != id && mobs[j].position == position
}

/// The index of the first mob at or behind `start` with the id `id`, or the
/// number of mobs where there is none.
pub open spec fn mob_with_id_from(mobs: Seq<GameMob>, id: i32, start: int) -> int
    decreases mobs.len() - start,
{
    if start < 0 || start >= mobs.len() {
        mobs.len() as int
    } else if mobs[start].id == id {
        start
    } else {
        mob_with_id_from(mobs, id, start + 1)
    }
}

/// The mobs after one proposed step: the first mob with the id stands on
/// the tile, unless another mob stands there already.
pub open spec fn after_step(mobs: Seq<GameMob>, step: ProposedMove) -> Seq<GameMob> {
    let index = mob_with_id_from(mobs, step.0, 0);
    if is_blocked(mobs, step.0, step.1) || index >= mobs.len() {
        mobs
    } else {
        mobs.update(index, GameMob { position: step.1, ..mobs[index] })
    }
}

/// The mobs after the first `count` of the proposed steps, one after the
/// other.
pub open spec fn after_steps(mobs: Seq<GameMob>, steps: Seq<ProposedMove>, count: nat) -> Seq<GameMob>
    decreases count,
{
    if count == 0 {
        mobs
    } else {
        after_step(after_steps(mobs, steps, (count - 1) as nat), steps[count - 1])
    }
}

impl GameState {
    /// Whether the mob acts in this turn: some room holds both it and the
    /// player.
    pub open spec fn mob_is_active(self, mob: GameMob) -> bool {
        self.static_map.in_same_room(self.dynamic_map.player.position, mob.position)
    }

    /// Whether the mob stands next to the player, or on its tile.
    pub open spec fn mob_is_near(self, mob: GameMob) -> bool {
        is_adjacent(
            self.dynamic_map.player.position.0 - mob.position.0,
            self.dynamic_map.player.position.1 - mob.position.1,
        )
    }

    /// The direction that the mob faces after it has decided. A mob that
    /// does not act keeps its direction. A mob next to the player turns to
    /// it, any other in the direction of its step.
    pub open spec fn mob_facing(self, mob: GameMob) -> Direction {
        let dx = self.dynamic_map.player.position.0 - mob.position.0;
        let dy = self.dynamic_map.player.position.1 - mob.position.1;
        if !self.mob_is_active(mob) {
            mob.direction
        } else if is_adjacent(dx, dy) {
            match Direction::towards(dx, dy) {
                Some(direction) => direction,
                None => mob.direction,
            }
        } else {
            chase_direction(dx, dy)
        }
    }

    /// The mob after it has decided: turned, and where it was.
    pub open spec fn mob_turned(self, mob: GameMob) -> GameMob {
        GameMob { direction: self.mob_facing(mob), ..mob }
    }

    /// Whether the mob attacks in this turn.
    pub open spec fn mob_attacks(self, mob: GameMob) -> bool {
        self.mob_is_active(mob) && self.mob_is_near(mob)
    }

    /// The attack of the mob: the tile in front of it, its damage and its
    /// id.
    pub open spec fn mob_attack(self, mob: GameMob) -> (i32, i32, i32, i32) {
        let info = self.mob_turned(mob).attack_info();
        (info.0, info.1, info.2, mob.id)
    }

    /// The tile that the mob wants to step on.
    pub open spec fn mob_target(self, mob: GameMob) -> (i32, i32) {
        let direction = self.mob_facing(mob);
        ((mob.position.0 + direction.dx()) as i32, (mob.position.1 + direction.dy()) as i32)
    }

    /// Whether the mob proposes a step in this turn: it acts, is not next
    /// to the player, and the tile towards the player is floor.
    pub open spec fn mob_proposes(self, mob: GameMob) -> bool {
        &&& self.mob_is_active(mob)
        &&& !self.mob_is_near(mob)
        &&& self.static_map.is_floor(self.mob_target(mob).0 as int, self.mob_target(mob).1 as int)
    }

    /// The attacks of the first `count` mobs, in the order of the mobs.
    pub open spec fn planned_attacks(self, count: nat) -> Seq<(i32, i32, i32, i32)>
        decreases count,
    {
        if count == 0 {
            Seq::empty()
        } else {
            let before = self.planned_attacks((count - 1) as nat);
            let mob = self.dynamic_map.mob_list[count - 1];
            if self.mob_attacks(mob) {
                before.push(self.mob_attack(mob))
            } else {
                before
            }
        }
    }

    /// The steps that the first `count` mobs propose, in the order of the
    /// mobs.
    pub open spec fn proposed_moves(self, count: nat) -> Seq<ProposedMove>
        decreases count,
    {
        if count == 0 {
            Seq::empty()
        } else {
            let before = self.proposed_moves((count - 1) as nat);
            let mob = self.dynamic_map.mob_list[count - 1];
            if self.mob_proposes(mob) {
                before.push((mob.id, self.mob_target(mob)))
            } else {
                before
            }
        }
    }

    /// The mobs after each has decided: turned, and where they were.
    pub open spec fn turned_mobs(self) -> Seq<GameMob> {
        Seq::new(self.dynamic_map.mob_list.len(), |i: int| self.mob_turned(self.dynamic_map.mob_list[i]))
    }

    /// Whether the attacks of the mobs aim at tiles whose coordinates are
    /// within `i32`. They always do for a mob that does not stand on the
    /// player's own tile.
    pub open spec fn mob_decisions_fit(self) -> bool {
        forall|i: int|
            0 <= i < self.dynamic_map.mob_list.len() && self.mob_attacks(#[trigger] self.dynamic_map.mob_list[i])
                ==> self.mob_turned(self.dynamic_map.mob_list[i]).attack_fits()
    }

    /// The game after the mobs have decided and moved: every acting mob
    /// has turned, the attacks of the mobs next to the player wait to be
    /// carried out, and the proposed steps have been taken in the order of
    /// the mobs.
    pub open spec fn after_mob_decisions(self) -> GameState {
        let count = self.dynamic_map.mob_list.len();
        let steps = self.proposed_moves(count);
        GameState {
            dynamic_map: DynamicMapState {
                mob_list: after_steps(self.turned_mobs(), steps, steps.len()),
                ..self.dynamic_map
            },
            mob_attack_info: self.planned_attacks(count),
            ..self
        }
    }
}

/// Steps change nothing of a mob but where it stands: after any number of
/// proposed steps the same mobs are there, in the same order, each with
/// the id, the direction and the values that it had.
pub proof fn lemma_steps_only_move(mobs: Seq<GameMob>, steps: Seq<ProposedMove>, count: nat)
    ensures
        after_steps(mobs, steps, count).len() == mobs.len(),
        forall|i: int|
            0 <= i < mobs.len() ==> (#[trigger] after_steps(mobs, steps, count)[i]) == (GameMob {
                position: after_steps(mobs, steps, count)[i].position,
                ..mobs[i]
            }),
    decreases count,
{
    if count > 0 {
        lemma_steps_only_move(mobs, steps, (count - 1) as nat);
        let before = after_steps(mobs, steps, (count - 1) as nat);
        let step = steps[count - 1];
        lemma_mob_with_id_from(before, step.0, 0);
        assert forall|i: int| 0 <= i < mobs.len() implies (#[trigger] after_step(before, step)[i]) == (GameMob {
            position: after_step(before, step)[i].position,
            ..mobs[i]
        }) by {
            assert(before[i] == (GameMob { position: before[i].position, ..mobs[i] }));
        }
    }
}

/// `mob_with_id_from` gives an index at or behind `start` and no larger
/// than the number of mobs.
pub proof fn lemma_mob_with_id_from(mobs: Seq<GameMob>, id: i32, start: int)
    requires
        0 <= start <= mobs.len(),
    ensures
        start <= mob_with_id_from(mobs, id, start) <= mobs.len(),
    decreases mobs.len() - start,
{
    if start < mobs.len() && mobs[start].id != id {
        lemma_mob_with_id_from(mobs, id, start + 1);
    }
}

/// A mob next to the player, but not on its tile, aims at the player's
/// tile, whose coordinates are within `i32`.
pub proof fn lemma_near_mob_aims_at_player(state: GameState, mob: GameMob)
    requires
        state.mob_attacks(mob),
        state.dynamic_map.player.position != mob.position,
    ensures
        state.mob_turned(mob).attack_fits(),
        state.mob_attack(mob).0 == state.dynamic_map.player.position.0,
        state.mob_attack(mob).1 == state.dynamic_map.player.position.1,
        state.mob_attack(mob).2 == mob.attack,
        state.mob_attack(mob).3 == mob.id,
{
}

/// Whether another mob than those with the id `id` stands on `position`.
pub fn blocked_by_other(mobs: &Vec<GameMob>, id: i32, position: (i32, i32)) -> (blocked: bool)
    ensures
        blocked == is_blocked(mobs@, id, position),
{
    let mut j: usize = 0;
    while j < mobs.len()
        invariant
            j <= mobs.len(),
            forall|i: int| 0 <= i < j ==> !((#[trigger] mobs[i]).id != id && mobs[i].position == position),
        decreases mobs.len() - j,
    {
        if mobs[j].id != id && mobs[j].position.0 == position.0 && mobs[j].position.1 == position.1 {
            return true;
        }
        j = j + 1;
    }
    false
}

/// The index of the first mob with the id `id`, if there is one.
pub fn find_mob_with_id(mobs: &Vec<GameMob>, id: i32) -> (found: Option<usize>)
    ensures
        match found {
            Some(index) => index < mobs.len() && index == mob_with_id_from(mobs@, id, 0),
            None => mob_with_id_from(mobs@, id, 0) == mobs.len(),
        },
{
    let mut i: usize = 0;
    while i < mobs.len()
        invariant
            i <= mobs.len(),
            mob_with_id_from(mobs@, id, 0) == mob_with_id_from(mobs@, id, i as int),
        decreases mobs.len() - i,
    {
        if mobs[i].id == id {
            return Some(i);
        }
        i = i + 1;
    }
    None
}

/// Takes the proposed steps one after the other.
pub fn resolve_moves(mobs: &mut Vec<GameMob>, steps: &Vec<ProposedMove>)
    ensures
        final(mobs)@ == after_steps(old(mobs)@, steps@, steps.len() as nat),
{
    let mut k: usize = 0;
    while k < steps.len()
        invariant
            k <= steps.len(),
            mobs@ == after_steps(old(mobs)@, steps@, k as nat),
        decreases steps.len() - k,
    {
        let step = steps[k];
        if !blocked_by_other(mobs, step.0, step.1) {
            match find_mob_with_id(mobs, step.0) {
                Some(index) => {
                    let mut mob = mobs[index];
                    mob.position = step.1;
                    mobs[index] = mob;
                },
                None => {},
            }
        }
        k = k + 1;
    }
}

impl GameMaster {
    /// Whether `decideMobAction` can be called: every attack of a mob aims
    /// at a tile whose coordinates are within `i32`.
    pub fn can_decide_mob_action(&self) -> (fits: bool)
        ensures
            fits == self@.mob_decisions_fit(),
    {
        let player_position = self.dynamic_map_manager.player.position;
        let mut i: usize = 0;
        while i < self.dynamic_map_manager.mob_list.len()
            invariant
                i <= self.dynamic_map_manager.mob_list.len(),
                player_position == self@.dynamic_map.player.position,
                forall|j: int|
                    0 <= j < i && self@.mob_attacks(#[trigger] self@.dynamic_map.mob_list[j]) ==> self@.mob_turned(
                        self@.dynamic_map.mob_list[j],
                    ).attack_fits(),
            decreases self.dynamic_map_manager.mob_list.len() - i,
        {
            let mob = self.dynamic_map_manager.mob_list[i];
            // A mob next to the player aims at the player's tile. Only a mob
            // on the player's own tile keeps its direction.
            if mob.position.0 == player_position.0 && mob.position.1 == player_position.1 {
                if self.static_map_manager.in_same_room(player_position, mob.position) && !mob.can_attack() {
                    assert(self@.mob_attacks(self@.dynamic_map.mob_list[i as int]));
                    assert(self@.mob_turned(mob) == mob);
                    return false;
                }
            } else {
                proof {
                    if self@.mob_attacks(mob) {
                        lemma_near_mob_aims_at_player(self@, mob);
                    }
                }
            }
            i = i + 1;
        }
        true
    }

    /// Lets every mob decide and move.
    #[allow(non_snake_case)]
    pub fn decideMobAction(&mut self)
        requires
            old(self)@.mob_decisions_fit(),
        ensures
            final(self)@ == old(self)@.after_mob_decisions(),
    {
        let mut steps: Vec<ProposedMove> = Vec::new();
        self.mob_attack_info.clear();
        let ghost start = old(self)@;
        let player_position = self.dynamic_map_manager.player.position;
        let count = self.dynamic_map_manager.mob_list.len();
        let mut i: usize = 0;
        while i < count
            invariant
                i <= count,
                count == start.dynamic_map.mob_list.len(),
                start.mob_decisions_fit(),
                player_position == start.dynamic_map.player.position,
                self.dynamic_map_manager.mob_list.len() == count,
                forall|j: int|
                    0 <= j < i ==> (#[trigger] self.dynamic_map_manager.mob_list[j]) == start.mob_turned(
                        start.dynamic_map.mob_list[j],
                    ),
                forall|j: int|
                    i <= j < count ==> (#[trigger] self.dynamic_map_manager.mob_list[j])
                        == start.dynamic_map.mob_list[j],
                steps@ == start.proposed_moves(i as nat),
                self.mob_attack_info@ == start.planned_attacks(i as nat),
                self@ == (GameState {
                    dynamic_map: DynamicMapState {
                        mob_list: self.dynamic_map_manager.mob_list@,
                        ..start.dynamic_map
                    },
                    mob_attack_info: self.mob_attack_info@,
                    ..start
                }),
            decreases count - i,
        {
            let mut mob = self.dynamic_map_manager.mob_list[i];
            let ghost before = mob;
            assert(before == start.dynamic_map.mob_list[i as int]);
            if self.static_map_manager.in_same_room(player_position, mob.position) {
                let dx: i64 = player_position.0 as i64 - mob.position.0 as i64;
                let dy: i64 = player_position.1 as i64 - mob.position.1 as i64;
                let abs_dx: i64 = if dx < 0 { -dx } else { dx };
                let abs_dy: i64 = if dy < 0 { -dy } else { dy };
                if abs_dx <= 1 && abs_dy <= 1 {
                    if dx > 0 {
                        if dy > 0 {
                            mob.direction = Direction::DownRight;
                        } else if dy < 0 {
                            mob.direction = Direction::UpRight;
                        } else {
                            mob.direction = Direction::Right;
                        }
                    } else if dx < 0 {
                        if dy > 0 {
                            mob.direction = Direction::DownLeft;
                        } else if dy < 0 {
                            mob.direction = Direction::UpLeft;
                        } else {
                            mob.direction = Direction::Left;
                        }
                    } else {
                        if dy > 0 {
                            mob.direction = Direction::Down;
                        } else if dy < 0 {
                            mob.direction = Direction::Up;
                        }
                    }
                    assert(mob == start.mob_turned(before));
                    let mut attack_info: Vec<(i32, i32, i32)> = Vec::new();
                    mob.attack(&mut attack_info);
                    let info = attack_info[0];
                    self.mob_attack_info.push((info.0, info.1, info.2, mob.id));
                } else {
                    let next_position;
                    if abs_dx > abs_dy {
                        if dx > 0 {
                            next_position = (mob.position.0 + 1, mob.position.1);
                            mob.direction = Direction::Right;
                        } else {
                            next_position = (mob.position.0 - 1, mob.position.1);
                            mob.direction = Direction::Left;
                        }
                    } else {
                        if dy > 0 {
                            next_position = (mob.position.0, mob.position.1 + 1);
                            mob.direction = Direction::Down;
                        } else {
                            next_position = (mob.position.0, mob.position.1 - 1);
                            mob.direction = Direction::Up;
                        }
                    }
                    assert(mob == start.mob_turned(before));
                    assert(next_position == start.mob_target(before));
                    if self.static_map_manager.is_floor(next_position.0, next_position.1) {
                        steps.push((mob.id, next_position));
                    }
                }
                self.dynamic_map_manager.mob_list[i] = mob;
            }
            i = i + 1;
        }
        assert(self.dynamic_map_manager.mob_list@ =~= start.turned_mobs());
        resolve_moves(&mut self.dynamic_map_manager.mob_list, &steps);
    }
}

} // verus!
