//! Limits under which a turn is sure to stay within the range of `i32`.
//!
//! The functions of a turn ask of their callers that no sum leaves the range
//! of `i32`. A game whose values and lists are within the limits of this
//! module cannot overflow in one turn, whatever is drawn, so a turn of such
//! a game can run without being tried first.

use vstd::prelude::*;
use crate::game_master::GameMaster;
use crate::game_master::GameState;
use crate::game_master::mob_index_at;
use crate::game_master::lemma_mob_index_from;
use crate::mob::GameMob;
use crate::mob::level_fits;
use crate::mob_ai::after_step;
use crate::mob_ai::after_steps;
use crate::mob_ai::lemma_mob_with_id_from;
use crate::mob_ai::ProposedMove;
use crate::player::PlayerState;

verus! {

/// The largest value, in either direction, of a moderate game.
pub const VALUE_LIMIT: i32 = 1_000_000;

/// The largest number of mobs and of waiting attacks of a moderate game.
pub const LIST_LIMIT: usize = 1_000;

/// `count` times `VALUE_LIMIT`.
pub open spec fn times_limit(count: int) -> int {
    1_000_000 * count
}

/// Whether `value` is no farther from zero than `limit`.
pub open spec fn is_within(value: int, limit: int) -> bool {
    -limit <= value <= limit
}

/// Whether the position, the attack and the reward of the mob are within
/// `VALUE_LIMIT` and a little more, and its hit points within `hp_limit`.
pub open spec fn mob_is_within(mob: GameMob, hp_limit: int) -> bool {
    &&& is_within(mob.position.0 as int, VALUE_LIMIT + 1)
    &&& is_within(mob.position.1 as int, VALUE_LIMIT + 1)
    &&& is_within(mob.hp as int, hp_limit)
    &&& is_within(mob.attack as int, VALUE_LIMIT as int)
    &&& is_within(mob.exp_point as int, VALUE_LIMIT as int)
}

/// Whether there are no more mobs than `LIST_LIMIT`, each of them within
/// the limits.
pub open spec fn mobs_are_within(mobs: Seq<GameMob>, hp_limit: int) -> bool {
    &&& mobs.len() <= LIST_LIMIT
    &&& forall|i: int| 0 <= i < mobs.len() ==> mob_is_within(#[trigger] mobs[i], hp_limit)
}

/// Whether the player's position, level and combat values are within
/// `VALUE_LIMIT` and a little more, and its hit points and experience
/// within `limit`.
pub open spec fn player_is_within(player: PlayerState, limit: int) -> bool {
    &&& is_within(player.position.0 as int, VALUE_LIMIT as int)
    &&& is_within(player.position.1 as int, VALUE_LIMIT as int)
    &&& is_within(player.max_hp as int, VALUE_LIMIT + 10)
    &&& is_within(player.attack as int, VALUE_LIMIT + 10)
    &&& is_within(player.defense as int, VALUE_LIMIT + 10)
    &&& is_within(player.level as int, VALUE_LIMIT + 10)
    &&& is_within(player.hp as int, limit)
    &&& is_within(player.exp_point as int, limit)
}

impl GameState {
    /// Whether the player and the mobs are within the limits, with hit
    /// points and experience within `limit`, and the id of the next item
    /// within `id_limit`.
    pub open spec fn stays_within(self, limit: int, id_limit: int) -> bool {
        &&& player_is_within(self.dynamic_map.player, limit)
        &&& mobs_are_within(self.dynamic_map.mob_list, limit)
        &&& is_within(self.current_item_id_max as int, id_limit)
    }

    /// Whether the game is moderate: every value of the player and of the
    /// mobs, the damage of every waiting attack of the player and the id of
    /// the next item are within `VALUE_LIMIT`, and there are no more mobs
    /// and no more waiting attacks than `LIST_LIMIT`.
    pub open spec fn is_moderate(self) -> bool {
        let player = self.dynamic_map.player;
        &&& is_within(player.position.0 as int, VALUE_LIMIT as int)
        &&& is_within(player.position.1 as int, VALUE_LIMIT as int)
        &&& is_within(player.max_hp as int, VALUE_LIMIT as int)
        &&& is_within(player.attack as int, VALUE_LIMIT as int)
        &&& is_within(player.defense as int, VALUE_LIMIT as int)
        &&& is_within(player.level as int, VALUE_LIMIT as int)
        &&& is_within(player.hp as int, VALUE_LIMIT as int)
        &&& is_within(player.exp_point as int, VALUE_LIMIT as int)
        &&& self.dynamic_map.mob_list.len() <= LIST_LIMIT
        &&& forall|i: int|
            0 <= i < self.dynamic_map.mob_list.len() ==> {
                let mob = #[trigger] self.dynamic_map.mob_list[i];
                &&& is_within(mob.position.0 as int, VALUE_LIMIT as int)
                &&& is_within(mob.position.1 as int, VALUE_LIMIT as int)
                &&& is_within(mob.hp as int, VALUE_LIMIT as int)
                &&& is_within(mob.attack as int, VALUE_LIMIT as int)
                &&& is_within(mob.exp_point as int, VALUE_LIMIT as int)
            }
        &&& self.player_attack_info.len() <= LIST_LIMIT
        &&& forall|k: int|
            0 <= k < self.player_attack_info.len() ==> is_within(
                (#[trigger] self.player_attack_info[k]).2 as int,
                VALUE_LIMIT as int,
            )
        &&& is_within(self.current_item_id_max as int, VALUE_LIMIT as int)
    }
}

/// One attack of the player on a game within limits stays within `i32` and
/// leaves the game within limits that are wider by one `VALUE_LIMIT`.
proof fn lemma_hit_stays_within(state: GameState, attack: (i32, i32, i32), draws: Seq<u32>, hits: int)
    requires
        0 <= hits < LIST_LIMIT,
        state.stays_within(times_limit(1 + hits), VALUE_LIMIT + hits),
        is_within(attack.2 as int, VALUE_LIMIT as int),
    ensures
        state.hit_fits(attack, draws),
        state.after_hit(attack, draws).stays_within(times_limit(2 + hits), VALUE_LIMIT + hits + 1),
{
    let mobs = state.dynamic_map.mob_list;
    lemma_mob_index_from(mobs, (attack.0, attack.1), 0);
    if state.hits_mob(attack) {
        let index = mob_index_at(mobs, (attack.0, attack.1));
        let mob = mobs[index];
        assert(mob_is_within(mob, times_limit(1 + hits)));
        let hurt = GameMob { hp: (mob.hp - attack.2) as i32, ..mob };
        let after = state.after_hit(attack, draws).dynamic_map.mob_list;
        assert forall|i: int| 0 <= i < after.len() implies mob_is_within(
            #[trigger] after[i],
            times_limit(2 + hits),
        ) by {
            if hurt.hp <= 0 {
                if i < index {
                    assert(after[i] == mobs[i]);
                } else {
                    assert(after[i] == mobs[i + 1]);
                }
            } else {
                if i != index {
                    assert(after[i] == mobs[i]);
                }
            }
        }
    } else {
        assert forall|i: int| 0 <= i < mobs.len() implies mob_is_within(
            #[trigger] mobs[i],
            times_limit(2 + hits),
        ) by {
            assert(mob_is_within(mobs[i], times_limit(1 + hits)));
        }
    }
}

/// The attacks of the player on a moderate game stay within `i32`, and
/// after `count` of them the game is within limits that are wider by
/// `count` times `VALUE_LIMIT`.
proof fn lemma_hits_stay_within(state: GameState, attacks: Seq<(i32, i32, i32)>, draws: Seq<u32>, count: nat)
    requires
        state.stays_within(VALUE_LIMIT as int, VALUE_LIMIT as int),
        count <= attacks.len() <= LIST_LIMIT,
        forall|k: int| 0 <= k < attacks.len() ==> is_within((#[trigger] attacks[k]).2 as int, VALUE_LIMIT as int),
    ensures
        state.hit_progress(attacks, draws, count).state.stays_within(times_limit(1 + count as int), VALUE_LIMIT + count),
        forall|k: nat|
            k < count ==> (#[trigger] state.hit_progress(attacks, draws, k)).state.hit_fits(
                attacks[k as int],
                state.hit_progress(attacks, draws, k).draws,
            ),
    decreases count,
{
    if count > 0 {
        let before = state.hit_progress(attacks, draws, (count - 1) as nat);
        lemma_hits_stay_within(state, attacks, draws, (count - 1) as nat);
        lemma_hit_stays_within(before.state, attacks[count - 1], before.draws, count - 1);
    }
}

/// Proposed steps that lead onto tiles within `VALUE_LIMIT` and one more
/// leave mobs within the limits within the limits.
proof fn lemma_steps_stay_within(mobs: Seq<GameMob>, steps: Seq<ProposedMove>, count: nat, hp_limit: int)
    requires
        mobs_are_within(mobs, hp_limit),
        count <= steps.len(),
        forall|k: int|
            0 <= k < steps.len() ==> is_within((#[trigger] steps[k]).1.0 as int, VALUE_LIMIT + 1) && is_within(
                steps[k].1.1 as int,
                VALUE_LIMIT + 1,
            ),
    ensures
        mobs_are_within(after_steps(mobs, steps, count), hp_limit),
        forall|i: int|
            0 <= i < mobs.len() ==> (#[trigger] after_steps(mobs, steps, count)[i]).attack == mobs[i].attack,
        after_steps(mobs, steps, count).len() == mobs.len(),
    decreases count,
{
    if count > 0 {
        lemma_steps_stay_within(mobs, steps, (count - 1) as nat, hp_limit);
        let before = after_steps(mobs, steps, (count - 1) as nat);
        let step = steps[count - 1];
        let after = after_step(before, step);
        lemma_mob_with_id_from(before, step.0, 0);
        assert(is_within(step.1.0 as int, VALUE_LIMIT + 1) && is_within(step.1.1 as int, VALUE_LIMIT + 1));
        assert(after.len() == before.len());
        assert forall|i: int| 0 <= i < after.len() implies mob_is_within(#[trigger] after[i], hp_limit)
            && after[i].attack == mobs[i].attack by {
            assert(mob_is_within(before[i], hp_limit));
            assert(before[i].attack == mobs[i].attack);
        }
    }
}

/// The steps that the mobs of a game within limits propose lead onto tiles
/// within `VALUE_LIMIT` and one more.
proof fn lemma_proposals_within(state: GameState, count: nat, hp_limit: int)
    requires
        mobs_are_within(state.dynamic_map.mob_list, hp_limit),
        forall|i: int|
            0 <= i < state.dynamic_map.mob_list.len() ==> is_within(
                (#[trigger] state.dynamic_map.mob_list[i]).position.0 as int,
                VALUE_LIMIT as int,
            ) && is_within(state.dynamic_map.mob_list[i].position.1 as int, VALUE_LIMIT as int),
        count <= state.dynamic_map.mob_list.len(),
    ensures
        forall|k: int|
            0 <= k < state.proposed_moves(count).len() ==> is_within(
                (#[trigger] state.proposed_moves(count)[k]).1.0 as int,
                VALUE_LIMIT + 1,
            ) && is_within(state.proposed_moves(count)[k].1.1 as int, VALUE_LIMIT + 1),
        state.planned_attacks(count).len() <= count,
        forall|k: int|
            0 <= k < state.planned_attacks(count).len() ==> is_within(
                (#[trigger] state.planned_attacks(count)[k]).2 as int,
                VALUE_LIMIT as int,
            ),
    decreases count,
{
    if count > 0 {
        lemma_proposals_within(state, (count - 1) as nat, hp_limit);
        let mob = state.dynamic_map.mob_list[count - 1];
        assert(mob_is_within(mob, hp_limit));
        assert(is_within(mob.position.0 as int, VALUE_LIMIT as int));
        assert(is_within(mob.position.1 as int, VALUE_LIMIT as int));
        let target = state.mob_target(mob);
        assert(-1 <= state.mob_facing(mob).dx() <= 1 && -1 <= state.mob_facing(mob).dy() <= 1);
        assert(is_within(target.0 as int, VALUE_LIMIT + 1) && is_within(target.1 as int, VALUE_LIMIT + 1));
        let earlier = state.proposed_moves((count - 1) as nat);
        let steps = state.proposed_moves(count);
        assert forall|k: int| 0 <= k < steps.len() implies is_within((#[trigger] steps[k]).1.0 as int, VALUE_LIMIT + 1)
            && is_within(steps[k].1.1 as int, VALUE_LIMIT + 1) by {
            if k < earlier.len() {
                assert(steps[k] == earlier[k]);
            } else {
                assert(steps[k] == (mob.id, target));
            }
        }
        let attacks_before = state.planned_attacks((count - 1) as nat);
        let attacks = state.planned_attacks(count);
        assert forall|k: int| 0 <= k < attacks.len() implies is_within(
            (#[trigger] attacks[k]).2 as int,
            VALUE_LIMIT as int,
        ) by {
            if k < attacks_before.len() {
                assert(attacks[k] == attacks_before[k]);
            } else {
                assert(attacks[k] == state.mob_attack(mob));
            }
        }
    }
}

/// The attacks of the mobs, each with a damage within `VALUE_LIMIT`, on a
/// player with hit points within `limit` stay within `i32`.
proof fn lemma_mob_hits_stay_within(
    state: GameState,
    attacks: Seq<(i32, i32, i32, i32)>,
    count: nat,
    limit: int,
)
    requires
        is_within(state.dynamic_map.player.hp as int, limit),
        0 <= limit,
        limit + times_limit(LIST_LIMIT as int) <= i32::MAX,
        count <= attacks.len() <= LIST_LIMIT,
        forall|k: int| 0 <= k < attacks.len() ==> is_within((#[trigger] attacks[k]).2 as int, VALUE_LIMIT as int),
    ensures
        is_within(
            state.mob_hit_progress(attacks, count).dynamic_map.player.hp as int,
            limit + times_limit(count as int),
        ),
        state.mob_hit_progress(attacks, count).dynamic_map.player.position == state.dynamic_map.player.position,
    decreases count,
{
    if count > 0 {
        lemma_mob_hits_stay_within(state, attacks, (count - 1) as nat, limit);
        assert(is_within(attacks[count - 1].2 as int, VALUE_LIMIT as int));
    }
}

/// A turn of a moderate game stays within the range of `i32`, whatever is
/// drawn.
pub proof fn lemma_moderate_turn_fits(state: GameState, draws: Seq<u32>)
    requires
        state.is_moderate(),
    ensures
        state.process_fits(draws),
{
    let attacks = state.player_attack_info;
    let start = state.before_hits();
    let count = attacks.len();
    assert(start.stays_within(VALUE_LIMIT as int, VALUE_LIMIT as int));
    lemma_hits_stay_within(start, attacks, draws, count);
    let hit = state.after_player_attacks(draws);
    let wide = times_limit(1 + LIST_LIMIT as int);
    assert(hit.stays_within(wide, VALUE_LIMIT + LIST_LIMIT)) by {
        let done = start.hit_progress(attacks, draws, count).state;
        assert(hit.dynamic_map == done.dynamic_map);
        assert forall|i: int| 0 <= i < done.dynamic_map.mob_list.len() implies mob_is_within(
            #[trigger] done.dynamic_map.mob_list[i],
            wide,
        ) by {
            assert(mob_is_within(done.dynamic_map.mob_list[i], times_limit(1 + count as int)));
        }
    }
    assert(state.player_attacks_fit(draws));
    // The player of a moderate game has level and combat values within
    // `VALUE_LIMIT`, which the attacks do not change.
    lemma_hits_keep_player(start, attacks, draws, count);
    let checked = state.turn_after_level_check(draws);
    assert(hit.dynamic_map.player.level_up_fits());
    assert(checked.dynamic_map.mob_list == hit.dynamic_map.mob_list);
    lemma_hits_keep_positions(start, attacks, draws, count);
    lemma_proposals_within(checked, checked.dynamic_map.mob_list.len(), wide);
    assert(checked.mob_decisions_fit()) by {
        assert forall|i: int|
            0 <= i < checked.dynamic_map.mob_list.len() && checked.mob_attacks(
                #[trigger] checked.dynamic_map.mob_list[i],
            ) implies checked.mob_turned(checked.dynamic_map.mob_list[i]).attack_fits() by {
            let mob = checked.dynamic_map.mob_list[i];
            assert(is_within(mob.position.0 as int, VALUE_LIMIT as int));
        }
    }
    let decided = state.turn_after_mob_decisions(draws);
    let mobs = checked.dynamic_map.mob_list.len();
    assert(decided.mob_attack_info.len() <= LIST_LIMIT);
    assert(is_within(decided.dynamic_map.player.hp as int, wide + 10));
    lemma_mob_hits_stay_within(decided, decided.mob_attack_info, 0, wide + 10);
    assert(decided.mob_attacks_fit()) by {
        assert forall|k: nat| k < decided.mob_attack_info.len() implies {
            let before = #[trigger] decided.mob_hit_progress(decided.mob_attack_info, k);
            before.hits_player(decided.mob_attack_info[k as int]) ==> i32::MIN <= before.dynamic_map.player.hp
                - decided.mob_attack_info[k as int].2 <= i32::MAX
        } by {
            lemma_mob_hits_stay_within(decided, decided.mob_attack_info, k, wide + 10);
            assert(is_within(decided.mob_attack_info[k as int].2 as int, VALUE_LIMIT as int));
        }
    }
}

/// The attacks of the player change nothing of the player but its
/// experience.
proof fn lemma_hits_keep_player(state: GameState, attacks: Seq<(i32, i32, i32)>, draws: Seq<u32>, count: nat)
    ensures
        state.hit_progress(attacks, draws, count).state.dynamic_map.player == (PlayerState {
            exp_point: state.hit_progress(attacks, draws, count).state.dynamic_map.player.exp_point,
            ..state.dynamic_map.player
        }),
    decreases count,
{
    if count > 0 {
        lemma_hits_keep_player(state, attacks, draws, (count - 1) as nat);
    }
}

/// The attacks of the player move no mob: every mob that is left stands
/// within `VALUE_LIMIT` if every mob did before.
proof fn lemma_hits_keep_positions(state: GameState, attacks: Seq<(i32, i32, i32)>, draws: Seq<u32>, count: nat)
    requires
        forall|i: int|
            0 <= i < state.dynamic_map.mob_list.len() ==> is_within(
                (#[trigger] state.dynamic_map.mob_list[i]).position.0 as int,
                VALUE_LIMIT as int,
            ) && is_within(state.dynamic_map.mob_list[i].position.1 as int, VALUE_LIMIT as int),
    ensures
        forall|i: int|
            0 <= i < state.hit_progress(attacks, draws, count).state.dynamic_map.mob_list.len() ==> is_within(
                (#[trigger] state.hit_progress(attacks, draws, count).state.dynamic_map.mob_list[i]).position.0 as int,
                VALUE_LIMIT as int,
            ) && is_within(
                state.hit_progress(attacks, draws, count).state.dynamic_map.mob_list[i].position.1 as int,
                VALUE_LIMIT as int,
            ),
    decreases count,
{
    if count > 0 {
        lemma_hits_keep_positions(state, attacks, draws, (count - 1) as nat);
        let before = state.hit_progress(attacks, draws, (count - 1) as nat).state;
        let attack = attacks[count - 1];
        let mobs = before.dynamic_map.mob_list;
        let after = before.after_hit(attack, state.hit_progress(attacks, draws, (count - 1) as nat).draws).dynamic_map.mob_list;
        lemma_mob_index_from(mobs, (attack.0, attack.1), 0);
        if before.hits_mob(attack) {
            let index = mob_index_at(mobs, (attack.0, attack.1));
            assert forall|i: int| 0 <= i < after.len() implies is_within(
                (#[trigger] after[i]).position.0 as int,
                VALUE_LIMIT as int,
            ) && is_within(after[i].position.1 as int, VALUE_LIMIT as int) by {
                if after.len() < mobs.len() {
                    if i < index {
                        assert(after[i] == mobs[i]);
                    } else {
                        assert(after[i] == mobs[i + 1]);
                    }
                } else {
                    if i != index {
                        assert(after[i] == mobs[i]);
                    } else {
                        assert(after[i].position == mobs[i].position);
                    }
                }
            }
        }
    }
}

/// Whether `value` is no farther from zero than `VALUE_LIMIT`.
fn value_is_moderate(value: i32) -> (moderate: bool)
    ensures
        moderate == is_within(value as int, VALUE_LIMIT as int),
{
    -VALUE_LIMIT <= value && value <= VALUE_LIMIT
}

impl GameMaster {
    /// Whether the game is moderate, so that a turn can run.
    pub fn is_moderate(&self) -> (moderate: bool)
        ensures
            moderate == self@.is_moderate(),
    {
        let player = &self.dynamic_map_manager.player;
        if !(value_is_moderate(player.position.0) && value_is_moderate(player.position.1) && value_is_moderate(
            player.max_hp,
        ) && value_is_moderate(player.attack) && value_is_moderate(player.defense) && value_is_moderate(
            player.level,
        ) && value_is_moderate(player.hp) && value_is_moderate(player.exp_point) && value_is_moderate(
            self.current_item_id_max,
        )) {
            return false;
        }
        if self.dynamic_map_manager.mob_list.len() > LIST_LIMIT || self.player_attack_info.len() > LIST_LIMIT {
            return false;
        }
        let mut i: usize = 0;
        while i < self.dynamic_map_manager.mob_list.len()
            invariant
                i <= self.dynamic_map_manager.mob_list.len(),
                forall|j: int|
                    0 <= j < i ==> {
                        let mob = #[trigger] self.dynamic_map_manager.mob_list[j];
                        &&& is_within(mob.position.0 as int, VALUE_LIMIT as int)
                        &&& is_within(mob.position.1 as int, VALUE_LIMIT as int)
                        &&& is_within(mob.hp as int, VALUE_LIMIT as int)
                        &&& is_within(mob.attack as int, VALUE_LIMIT as int)
                        &&& is_within(mob.exp_point as int, VALUE_LIMIT as int)
                    },
            decreases self.dynamic_map_manager.mob_list.len() - i,
        {
            let mob = &self.dynamic_map_manager.mob_list[i];
            if !(value_is_moderate(mob.position.0) && value_is_moderate(mob.position.1) && value_is_moderate(mob.hp)
                && value_is_moderate(mob.attack) && value_is_moderate(mob.exp_point)) {
                return false;
            }
            i = i + 1;
        }
        let mut k: usize = 0;
        while k < self.player_attack_info.len()
            invariant
                k <= self.player_attack_info.len(),
                forall|j: int|
                    0 <= j < k ==> is_within((#[trigger] self.player_attack_info[j]).2 as int, VALUE_LIMIT as int),
            decreases self.player_attack_info.len() - k,
        {
            if !value_is_moderate(self.player_attack_info[k].2) {
                return false;
            }
            k = k + 1;
        }
        true
    }

    /// Whether a level of the given size can be started: the size is not
    /// negative, the number of tiles is within `i32`, and so are the
    /// values of a mob of the current level if any is to be placed.
    pub fn can_initialize_level(&self, width: i32, height: i32) -> (fits: bool)
        ensures
            fits == (0 <= width && 0 <= height && width * height <= i32::MAX && (self.initial_mob_count > 0
                ==> level_fits(self.current_level))),
            fits ==> forall|draws: Seq<u32>| self@.initialize_level_fits(width, height, draws),
    {
        if width < 0 || height < 0 {
            return false;
        }
        assert(width * height <= 0x7fff_ffff * 0x7fff_ffff) by (nonlinear_arith)
            requires
                0 <= width <= 0x7fff_ffff,
                0 <= height <= 0x7fff_ffff,
        ;
        assert(0 <= width * height) by (nonlinear_arith)
            requires
                0 <= width,
                0 <= height,
        ;
        let tiles: i64 = width as i64 * height as i64;
        if tiles > i32::MAX as i64 {
            return false;
        }
        let level = self.current_level;
        let fits = self.initial_mob_count <= 0 || (-214748364 <= level && level <= 214748364);
        proof {
            if fits {
                assert forall|draws: Seq<u32>| self@.initialize_level_fits(width, height, draws) by {
                    let fresh = self@.on_new_level(width, height, draws);
                    let later = crate::random::rest_draws(
                        draws,
                        crate::map_generator::dungeon_draws(width, height, draws),
                    );
                    crate::level_init::lemma_scattered_bounded(
                        fresh.static_map,
                        fresh.initial_mob_count as int,
                        fresh.item_scatter(later).draws,
                    );
                }
            }
        }
        fits
    }
}

} // verus!
