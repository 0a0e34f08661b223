//! Carrying out attacks: those of the player on the mobs, and those of the
//! mobs on the player.

use vstd::prelude::*;
use crate::dynamic_map::DynamicMapState;
use crate::game_master::GameMaster;
use crate::game_master::GameState;
use crate::game_master::Message;
use crate::game_master::find_mob_at;
use crate::game_master::mob_index_at;
use crate::item::DroppedItem;
use crate::item::GameItem;
use crate::item::HealthPotion;
use crate::mob::GameMob;
use crate::player::PlayerState;
use crate::random::RandomSource;
use crate::random::first_draw;
use crate::random::rest_draws;
use crate::random::takes_at_most;
use crate::random::lemma_takes_at_most_twice;

verus! {

/// What the potion heals that a defeated mob leaves behind.
pub const DROPPED_HEAL_AMOUNT: i32 = 10;

/// Whether a mob that is defeated with this draw leaves an item, where the
/// chance for that is `probability` percent.
pub open spec fn drops_item(probability: u32, draw: u32) -> bool {
    draw % 100 < probability
}

/// The potion that a defeated mob leaves on `position`.
pub open spec fn dropped_potion(id: i32, position: (i32, i32)) -> DroppedItem {
    DroppedItem {
        id,
        position,
        item: GameItem::HealthPotion(HealthPotion { heal_amount: DROPPED_HEAL_AMOUNT }),
    }
}

/// How far the attacks of the player have been carried out.
pub struct HitProgress {
    /// The game after the attacks so far.
    pub state: GameState,
    /// The draws that are left.
    pub draws: Seq<u32>,
    /// Whether no attack has hit a mob so far.
    pub fumbled: bool,
}

impl GameState {
    /// Whether the attack hits a mob: one stands on its tile.
    pub open spec fn hits_mob(self, attack: (i32, i32, i32)) -> bool {
        mob_index_at(self.dynamic_map.mob_list, (attack.0, attack.1)) < self.dynamic_map.mob_list.len()
    }

    /// The first mob on the tile of the attack.
    pub open spec fn mob_hit(self, attack: (i32, i32, i32)) -> GameMob {
        self.dynamic_map.mob_list[mob_index_at(self.dynamic_map.mob_list, (attack.0, attack.1))]
    }

    /// Whether carrying out the attack stays within the range of `i32`:
    /// the hit points that the mob keeps and, where it is defeated, the
    /// experience of the player and the id of the next item.
    pub open spec fn hit_fits(self, attack: (i32, i32, i32), draws: Seq<u32>) -> bool {
        self.hits_mob(attack) ==> {
            let mob = self.mob_hit(attack);
            &&& i32::MIN <= mob.hp - attack.2 <= i32::MAX
            &&& mob.hp - attack.2 <= 0 ==> {
                &&& i32::MIN <= self.dynamic_map.player.exp_point + mob.exp_point <= i32::MAX
                &&& drops_item(self.mob_drop_item_probability, first_draw(draws)) ==> self.current_item_id_max
                    < i32::MAX
            }
        }
    }

    /// The game after a mob was defeated by an attack: the mob is gone and
    /// its id noted, the player has its experience, and if the draw says
    /// so a potion lies where it stood.
    pub open spec fn after_defeat(self, index: int, draw: u32) -> GameState {
        let mob = self.dynamic_map.mob_list[index];
        let drops = drops_item(self.mob_drop_item_probability, draw);
        let player = self.dynamic_map.player;
        GameState {
            dynamic_map: DynamicMapState {
                player: PlayerState { exp_point: (player.exp_point + mob.exp_point) as i32, ..player },
                item_list: if drops {
                    self.dynamic_map.item_list.push(dropped_potion(self.current_item_id_max, mob.position))
                } else {
                    self.dynamic_map.item_list
                },
                mob_list: self.dynamic_map.mob_list.remove(index),
                defeated_mob_id: self.dynamic_map.defeated_mob_id.push(mob.id),
                ..self.dynamic_map
            },
            current_item_id_max: if drops {
                (self.current_item_id_max + 1) as i32
            } else {
                self.current_item_id_max
            },
            dropped_item_added_ids: if drops {
                self.dropped_item_added_ids.push(self.current_item_id_max)
            } else {
                self.dropped_item_added_ids
            },
            message: self.message.push(Message::MobDefeated { id: mob.id }),
            ..self
        }
    }

    /// The game after one attack of the player. An attack on a tile
    /// without a mob changes nothing. The first mob on the tile loses
    /// `damage` hit points, and is defeated if none are left.
    pub open spec fn after_hit(self, attack: (i32, i32, i32), draws: Seq<u32>) -> GameState {
        if !self.hits_mob(attack) {
            self
        } else {
            let index = mob_index_at(self.dynamic_map.mob_list, (attack.0, attack.1));
            let mob = self.dynamic_map.mob_list[index];
            let hurt = GameMob { hp: (mob.hp - attack.2) as i32, ..mob };
            let noted = GameState {
                dynamic_map: DynamicMapState {
                    mob_list: self.dynamic_map.mob_list.update(index, hurt),
                    ..self.dynamic_map
                },
                message: self.message.push(Message::MobDamaged { id: mob.id, damage: attack.2 }),
                ..self
            };
            if hurt.hp <= 0 {
                noted.after_defeat(index, first_draw(draws))
            } else {
                noted
            }
        }
    }

    /// The draws that are left after one attack of the player: a defeat
    /// takes one.
    pub open spec fn draws_after_hit(self, attack: (i32, i32, i32), draws: Seq<u32>) -> Seq<u32> {
        if self.hits_mob(attack) && self.mob_hit(attack).hp - attack.2 <= 0 {
            rest_draws(draws, 1)
        } else {
            draws
        }
    }

    /// The state in which the first `count` attacks of `attacks` have been
    /// carried out, one after the other.
    pub open spec fn hit_progress(self, attacks: Seq<(i32, i32, i32)>, draws: Seq<u32>, count: nat) -> HitProgress
        decreases count,
    {
        if count == 0 {
            HitProgress { state: self, draws, fumbled: true }
        } else {
            let before = self.hit_progress(attacks, draws, (count - 1) as nat);
            let attack = attacks[count - 1];
            HitProgress {
                state: before.state.after_hit(attack, before.draws),
                draws: before.state.draws_after_hit(attack, before.draws),
                fumbled: before.fumbled && !before.state.hits_mob(attack),
            }
        }
    }

    /// The state from which the attacks of a turn are carried out: no mob
    /// has been defeated in this turn yet.
    pub open spec fn before_hits(self) -> GameState {
        GameState { dynamic_map: DynamicMapState { defeated_mob_id: Seq::empty(), ..self.dynamic_map }, ..self }
    }

    /// Whether carrying out the attacks of the player stays within the
    /// range of `i32`.
    pub open spec fn player_attacks_fit(self, draws: Seq<u32>) -> bool {
        forall|k: nat|
            k < self.player_attack_info.len() ==> (#[trigger] self.before_hits().hit_progress(
                self.player_attack_info,
                draws,
                k,
            )).state.hit_fits(
                self.player_attack_info[k as int],
                self.before_hits().hit_progress(self.player_attack_info, draws, k).draws,
            )
    }

    /// The game after the attacks of the player have been carried out. If
    /// there was an attack and none hit a mob, the player is told so. No
    /// attack is left waiting.
    pub open spec fn after_player_attacks(self, draws: Seq<u32>) -> GameState {
        let done = self.before_hits().hit_progress(self.player_attack_info, draws, self.player_attack_info.len());
        let told = if done.fumbled && self.player_attack_info.len() > 0 {
            done.state.with_message(Message::AttackFumbled)
        } else {
            done.state
        };
        GameState { player_attack_info: Seq::empty(), ..told }
    }

    /// The draws that are left after the attacks of the player.
    pub open spec fn draws_after_player_attacks(self, draws: Seq<u32>) -> Seq<u32> {
        self.before_hits().hit_progress(self.player_attack_info, draws, self.player_attack_info.len()).draws
    }

    /// Whether the attack of a mob hits the player: it is aimed at the
    /// player's tile.
    pub open spec fn hits_player(self, attack: (i32, i32, i32, i32)) -> bool {
        self.dynamic_map.player.position == (attack.0, attack.1)
    }

    /// The game after one attack of a mob. An attack on another tile than
    /// the player's changes nothing. The player loses `damage` hit points
    /// and is told if none are left.
    pub open spec fn after_mob_hit(self, attack: (i32, i32, i32, i32)) -> GameState {
        if !self.hits_player(attack) {
            self
        } else {
            let player = self.dynamic_map.player;
            let hp = (player.hp - attack.2) as i32;
            let hurt = self.with_player(PlayerState { hp, ..player }).with_message(
                Message::PlayerDamaged { id: attack.3, damage: attack.2 },
            );
            if hp <= 0 {
                hurt.with_message(Message::PlayerDown)
            } else {
                hurt
            }
        }
    }

    /// The state in which the first `count` attacks of `attacks` have hit
    /// the player, one after the other.
    pub open spec fn mob_hit_progress(self, attacks: Seq<(i32, i32, i32, i32)>, count: nat) -> GameState
        decreases count,
    {
        if count == 0 {
            self
        } else {
            self.mob_hit_progress(attacks, (count - 1) as nat).after_mob_hit(attacks[count - 1])
        }
    }

    /// Whether carrying out the attacks of the mobs stays within the range
    /// of `i32`: the hit points of the player after each.
    pub open spec fn mob_attacks_fit(self) -> bool {
        forall|k: nat|
            k < self.mob_attack_info.len() ==> {
                let before = #[trigger] self.mob_hit_progress(self.mob_attack_info, k);
                before.hits_player(self.mob_attack_info[k as int]) ==> i32::MIN <= before.dynamic_map.player.hp
                    - self.mob_attack_info[k as int].2 <= i32::MAX
            }
    }

    /// The game after the attacks of the mobs have been carried out. No
    /// attack is left waiting.
    pub open spec fn after_mob_attacks(self) -> GameState {
        GameState {
            mob_attack_info: Seq::empty(),
            ..self.mob_hit_progress(self.mob_attack_info, self.mob_attack_info.len())
        }
    }
}

/// The attacks of the mobs change nothing but the hit points of the
/// player and the messages.
pub proof fn lemma_mob_hits_only_hurt_player(state: GameState, attacks: Seq<(i32, i32, i32, i32)>, count: nat)
    ensures
        state.mob_hit_progress(attacks, count) == (GameState {
            dynamic_map: DynamicMapState {
                player: PlayerState {
                    hp: state.mob_hit_progress(attacks, count).dynamic_map.player.hp,
                    ..state.dynamic_map.player
                },
                ..state.dynamic_map
            },
            message: state.mob_hit_progress(attacks, count).message,
            ..state
        }),
    decreases count,
{
    if count > 0 {
        lemma_mob_hits_only_hurt_player(state, attacks, (count - 1) as nat);
    }
}

/// Each attack of the player takes at most one draw.
pub proof fn lemma_hits_take_one_draw_each(
    state: GameState,
    attacks: Seq<(i32, i32, i32)>,
    draws: Seq<u32>,
    count: nat,
)
    ensures
        takes_at_most(draws, state.hit_progress(attacks, draws, count).draws, count),
    decreases count,
{
    if count == 0 {
        assert(draws =~= rest_draws(draws, 0));
    } else {
        let before = state.hit_progress(attacks, draws, (count - 1) as nat);
        let after = state.hit_progress(attacks, draws, count);
        lemma_hits_take_one_draw_each(state, attacks, draws, (count - 1) as nat);
        assert(takes_at_most(before.draws, after.draws, 1)) by {
            if after.draws == before.draws {
                assert(before.draws =~= rest_draws(before.draws, 0));
            } else {
                assert(after.draws == rest_draws(before.draws, 1));
            }
        }
        lemma_takes_at_most_twice(draws, before.draws, after.draws, (count - 1) as nat, 1);
    }
}

impl GameMaster {
    /// Carries out what the item that the player used does to others. No
    /// item does anything to others yet.
    #[allow(non_snake_case)]
    pub fn applyPlayerSideEffect(&mut self)
        ensures
            final(self)@ == old(self)@,
    {
    }

    /// Carries out what the items that the mobs used do to others. No item
    /// does anything to others yet.
    #[allow(non_snake_case)]
    pub fn applyMobSideEffect(&mut self)
        ensures
            final(self)@ == old(self)@,
    {
    }

    /// Whether one attack of the player can be carried out: no sum leaves
    /// the range of `i32`. The next draw of `rng` decides whether a
    /// defeated mob leaves an item.
    pub fn can_hit(&self, attack: (i32, i32, i32), rng: &RandomSource) -> (fits: bool)
        ensures
            fits == self@.hit_fits(attack, rng@),
    {
        match find_mob_at(&self.dynamic_map_manager.mob_list, (attack.0, attack.1)) {
            Some(index) => {
                let mob = self.dynamic_map_manager.mob_list[index];
                let hp: i64 = mob.hp as i64 - attack.2 as i64;
                if hp < -2147483648 || hp > 2147483647 {
                    return false;
                }
                if hp <= 0 {
                    let exp: i64 = self.dynamic_map_manager.player.exp_point as i64 + mob.exp_point as i64;
                    if exp < -2147483648 || exp > 2147483647 {
                        return false;
                    }
                    if rng.peek() % 100 < self.mob_drop_item_probability && self.current_item_id_max == i32::MAX {
                        return false;
                    }
                }
                true
            },
            None => true,
        }
    }

    /// Carries out one attack of the player, and says whether it hit a
    /// mob.
    fn apply_hit(&mut self, attack: (i32, i32, i32), rng: &mut RandomSource) -> (hit: bool)
        requires
            old(self)@.hit_fits(attack, old(rng)@),
        ensures
            hit == old(self)@.hits_mob(attack),
            final(self)@ == old(self)@.after_hit(attack, old(rng)@),
            final(rng)@ == old(self)@.draws_after_hit(attack, old(rng)@),
    {
        match find_mob_at(&self.dynamic_map_manager.mob_list, (attack.0, attack.1)) {
            Some(index) => {
                let mut mob = self.dynamic_map_manager.mob_list[index];
                self.message.push(Message::MobDamaged { id: mob.id, damage: attack.2 });
                mob.hp = mob.hp - attack.2;
                self.dynamic_map_manager.mob_list[index] = mob;
                if mob.hp <= 0 {
                    let draw = rng.next_u32();
                    if draw % 100 < self.mob_drop_item_probability {
                        let item_id = self.current_item_id_max;
                        self.dynamic_map_manager.item_list.push(
                            DroppedItem {
                                id: item_id,
                                position: mob.position,
                                item: GameItem::HealthPotion(HealthPotion { heal_amount: DROPPED_HEAL_AMOUNT }),
                            },
                        );
                        self.current_item_id_max = self.current_item_id_max + 1;
                        self.dropped_item_added_ids.push(item_id);
                    }
                    self.dynamic_map_manager.player.exp_point = self.dynamic_map_manager.player.exp_point
                        + mob.exp_point;
                    self.dynamic_map_manager.mob_list.remove(index);
                    self.dynamic_map_manager.defeated_mob_id.push(mob.id);
                    self.message.push(Message::MobDefeated { id: mob.id });
                }
                true
            },
            None => false,
        }
    }

    /// Carries out the attacks of the player that wait, with the draws in
    /// `rng` deciding what the defeated mobs leave behind.
    pub fn apply_player_attack_info_from(&mut self, rng: &mut RandomSource)
        requires
            old(self)@.player_attacks_fit(old(rng)@),
        ensures
            final(self)@ == old(self)@.after_player_attacks(old(rng)@),
            final(rng)@ == old(self)@.draws_after_player_attacks(old(rng)@),
    {
        let fits = self.apply_player_attacks_while_fit(rng);
        assert(fits);
    }

    /// Carries out the attacks of the player that wait, one after the
    /// other, up to the first that would leave the range of `i32`. Says
    /// whether all were carried out; if not, the game is left in the middle
    /// of the attacks.
    pub(crate) fn apply_player_attacks_while_fit(&mut self, rng: &mut RandomSource) -> (fits: bool)
        ensures
            fits == old(self)@.player_attacks_fit(old(rng)@),
            fits ==> final(self)@ == old(self)@.after_player_attacks(old(rng)@),
            fits ==> final(rng)@ == old(self)@.draws_after_player_attacks(old(rng)@),
    {
        self.dynamic_map_manager.defeated_mob_id.clear();
        let ghost start = self@;
        let ghost attacks = self.player_attack_info@;
        let ghost draws = rng@;
        assert(start == old(self)@.before_hits());
        let mut fumbled = true;
        let mut k: usize = 0;
        while k < self.player_attack_info.len()
            invariant
                k <= attacks.len(),
                attacks == self.player_attack_info@,
                attacks == old(self)@.player_attack_info,
                start == old(self)@.before_hits(),
                draws == old(rng)@,
                forall|j: nat|
                    j < k ==> (#[trigger] start.hit_progress(attacks, draws, j)).state.hit_fits(
                        attacks[j as int],
                        start.hit_progress(attacks, draws, j).draws,
                    ),
                self@ == start.hit_progress(attacks, draws, k as nat).state,
                rng@ == start.hit_progress(attacks, draws, k as nat).draws,
                fumbled == start.hit_progress(attacks, draws, k as nat).fumbled,
            decreases attacks.len() - k,
        {
            let ghost before = start.hit_progress(attacks, draws, k as nat);
            let attack = self.player_attack_info[k];
            if !self.can_hit(attack, rng) {
                proof {
                    let reached = old(self)@.before_hits().hit_progress(
                        old(self)@.player_attack_info,
                        draws,
                        k as nat,
                    );
                    assert(reached == before);
                    assert(!reached.state.hit_fits(old(self)@.player_attack_info[k as int], reached.draws));
                }
                return false;
            }
            let hit = self.apply_hit(attack, rng);
            if hit {
                fumbled = false;
            }
            k = k + 1;
        }
        if fumbled && self.player_attack_info.len() > 0 {
            self.message.push(Message::AttackFumbled);
        }
        self.player_attack_info.clear();
        true
    }

    /// Whether the attacks of the player that wait can be carried out with
    /// the draws in `rng`. They are tried on a copy of the game; the game
    /// and `rng` stay as they are.
    pub fn can_apply_player_attack_info_from(&self, rng: &RandomSource) -> (fits: bool)
        ensures
            fits == self@.player_attacks_fit(rng@),
    {
        let mut trial = self.snapshot();
        let mut probe = rng.fork();
        trial.apply_player_attacks_while_fit(&mut probe)
    }

    /// Carries out the attacks of the player that wait, with draws from the
    /// thread's random generator, if that can be done with them, and says
    /// whether it was. Otherwise the game stays as it is.
    pub fn try_apply_player_attack_info(&mut self) -> (done: bool)
        ensures
            exists|draws: Seq<u32>|
                done == old(self)@.player_attacks_fit(draws) && (done ==> final(self)@
                    == old(self)@.after_player_attacks(draws)),
            !done ==> final(self)@ == old(self)@,
    {
        let mut rng = RandomSource::new();
        rng.refill(self.player_attack_info.len());
        let ghost draws = rng@;
        if self.can_apply_player_attack_info_from(&rng) {
            self.apply_player_attack_info_from(&mut rng);
            assert(old(self)@.player_attacks_fit(draws) && self@ == old(self)@.after_player_attacks(draws));
            true
        } else {
            assert(!old(self)@.player_attacks_fit(draws));
            false
        }
    }

    /// Carries out the attacks of the player that wait. Whether a defeated
    /// mob leaves an item behind is decided by the thread's random
    /// generator.
    #[allow(non_snake_case)]
    pub fn applyPlayerAttackInfo(&mut self)
        requires
            forall|draws: Seq<u32>| old(self)@.player_attacks_fit(draws),
        ensures
            exists|draws: Seq<u32>| final(self)@ == old(self)@.after_player_attacks(draws),
    {
        let mut rng = RandomSource::new();
        rng.refill(self.player_attack_info.len());
        let ghost draws = rng@;
        self.apply_player_attack_info_from(&mut rng);
        assert(self@ == old(self)@.after_player_attacks(draws));
    }

    /// Carries out the attacks of the mobs that wait.
    #[allow(non_snake_case)]
    pub fn applyMobAttackInfo(&mut self)
        requires
            old(self)@.mob_attacks_fit(),
        ensures
            final(self)@ == old(self)@.after_mob_attacks(),
    {
        let fits = self.apply_mob_attacks_while_fit();
        assert(fits);
    }

    /// Carries out the attacks of the mobs that wait, one after the other,
    /// up to the first that would take the hit points of the player out of
    /// the range of `i32`. Says whether all were carried out; if not, the
    /// game is left in the middle of the attacks.
    pub(crate) fn apply_mob_attacks_while_fit(&mut self) -> (fits: bool)
        ensures
            fits == old(self)@.mob_attacks_fit(),
            fits ==> final(self)@ == old(self)@.after_mob_attacks(),
    {
        let ghost start = self@;
        let ghost attacks = self.mob_attack_info@;
        let mut k: usize = 0;
        while k < self.mob_attack_info.len()
            invariant
                k <= attacks.len(),
                attacks == self.mob_attack_info@,
                attacks == old(self)@.mob_attack_info,
                start == old(self)@,
                forall|j: nat|
                    j < k ==> {
                        let before = #[trigger] start.mob_hit_progress(attacks, j);
                        before.hits_player(attacks[j as int]) ==> i32::MIN <= before.dynamic_map.player.hp
                            - attacks[j as int].2 <= i32::MAX
                    },
                self@ == start.mob_hit_progress(attacks, k as nat),
            decreases attacks.len() - k,
        {
            let ghost before = start.mob_hit_progress(attacks, k as nat);
            let attack = self.mob_attack_info[k];
            let position = self.dynamic_map_manager.player.position;
            if position.0 == attack.0 && position.1 == attack.1 {
                let hp: i64 = self.dynamic_map_manager.player.hp as i64 - attack.2 as i64;
                if hp < -2147483648 || hp > 2147483647 {
                    proof {
                        let reached = old(self)@.mob_hit_progress(old(self)@.mob_attack_info, k as nat);
                        assert(reached == before);
                        assert(reached.hits_player(old(self)@.mob_attack_info[k as int]));
                    }
                    return false;
                }
                self.message.push(Message::PlayerDamaged { id: attack.3, damage: attack.2 });
                self.dynamic_map_manager.player.hp = self.dynamic_map_manager.player.hp - attack.2;
                if self.dynamic_map_manager.player.hp <= 0 {
                    self.message.push(Message::PlayerDown);
                }
            }
            k = k + 1;
            assert(self@ == before.after_mob_hit(attack));
        }
        self.mob_attack_info.clear();
        true
    }
}

} // verus!
