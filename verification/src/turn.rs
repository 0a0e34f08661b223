//! One turn of the game: the attacks of the player are carried out, the
//! player may rise by a level, the mobs decide and move, and the attacks of
//! the mobs are carried out, in this order.

use vstd::prelude::*;
use crate::game_master::GameMaster;
use crate::game_master::GameState;
use crate::game_master::Message;
use crate::game_master::mob_index_from;
use crate::combat::lemma_mob_hits_only_hurt_player;
use crate::mob::GameMob;
use crate::mob_ai::lemma_steps_only_move;
use crate::limits::lemma_moderate_turn_fits;
use crate::random::RandomSource;

verus! {

impl GameState {
    /// The game after the check for a level-up of the player, who is told
    /// if it rose.
    pub open spec fn after_level_check(self) -> GameState {
        let checked = self.with_player(self.dynamic_map.player.after_level_check());
        if self.dynamic_map.player.levels_up() {
            checked.with_message(Message::LevelUp)
        } else {
            checked
        }
    }

    /// The game in the middle of a turn: the attacks of the player are
    /// carried out, and the player has risen by a level if that was due.
    pub open spec fn turn_after_level_check(self, draws: Seq<u32>) -> GameState {
        self.after_player_attacks(draws).after_level_check()
    }

    /// The game later in a turn: the mobs, too, have decided and moved.
    pub open spec fn turn_after_mob_decisions(self, draws: Seq<u32>) -> GameState {
        self.turn_after_level_check(draws).after_mob_decisions()
    }

    /// The game after a turn.
    pub open spec fn after_process(self, draws: Seq<u32>) -> GameState {
        self.turn_after_mob_decisions(draws).after_mob_attacks()
    }

    /// Whether a turn stays within the range of `i32` in each of its
    /// steps.
    pub open spec fn process_fits(self, draws: Seq<u32>) -> bool {
        &&& self.player_attacks_fit(draws)
        &&& self.after_player_attacks(draws).dynamic_map.player.level_up_fits()
        &&& self.turn_after_level_check(draws).mob_decisions_fit()
        &&& self.turn_after_mob_decisions(draws).mob_attacks_fit()
    }
}

/// What a turn does to the only mob of a level when the attack of the
/// player is aimed at its tile and the hit points that it keeps are within
/// `i32`. If it keeps some, it is still the only mob, with as many hit
/// points less as the damage says, and no mob is noted as defeated. If it
/// keeps none, no mob is left, and it is the one mob noted as defeated.
pub proof fn lemma_turn_with_one_mob(state: GameState, mob: GameMob, damage: i32, draws: Seq<u32>)
    requires
        state.dynamic_map.mob_list == seq![mob],
        state.player_attack_info == seq![(mob.position.0, mob.position.1, damage)],
        i32::MIN <= mob.hp - damage <= i32::MAX,
    ensures
        mob.hp - damage > 0 ==> {
            let after = state.after_process(draws);
            &&& after.dynamic_map.mob_list.len() == 1
            &&& after.dynamic_map.mob_list[0].id == mob.id
            &&& after.dynamic_map.mob_list[0].hp == mob.hp - damage
            &&& after.dynamic_map.defeated_mob_id == Seq::<i32>::empty()
        },
        mob.hp - damage <= 0 ==> {
            let after = state.after_process(draws);
            &&& after.dynamic_map.mob_list == Seq::<GameMob>::empty()
            &&& after.dynamic_map.defeated_mob_id == seq![mob.id]
        },
{
    let attack = (mob.position.0, mob.position.1, damage);
    let start = state.before_hits();
    assert(mob_index_from(start.dynamic_map.mob_list, (attack.0, attack.1), 0) == 0);
    assert(start.hit_progress(state.player_attack_info, draws, 0).state == start);
    assert(start.hit_progress(state.player_attack_info, draws, 1).state == start.after_hit(attack, draws)) by {
        reveal_with_fuel(GameState::hit_progress, 2);
    }
    let hit = state.after_player_attacks(draws);
    let checked = state.turn_after_level_check(draws);
    let decided = state.turn_after_mob_decisions(draws);
    if mob.hp - damage > 0 {
        let hurt = GameMob { hp: (mob.hp - damage) as i32, ..mob };
        assert(hit.dynamic_map.mob_list =~= seq![hurt]);
        assert(hit.dynamic_map.defeated_mob_id =~= Seq::<i32>::empty());
        assert(checked.turned_mobs().len() == 1);
        assert(checked.turned_mobs()[0].hp == hurt.hp && checked.turned_mobs()[0].id == hurt.id);
        let steps = checked.proposed_moves(1);
        lemma_steps_only_move(checked.turned_mobs(), steps, steps.len());
    } else {
        assert(hit.dynamic_map.mob_list =~= Seq::<GameMob>::empty());
        assert(hit.dynamic_map.defeated_mob_id =~= seq![mob.id]);
        assert(checked.turned_mobs() =~= Seq::<GameMob>::empty());
        let steps = checked.proposed_moves(0);
        lemma_steps_only_move(checked.turned_mobs(), steps, steps.len());
        assert(decided.dynamic_map.mob_list =~= Seq::<GameMob>::empty());
    }
    lemma_mob_hits_only_hurt_player(decided, decided.mob_attack_info, decided.mob_attack_info.len());
}

impl GameMaster {
    /// Runs one turn, with the draws in `rng` deciding what defeated mobs
    /// leave behind.
    pub fn process_from(&mut self, rng: &mut RandomSource)
        requires
            old(self)@.process_fits(old(rng)@),
        ensures
            final(self)@ == old(self)@.after_process(old(rng)@),
            final(rng)@ == old(self)@.draws_after_player_attacks(old(rng)@),
    {
        self.applyPlayerSideEffect();
        self.apply_player_attack_info_from(rng);
        if self.dynamic_map_manager.player.check_level_up() {
            self.message.push(Message::LevelUp);
        }
        self.decideMobAction();
        self.applyMobSideEffect();
        self.applyMobAttackInfo();
    }

    /// Whether a turn can be run with the draws in `rng`: no sum of any of
    /// its steps leaves the range of `i32`. The turn is tried on a copy of
    /// the game; the game and `rng` stay as they are.
    pub fn can_process_from(&self, rng: &RandomSource) -> (fits: bool)
        ensures
            fits == self@.process_fits(rng@),
    {
        let mut trial = self.snapshot();
        let mut probe = rng.fork();
        if !trial.apply_player_attacks_while_fit(&mut probe) {
            return false;
        }
        if !trial.dynamic_map_manager.player.can_check_level_up() {
            return false;
        }
        if trial.dynamic_map_manager.player.check_level_up() {
            trial.message.push(Message::LevelUp);
        }
        if !trial.can_decide_mob_action() {
            return false;
        }
        trial.decideMobAction();
        trial.apply_mob_attacks_while_fit()
    }

    /// Runs one turn with the draws in `rng` if it can be run, and says
    /// whether it did. A turn that cannot be run leaves the game and `rng`
    /// as they are.
    pub fn try_process_from(&mut self, rng: &mut RandomSource) -> (ran: bool)
        ensures
            ran == old(self)@.process_fits(old(rng)@),
            ran ==> final(self)@ == old(self)@.after_process(old(rng)@),
            ran ==> final(rng)@ == old(self)@.draws_after_player_attacks(old(rng)@),
            !ran ==> final(self)@ == old(self)@ && final(rng)@ == old(rng)@,
    {
        if self.is_moderate() {
            proof {
                lemma_moderate_turn_fits(self@, rng@);
            }
            self.process_from(rng);
            true
        } else if self.can_process_from(rng) {
            self.process_from(rng);
            true
        } else {
            false
        }
    }

    /// Runs one turn with draws from the thread's random generator if it
    /// can be run with them, and says whether it did. A turn that cannot be
    /// run leaves the game as it is.
    pub fn try_process(&mut self) -> (ran: bool)
        ensures
            exists|draws: Seq<u32>|
                ran == old(self)@.process_fits(draws) && (ran ==> final(self)@ == old(self)@.after_process(draws)),
            !ran ==> final(self)@ == old(self)@,
    {
        let mut rng = RandomSource::new();
        rng.refill(self.player_attack_info.len());
        let ghost draws = rng@;
        let ran = self.try_process_from(&mut rng);
        assert(ran == old(self)@.process_fits(draws) && (ran ==> self@ == old(self)@.after_process(draws)));
        ran
    }

    /// Runs one turn. Whether a defeated mob leaves an item behind is
    /// decided by the thread's random generator.
    pub fn process(&mut self)
        requires
            forall|draws: Seq<u32>| old(self)@.process_fits(draws),
        ensures
            exists|draws: Seq<u32>| final(self)@ == old(self)@.after_process(draws),
    {
        let mut rng = RandomSource::new();
        rng.refill(self.player_attack_info.len());
        let ghost draws = rng@;
        self.process_from(&mut rng);
        assert(self@ == old(self)@.after_process(draws));
    }
}

} // verus!
