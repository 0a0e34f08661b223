use roguelike_extension::game_master::find_item_at;
use roguelike_extension::game_master::find_mob_at;
use roguelike_extension::game_master::GameMaster;
use roguelike_extension::game_master::Message;
use roguelike_extension::item::DroppedItem;
use roguelike_extension::item::GameItem;
use roguelike_extension::item::HealthPotion;
use roguelike_extension::item::SideEffect;
use roguelike_extension::item::Sword;
use roguelike_extension::level_init::level_draws;
use roguelike_extension::level_init::scatter_tiles;
use roguelike_extension::mob::GameMob;
use roguelike_extension::mob_ai::resolve_moves;
use roguelike_extension::player::Direction;
use roguelike_extension::random::RandomSource;
use roguelike_extension::static_map::StaticMapManager;

fn potion(heal_amount: i32) -> GameItem {
    GameItem::HealthPotion(HealthPotion { heal_amount })
}

/// A game on a map of 12 by 12 that is one room, with the player at (5, 5).
fn simple_game() -> GameMaster {
    let mut game = GameMaster::new();
    game.static_map_manager.generate_simple_map(12, 12);
    game.copy_from_static_map_manager();
    game.dynamic_map_manager.player.position = (5, 5);
    game
}

#[test]
fn new_game() {
    let game = GameMaster::new();
    assert_eq!(game.current_level, 1);
    assert_eq!(game.initial_item_count, 10);
    assert_eq!(game.initial_mob_count, 10);
    assert_eq!(game.mob_drop_item_probability, 50);
    assert_eq!((game.dungeon_width, game.dungeon_height), (100, 100));
    assert!(game.dungeon_map_1d.is_empty());
    assert!(game.message.is_empty());
    assert_eq!(game.current_item_id_max, 0);
    assert_eq!(game.static_map_manager.dungeon_map_2d, vec![vec![0; 100]; 100]);
    assert_eq!(game.get_player_position(), (0, 0));
    assert_eq!(game.get_goal_position(), (0, 0));
    assert_eq!(game.get_player_direction(), 0);
}

#[test]
fn next_level_and_clear_message() {
    let mut game = GameMaster::new();
    game.next_level();
    game.next_level();
    assert_eq!(game.current_level, 3);
    game.message.push(Message::LevelUp);
    game.clear_message();
    assert!(game.message.is_empty());
}

#[test]
fn map_is_copied_row_by_row() {
    let mut game = GameMaster::new();
    game.static_map_manager.generate_simple_map(4, 3);
    game.static_map_manager.dungeon_map_2d[1][1] = 0;
    game.static_map_manager.dungeon_map_2d[2][1] = 7;
    game.copy_from_static_map_manager();
    assert_eq!((game.dungeon_width, game.dungeon_height), (4, 3));
    assert_eq!(game.dungeon_map_1d, vec![1, 1, 1, 1, 1, 0, 7, 1, 1, 1, 1, 1]);
    for x in 0..4usize {
        for y in 0..3usize {
            assert_eq!(game.dungeon_map_1d[y * 4 + x], game.static_map_manager.dungeon_map_2d[x][y]);
        }
    }
}

#[test]
fn player_turn_uses_the_hosts_numbers() {
    let mut game = simple_game();
    let directions = [
        Direction::Up,
        Direction::UpRight,
        Direction::Right,
        Direction::DownRight,
        Direction::Down,
        Direction::DownLeft,
        Direction::Left,
        Direction::UpLeft,
    ];
    for (code, direction) in directions.iter().enumerate() {
        game.player_turn(code as i32);
        assert_eq!(game.dynamic_map_manager.player.direction, *direction);
        assert_eq!(game.get_player_direction(), code as i32);
    }
    game.player_turn(3);
    game.player_turn(99);
    assert_eq!(game.dynamic_map_manager.player.direction, Direction::Up);
    assert_eq!(game.get_player_position(), (5, 5));
}

#[test]
fn move_onto_floor_succeeds() {
    let mut game = simple_game();
    game.dropped_item_added_ids.push(1);
    game.dropped_item_removed_ids.push(2);
    assert!(game.player_move(6, 5));
    assert_eq!(game.get_player_position(), (6, 5));
    assert!(game.dropped_item_added_ids.is_empty());
    assert!(game.dropped_item_removed_ids.is_empty());
    assert!(game.message.is_empty());
}

#[test]
fn move_into_a_wall_or_off_the_map_fails() {
    let mut game = simple_game();
    for target in [(0, 5), (5, 0), (11, 11), (-1, 5), (5, -1), (12, 5), (5, 12), (i32::MAX, i32::MIN)] {
        game.dropped_item_added_ids.push(1);
        game.dropped_item_removed_ids.push(2);
        assert!(!game.player_move(target.0, target.1), "move to {:?}", target);
        assert_eq!(game.get_player_position(), (5, 5));
        assert!(game.dropped_item_added_ids.is_empty());
        assert!(game.dropped_item_removed_ids.is_empty());
    }
}

#[test]
fn move_onto_a_mob_fails() {
    let mut game = simple_game();
    game.dynamic_map_manager.mob_list.push(GameMob::new(0, 6, 5));
    game.dynamic_map_manager.item_list.push(DroppedItem { id: 4, position: (6, 5), item: potion(10) });
    assert!(!game.player_move(6, 5));
    assert_eq!(game.get_player_position(), (5, 5));
    assert_eq!(game.dynamic_map_manager.item_list.len(), 1);
    assert!(game.player_move(5, 6));
    assert_eq!(game.get_player_position(), (5, 6));
}

#[test]
fn move_onto_an_item_picks_it_up() {
    let mut game = simple_game();
    game.dynamic_map_manager.item_list.push(DroppedItem { id: 3, position: (7, 7), item: potion(1) });
    game.dynamic_map_manager.item_list.push(DroppedItem { id: 4, position: (6, 5), item: potion(10) });
    game.dynamic_map_manager.item_list.push(DroppedItem { id: 5, position: (6, 5), item: potion(20) });
    assert!(game.player_move(6, 5));
    assert_eq!(game.dynamic_map_manager.player.items[0], potion(10));
    assert_eq!(game.dynamic_map_manager.player.items[1], GameItem::Null);
    assert_eq!(game.get_dropped_item_removed_ids(), vec![4]);
    assert_eq!(game.get_dropped_item_ids(), vec![3, 5]);
    assert_eq!(game.get_dropped_item_positions(), vec![(7, 7), (6, 5)]);
    assert_eq!(game.message, vec![Message::ItemPickedUp]);
}

#[test]
fn move_onto_an_item_with_a_full_inventory_leaves_it() {
    let mut game = simple_game();
    for _ in 0..8 {
        game.dynamic_map_manager.player.add_item(&potion(1));
    }
    game.dynamic_map_manager.item_list.push(DroppedItem { id: 4, position: (6, 5), item: potion(10) });
    assert!(game.player_move(6, 5));
    assert_eq!(game.get_player_position(), (6, 5));
    assert_eq!(game.get_dropped_item_ids(), vec![4]);
    assert!(game.get_dropped_item_removed_ids().is_empty());
    assert_eq!(game.message, vec![Message::InventoryFull]);
    assert!(game.dynamic_map_manager.player.items.iter().all(|item| *item == potion(1)));
}

#[test]
fn pickup_takes_the_item_under_the_player() {
    let mut game = simple_game();
    game.dropped_item_added_ids.push(9);
    game.player_pickup_item();
    assert!(game.get_dropped_item_removed_ids().is_empty());
    assert!(game.get_dropped_item_added_ids().is_empty());
    game.dynamic_map_manager.item_list.push(DroppedItem { id: 1, position: (4, 5), item: potion(1) });
    game.dynamic_map_manager.item_list.push(DroppedItem { id: 2, position: (5, 5), item: potion(2) });
    game.player_pickup_item();
    assert_eq!(game.get_dropped_item_removed_ids(), vec![2]);
    assert_eq!(game.get_dropped_item_ids(), vec![1]);
    assert_eq!(game.dynamic_map_manager.player.items[0], potion(2));
    assert!(game.message.is_empty());
}

#[test]
fn pickup_with_a_full_inventory_loses_the_item() {
    let mut game = simple_game();
    for _ in 0..8 {
        game.dynamic_map_manager.player.add_item(&potion(1));
    }
    game.dynamic_map_manager.item_list.push(DroppedItem { id: 2, position: (5, 5), item: potion(2) });
    game.player_pickup_item();
    assert_eq!(game.get_dropped_item_removed_ids(), vec![2]);
    assert!(game.get_dropped_item_ids().is_empty());
    assert!(game.dynamic_map_manager.player.items.iter().all(|item| *item == potion(1)));
}

#[test]
fn can_use_item_only_for_potions_in_existing_slots() {
    let mut game = simple_game();
    game.dynamic_map_manager.player.add_item(&potion(5));
    game.dynamic_map_manager.player.add_item(&GameItem::Sword(Sword { attack_bonus: 1 }));
    assert!(game.player_can_use_item(0));
    assert!(!game.player_can_use_item(1));
    assert!(!game.player_can_use_item(2));
    assert!(!game.player_can_use_item(8));
    assert!(!game.player_can_use_item(-1));
    assert!(!game.player_can_use_item(i32::MAX));
}

#[test]
fn use_item_selects_and_uses() {
    let mut game = simple_game();
    game.dynamic_map_manager.player.hp = 50;
    game.dynamic_map_manager.player.add_item(&GameItem::Sword(Sword { attack_bonus: 1 }));
    game.dynamic_map_manager.player.add_item(&potion(30));
    game.player_use_item(1);
    assert_eq!(game.dynamic_map_manager.player.hp, 80);
    assert_eq!(game.dynamic_map_manager.player.active_item_index, 1);
    assert_eq!(game.dynamic_map_manager.player.items[1], GameItem::Null);
    assert_eq!(game.player_side_effect_info, vec![SideEffect::Nothing]);
    assert_eq!(game.message, vec![Message::HpRecovered]);
    // A slot that is not there leaves the selection, and the empty active
    // slot cannot be used.
    game.player_use_item(-3);
    assert_eq!(game.dynamic_map_manager.player.active_item_index, 1);
    assert_eq!(game.player_side_effect_info, vec![SideEffect::Fault]);
    game.player_use_item(0);
    assert_eq!(game.player_side_effect_info, vec![SideEffect::Fault]);
    assert_eq!(game.dynamic_map_manager.player.hp, 80);
    assert_eq!(game.message.len(), 3);
}

#[test]
fn attack_is_buffered_until_the_turn_runs() {
    let mut game = simple_game();
    game.dynamic_map_manager.mob_list.push(GameMob::new(7, 5, 4));
    game.dropped_item_added_ids.push(1);
    game.player_attack();
    assert_eq!(game.player_attack_info, vec![(5, 4, 10)]);
    assert!(game.dropped_item_added_ids.is_empty());
    assert_eq!(game.dynamic_map_manager.mob_list[0].hp, 10);
    game.player_turn(2);
    game.player_attack();
    assert_eq!(game.player_attack_info, vec![(6, 5, 10)]);
}

#[test]
fn two_hits_of_five_defeat_a_mob_of_ten() {
    let mut game = simple_game();
    game.dynamic_map_manager.player.attack = 5;
    game.dynamic_map_manager.mob_list.push(GameMob::new(7, 5, 4));
    game.player_attack();
    let mut rng = RandomSource::from_values(vec![]);
    game.apply_player_attack_info_from(&mut rng);
    assert_eq!(game.dynamic_map_manager.mob_list.len(), 1);
    assert_eq!(game.dynamic_map_manager.mob_list[0].hp, 5);
    assert!(game.get_defeated_mob_ids().is_empty());
    assert!(game.player_attack_info.is_empty());
    assert_eq!(game.message, vec![Message::MobDamaged { id: 7, damage: 5 }]);

    game.clear_message();
    game.player_attack();
    // 99 % 100 is not below 50: nothing is dropped.
    let mut rng = RandomSource::from_values(vec![99, 1]);
    game.apply_player_attack_info_from(&mut rng);
    assert!(game.dynamic_map_manager.mob_list.is_empty());
    assert_eq!(game.get_defeated_mob_ids(), vec![7]);
    assert_eq!(game.dynamic_map_manager.player.exp_point, 1);
    assert!(game.dynamic_map_manager.item_list.is_empty());
    assert_eq!(rng.remaining(), 1);
    assert_eq!(
        game.message,
        vec![Message::MobDamaged { id: 7, damage: 5 }, Message::MobDefeated { id: 7 }]
    );
}

#[test]
fn defeated_mob_drops_a_potion_when_the_draw_says_so() {
    let mut game = simple_game();
    game.current_item_id_max = 4;
    game.dynamic_map_manager.mob_list.push(GameMob::new(7, 5, 4));
    game.dynamic_map_manager.mob_list.push(GameMob::new(8, 5, 4));
    game.player_attack();
    // 249 % 100 = 49 is below 50.
    let mut rng = RandomSource::from_values(vec![249]);
    game.apply_player_attack_info_from(&mut rng);
    assert_eq!(game.get_mob_ids(), vec![8]);
    assert_eq!(game.get_defeated_mob_ids(), vec![7]);
    assert_eq!(game.get_dropped_item_ids(), vec![4]);
    assert_eq!(game.get_dropped_item_positions(), vec![(5, 4)]);
    assert_eq!(game.dynamic_map_manager.item_list[0].item, potion(10));
    assert_eq!(game.get_dropped_item_added_ids(), vec![4]);
    assert_eq!(game.current_item_id_max, 5);
    assert_eq!(rng.remaining(), 0);

    // With a chance of zero nothing is ever dropped, with one of a hundred
    // always.
    game.mob_drop_item_probability = 0;
    game.player_attack();
    let mut rng = RandomSource::from_values(vec![0]);
    game.apply_player_attack_info_from(&mut rng);
    assert!(game.get_mob_ids().is_empty());
    assert_eq!(game.get_defeated_mob_ids(), vec![8]);
    assert_eq!(game.get_dropped_item_ids(), vec![4]);
    game.dynamic_map_manager.mob_list.push(GameMob::new(9, 5, 4));
    game.mob_drop_item_probability = 100;
    game.player_attack();
    let mut rng = RandomSource::from_values(vec![99]);
    game.apply_player_attack_info_from(&mut rng);
    assert_eq!(game.get_dropped_item_ids(), vec![4, 5]);
    assert_eq!(game.get_dropped_item_added_ids(), vec![5]);
}

#[test]
fn attack_on_an_empty_tile_fumbles() {
    let mut game = simple_game();
    game.dynamic_map_manager.mob_list.push(GameMob::new(7, 4, 4));
    game.dynamic_map_manager.defeated_mob_id.push(3);
    game.player_attack();
    game.applyPlayerAttackInfo();
    assert_eq!(game.message, vec![Message::AttackFumbled]);
    assert_eq!(game.dynamic_map_manager.mob_list[0].hp, 10);
    assert!(game.get_defeated_mob_ids().is_empty());
    // Without an attack nothing is said.
    game.clear_message();
    game.applyPlayerAttackInfo();
    assert!(game.message.is_empty());
}

#[test]
fn side_effects_change_nothing() {
    let mut game = simple_game();
    game.player_side_effect_info.push(SideEffect::Fault);
    game.mob_side_effect_info.push(SideEffect::Nothing);
    game.applyPlayerSideEffect();
    game.applyMobSideEffect();
    assert_eq!(game.player_side_effect_info, vec![SideEffect::Fault]);
    assert_eq!(game.mob_side_effect_info, vec![SideEffect::Nothing]);
    assert!(game.message.is_empty());
}

#[test]
fn mob_next_to_the_player_turns_and_attacks() {
    let cases = [
        ((6, 6), Direction::UpLeft),
        ((4, 4), Direction::DownRight),
        ((6, 4), Direction::DownLeft),
        ((4, 6), Direction::UpRight),
        ((5, 4), Direction::Down),
        ((5, 6), Direction::Up),
        ((4, 5), Direction::Right),
        ((6, 5), Direction::Left),
    ];
    for (position, direction) in cases {
        let mut game = simple_game();
        game.dynamic_map_manager.mob_list.push(GameMob::new(3, position.0, position.1));
        game.mob_attack_info.push((0, 0, 0, 0));
        game.decideMobAction();
        assert_eq!(game.dynamic_map_manager.mob_list[0].direction, direction);
        assert_eq!(game.dynamic_map_manager.mob_list[0].position, position);
        assert_eq!(game.mob_attack_info, vec![(5, 5, 5, 3)]);
    }
}

#[test]
fn mob_chases_along_the_longer_axis() {
    let cases = [
        ((8, 6), (7, 6), Direction::Left),
        ((2, 4), (3, 4), Direction::Right),
        ((6, 8), (6, 7), Direction::Up),
        ((4, 2), (4, 3), Direction::Down),
        ((7, 7), (7, 6), Direction::Up),
        ((3, 3), (3, 4), Direction::Down),
        ((7, 3), (7, 4), Direction::Down),
        ((5, 8), (5, 7), Direction::Up),
    ];
    for (from, to, direction) in cases {
        let mut game = simple_game();
        game.dynamic_map_manager.mob_list.push(GameMob::new(3, from.0, from.1));
        game.decideMobAction();
        assert_eq!(game.get_mob_positions(), vec![to], "from {:?}", from);
        assert_eq!(game.dynamic_map_manager.mob_list[0].direction, direction);
        assert_eq!(game.get_mob_directions(), vec![direction.to_code()]);
        assert!(game.mob_attack_info.is_empty());
    }
}

#[test]
fn mob_outside_the_players_room_does_nothing() {
    let mut game = simple_game();
    // The room of the simple map is its interior, 1..=10 on both axes.
    let mut mob = GameMob::new(3, 11, 5);
    mob.direction = Direction::Left;
    game.dynamic_map_manager.mob_list.push(mob);
    game.decideMobAction();
    assert_eq!(game.get_mob_positions(), vec![(11, 5)]);
    assert_eq!(game.dynamic_map_manager.mob_list[0].direction, Direction::Left);
    assert!(game.mob_attack_info.is_empty());
    // Without rooms no mob acts.
    game.static_map_manager.room_params.clear();
    game.dynamic_map_manager.mob_list[0].position = (5, 6);
    game.decideMobAction();
    assert!(game.mob_attack_info.is_empty());
}

#[test]
fn mob_does_not_step_into_a_wall() {
    let mut game = simple_game();
    game.static_map_manager.dungeon_map_2d[7][5] = 1;
    game.dynamic_map_manager.mob_list.push(GameMob::new(3, 8, 5));
    game.decideMobAction();
    assert_eq!(game.get_mob_positions(), vec![(8, 5)]);
    // It has turned all the same.
    assert_eq!(game.dynamic_map_manager.mob_list[0].direction, Direction::Left);
}

#[test]
fn first_mob_in_the_list_gets_the_tile() {
    let mut game = simple_game();
    game.dynamic_map_manager.player.position = (5, 2);
    // Both head for (5, 4): the first from below, the second from the right.
    game.dynamic_map_manager.mob_list.push(GameMob::new(1, 5, 5));
    game.dynamic_map_manager.mob_list.push(GameMob::new(2, 8, 2));
    game.dynamic_map_manager.mob_list.push(GameMob::new(3, 5, 6));
    game.decideMobAction();
    // Mob 1 steps up to (5, 4). Mob 2 steps left to (7, 2). Mob 3 wants
    // (5, 5), which mob 1 has left by then.
    assert_eq!(game.get_mob_positions(), vec![(5, 4), (7, 2), (5, 5)]);

    let mut game = simple_game();
    game.dynamic_map_manager.player.position = (5, 2);
    game.dynamic_map_manager.mob_list.push(GameMob::new(1, 5, 6));
    game.dynamic_map_manager.mob_list.push(GameMob::new(2, 5, 5));
    game.decideMobAction();
    // Mob 1 wants (5, 5), where mob 2 still stands; mob 2 moves on.
    assert_eq!(game.get_mob_positions(), vec![(5, 6), (5, 4)]);
}

#[test]
fn resolve_moves_checks_the_positions_of_the_moment() {
    let mut mobs = vec![GameMob::new(1, 1, 1), GameMob::new(2, 3, 1), GameMob::new(1, 9, 9)];
    let steps = vec![(1, (2, 1)), (2, (2, 1)), (5, (4, 4)), (2, (3, 2))];
    resolve_moves(&mut mobs, &steps);
    // Only the first mob with an id moves; a step onto a taken tile and one
    // of an unknown id are dropped.
    assert_eq!(mobs[0].position, (2, 1));
    assert_eq!(mobs[1].position, (3, 2));
    assert_eq!(mobs[2].position, (9, 9));
    assert_eq!(find_mob_at(&mobs, (3, 2)), Some(1));
    assert_eq!(find_mob_at(&mobs, (1, 1)), None);
}

#[test]
fn mob_attacks_hit_only_the_players_tile() {
    let mut game = simple_game();
    game.mob_attack_info = vec![(5, 5, 30, 1), (5, 6, 50, 2), (5, 5, 80, 3), (5, 5, 1, 4)];
    game.applyMobAttackInfo();
    assert_eq!(game.dynamic_map_manager.player.hp, -11);
    assert!(game.mob_attack_info.is_empty());
    assert_eq!(
        game.message,
        vec![
            Message::PlayerDamaged { id: 1, damage: 30 },
            Message::PlayerDamaged { id: 3, damage: 80 },
            Message::PlayerDown,
            Message::PlayerDamaged { id: 4, damage: 1 },
            Message::PlayerDown,
        ]
    );
}

#[test]
fn a_turn_runs_its_steps_in_order() {
    let mut game = simple_game();
    game.dynamic_map_manager.player.exp_point = 2;
    game.dynamic_map_manager.player.is_heal_when_level_up = true;
    game.dynamic_map_manager.player.hp = 40;
    game.dynamic_map_manager.mob_list.push(GameMob::new(0, 5, 4));
    game.dynamic_map_manager.mob_list.push(GameMob::new(1, 6, 5));
    game.dynamic_map_manager.mob_list.push(GameMob::new(2, 5, 8));
    game.player_attack();
    let mut rng = RandomSource::from_values(vec![0]);
    game.process_from(&mut rng);
    // The mob in front is defeated and drops a potion; its experience
    // lifts the player to level 2, which heals; then the other mobs act.
    assert_eq!(game.get_defeated_mob_ids(), vec![0]);
    assert_eq!(game.get_mob_ids(), vec![1, 2]);
    assert_eq!(game.get_mob_positions(), vec![(6, 5), (5, 7)]);
    assert_eq!(game.get_mob_directions(), vec![6, 0]);
    assert_eq!(game.get_dropped_item_positions(), vec![(5, 4)]);
    assert_eq!(game.dynamic_map_manager.player.level, 2);
    assert_eq!(game.dynamic_map_manager.player.exp_point, 0);
    assert_eq!(game.dynamic_map_manager.player.max_hp, 110);
    assert_eq!(game.dynamic_map_manager.player.hp, 105);
    assert!(game.player_attack_info.is_empty());
    assert!(game.mob_attack_info.is_empty());
    assert_eq!(
        game.message,
        vec![
            Message::MobDamaged { id: 0, damage: 10 },
            Message::MobDefeated { id: 0 },
            Message::LevelUp,
            Message::PlayerDamaged { id: 1, damage: 5 },
        ]
    );
}

#[test]
fn end_to_end_on_a_level_with_one_room() {
    // A dungeon of 20 by 20 has one room. Its centre, (10, 10), is where
    // the player starts and where the goal is.
    let mut game = GameMaster::new();
    game.initial_item_count = 0;
    game.initial_mob_count = 0;
    game.initialize_level(20, 20);
    assert_eq!(game.static_map_manager.room_params.len(), 1);
    assert_eq!(game.get_player_position(), (10, 10));
    assert_eq!(game.get_goal_position(), (10, 10));
    assert!(game.get_dropped_item_ids().is_empty());
    assert!(game.get_mob_ids().is_empty());
    assert_eq!(game.dungeon_map_1d.len(), 400);
    assert_eq!(game.dungeon_map_1d[10 * 20 + 10], 0);

    game.dynamic_map_manager.mob_list.push(GameMob::new(0, 10, 9));
    game.player_turn(0);
    game.player_attack();
    game.process();
    // The mob of 10 hit points is defeated by the attack of 10.
    assert!(game.get_mob_ids().is_empty());
    assert_eq!(game.get_defeated_mob_ids(), vec![0]);
    assert_eq!(game.dynamic_map_manager.player.exp_point, 1);
    assert_eq!(game.dynamic_map_manager.player.hp, 100);
    assert!(game.get_dropped_item_ids().len() <= 1);
    assert_eq!(game.get_dropped_item_ids(), game.get_dropped_item_added_ids());

    // A stronger mob is damaged and strikes back.
    game.dynamic_map_manager.mob_list.push(GameMob::new_from_level(1, 10, 9, 2));
    game.player_attack();
    game.process();
    assert_eq!(game.get_mob_ids(), vec![1]);
    assert_eq!(game.dynamic_map_manager.mob_list[0].hp, 10);
    assert_eq!(game.dynamic_map_manager.mob_list[0].direction, Direction::Down);
    assert!(game.get_defeated_mob_ids().is_empty());
    assert_eq!(game.dynamic_map_manager.player.hp, 90);
}

#[test]
fn levels_from_the_same_draws_are_the_same() {
    let draws: Vec<u32> = (0..400).map(|i: u32| (i + 3).wrapping_mul(2246822519) >> 5).collect();
    let mut first = GameMaster::new();
    let mut second = GameMaster::new();
    first.current_level = 2;
    second.current_level = 2;
    let mut rng_a = RandomSource::from_values(draws.clone());
    let mut rng_b = RandomSource::from_values(draws);
    first.initialize_level_from(70, 60, &mut rng_a);
    second.initialize_level_from(70, 60, &mut rng_b);
    assert_eq!(first.static_map_manager.dungeon_map_2d, second.static_map_manager.dungeon_map_2d);
    assert_eq!(first.static_map_manager.room_params, second.static_map_manager.room_params);
    assert_eq!(first.dungeon_map_1d, second.dungeon_map_1d);
    assert_eq!(first.get_player_position(), second.get_player_position());
    assert_eq!(first.get_goal_position(), second.get_goal_position());
    assert_eq!(first.get_dropped_item_positions(), second.get_dropped_item_positions());
    assert_eq!(first.get_mob_positions(), second.get_mob_positions());
    assert_eq!(rng_a.remaining(), rng_b.remaining());

    let rooms = first.static_map_manager.room_params.len();
    assert!(rooms >= 2);
    assert_ne!(first.get_player_position(), first.get_goal_position());
    assert!(first.get_dropped_item_ids().len() <= 10);
    assert!(first.get_mob_ids().len() <= 10);
    assert_eq!(first.current_item_id_max as usize, first.get_dropped_item_ids().len());
    for (index, id) in first.get_dropped_item_ids().iter().enumerate() {
        assert_eq!(*id, index as i32);
    }
    for (index, mob) in first.dynamic_map_manager.mob_list.iter().enumerate() {
        assert_eq!(mob.id, index as i32);
        assert_eq!((mob.hp, mob.attack, mob.defense, mob.exp_point), (20, 10, 4, 2));
        assert!(first.static_map_manager.is_floor(mob.position.0, mob.position.1));
    }
    for position in first.get_dropped_item_positions() {
        assert!(first.static_map_manager.is_floor(position.0, position.1));
    }
}

#[test]
fn random_levels_are_well_formed() {
    for _ in 0..20 {
        let mut game = GameMaster::new();
        game.dynamic_map_manager.mob_list.push(GameMob::new(77, 1, 1));
        game.initialize_level(64, 64);
        assert_eq!((game.dungeon_width, game.dungeon_height), (64, 64));
        assert_eq!(game.dungeon_map_1d.len(), 64 * 64);
        let rooms = &game.static_map_manager.room_params;
        assert!(!rooms.is_empty() && rooms.len() <= 8);
        let player = game.get_player_position();
        let goal = game.get_goal_position();
        assert!(rooms.iter().any(|room| (room.room_center_x, room.room_center_y) == player));
        assert!(rooms.iter().any(|room| (room.room_center_x, room.room_center_y) == goal));
        if rooms.len() > 1 {
            assert_ne!(player, goal);
        }
        assert!(game.static_map_manager.is_floor(player.0, player.1));
        assert!(game.get_mob_ids().len() <= 10);
        assert!(game.get_mob_ids().iter().all(|id| *id != 77));
        assert!(game.get_dropped_item_ids().len() <= 10);
    }
}

#[test]
fn level_without_rooms_places_nothing() {
    let mut game = GameMaster::new();
    game.dynamic_map_manager.player.position = (3, 4);
    game.dynamic_map_manager.goal_position = (5, 6);
    game.current_item_id_max = 9;
    game.dynamic_map_manager.item_list.push(DroppedItem { id: 1, position: (1, 1), item: potion(1) });
    let mut rng = RandomSource::from_values(vec![5, 6, 7]);
    game.initialize_level_from(10, 8, &mut rng);
    assert!(game.static_map_manager.room_params.is_empty());
    assert_eq!(game.get_player_position(), (3, 4));
    assert_eq!(game.get_goal_position(), (5, 6));
    assert!(game.get_dropped_item_ids().is_empty());
    assert!(game.get_mob_ids().is_empty());
    assert_eq!(game.current_item_id_max, 9);
    assert_eq!(game.dungeon_map_1d, vec![1; 80]);
    assert_eq!(rng.remaining(), 3);
}

#[test]
fn scatter_draws_tiles_room_by_room() {
    let mut map = StaticMapManager::new(1, 1);
    map.generate_simple_map(12, 12);
    map.dungeon_map_2d[1][4] = 1;
    map.dungeon_map_2d[4][1] = 1;
    // The room is 10 by 10 at (1, 1). Three tiles are asked for, so the one
    // room gets 3 / 1 + 1 = 4 attempts. (1 + 0, 1 + 3) is wall,
    // (1 + 4, 1 + 7) floor, (1 + 13 % 10, 1 + 0) wall, (1 + 25 % 10, 1 + 1)
    // floor.
    let mut rng = RandomSource::from_values(vec![0, 3, 4, 7, 13, 0, 25, 1, 9, 9]);
    let tiles = scatter_tiles(&map, 3, &mut rng);
    assert_eq!(tiles, vec![(5, 8), (6, 2)]);
    assert_eq!(rng.remaining(), 2);
    // Attempts stop once enough tiles are found.
    let mut rng = RandomSource::from_values(vec![1, 1, 2, 2, 3, 3, 4, 4]);
    let tiles = scatter_tiles(&map, 2, &mut rng);
    assert_eq!(tiles, vec![(2, 2), (3, 3)]);
    assert_eq!(rng.remaining(), 4);
    // The far corner of the interior can be drawn.
    let mut rng = RandomSource::from_values(vec![9, 9]);
    assert_eq!(scatter_tiles(&map, 1, &mut rng), vec![(10, 10)]);
    let mut rng = RandomSource::from_values(vec![1, 1]);
    assert!(scatter_tiles(&map, 0, &mut rng).is_empty());
    assert!(scatter_tiles(&map, -5, &mut rng).is_empty());
    assert_eq!(rng.remaining(), 2);
    assert!(level_draws(10, 10) >= 40 + 2 * 18 + 2 * 18);
    assert!(level_draws(-1, i32::MAX) >= 40);
    assert_eq!(find_item_at(&vec![], (0, 0)), None);
}

#[test]
fn player_and_goal_rooms_from_known_draws() {
    // A dungeon of 40 by 20 from these draws has two rooms, with the
    // centres (10, 10) and (30, 10), and takes 16 draws. The player starts
    // in room 3 % 2 = 1, the goal is 1 + 5 % 1 = 1 room behind it, in room 0.
    let mut draws = vec![0, 19];
    draws.extend(vec![0; 14]);
    draws.extend(vec![3, 5, 8, 8]);
    let mut game = GameMaster::new();
    game.initial_item_count = 0;
    game.initial_mob_count = 0;
    let mut rng = RandomSource::from_values(draws);
    game.initialize_level_from(40, 20, &mut rng);
    assert_eq!(game.static_map_manager.room_params.len(), 2);
    assert_eq!(game.get_player_position(), (30, 10));
    assert_eq!(game.get_goal_position(), (10, 10));
    assert_eq!(rng.remaining(), 2);
    assert_eq!(game.current_item_id_max, 0);

    // With one item and one mob asked for, each room gets 1 / 2 + 1 = 1
    // attempt. The item lands on (0 + 8 % 20, 0 + 8 % 20), the mob on
    // (0 + 25 % 20, 0 + 47 % 20).
    let mut draws = vec![0, 19];
    draws.extend(vec![0; 14]);
    draws.extend(vec![4, 7, 8, 8, 25, 47, 1, 1]);
    let mut game = GameMaster::new();
    game.initial_item_count = 1;
    game.initial_mob_count = 1;
    game.current_level = 3;
    let mut rng = RandomSource::from_values(draws);
    game.initialize_level_from(40, 20, &mut rng);
    assert_eq!(game.get_player_position(), (10, 10));
    assert_eq!(game.get_goal_position(), (30, 10));
    assert_eq!(game.get_dropped_item_positions(), vec![(8, 8)]);
    assert_eq!(game.get_dropped_item_ids(), vec![0]);
    assert_eq!(game.dynamic_map_manager.item_list[0].item, potion(10));
    assert_eq!(game.current_item_id_max, 1);
    assert_eq!(game.get_mob_positions(), vec![(5, 7)]);
    assert_eq!(game.get_mob_ids(), vec![0]);
    assert_eq!(game.dynamic_map_manager.mob_list[0].hp, 30);
    assert_eq!(rng.remaining(), 2);
}

#[test]
fn moderate_games_are_recognised() {
    let mut game = simple_game();
    game.dynamic_map_manager.mob_list.push(GameMob::new(0, 5, 4));
    game.player_attack();
    assert!(game.is_moderate());
    game.dynamic_map_manager.player.hp = 1_000_001;
    assert!(!game.is_moderate());
    game.dynamic_map_manager.player.hp = 1_000_000;
    assert!(game.is_moderate());
    game.dynamic_map_manager.mob_list[0].attack = -1_000_001;
    assert!(!game.is_moderate());
    game.dynamic_map_manager.mob_list[0].attack = 5;
    game.player_attack_info.push((0, 0, i32::MIN));
    assert!(!game.is_moderate());
    game.player_attack_info.clear();
    for id in 0..1000 {
        game.dynamic_map_manager.mob_list.push(GameMob::new(id + 2, 1, 1));
    }
    assert!(!game.is_moderate());
}

#[test]
fn try_process_runs_every_turn_that_fits() {
    // A moderate game.
    let mut game = simple_game();
    game.dynamic_map_manager.mob_list.push(GameMob::new(0, 5, 4));
    game.player_attack();
    assert!(game.try_process());
    assert_eq!(game.get_defeated_mob_ids(), vec![0]);

    // A game far beyond moderate values, whose turn still fits.
    let mut game = simple_game();
    game.dynamic_map_manager.player.hp = 2_000_000_000;
    game.dynamic_map_manager.player.max_hp = 2_000_000_000;
    game.dynamic_map_manager.player.attack = 1_500_000_000;
    let mut mob = GameMob::new(4, 5, 4);
    mob.hp = 2_000_000_000;
    mob.attack = 1_900_000_000;
    game.dynamic_map_manager.mob_list.push(mob);
    game.player_attack();
    assert!(!game.is_moderate());
    let rng = RandomSource::from_values(vec![1]);
    assert!(game.can_process_from(&rng));
    assert_eq!(rng.remaining(), 1);
    assert_eq!(game.dynamic_map_manager.mob_list[0].hp, 2_000_000_000);
    assert!(game.try_process());
    assert_eq!(game.dynamic_map_manager.mob_list[0].hp, 500_000_000);
    assert_eq!(game.dynamic_map_manager.player.hp, 100_000_000);
    assert_eq!(
        game.message,
        vec![
            Message::MobDamaged { id: 4, damage: 1_500_000_000 },
            Message::PlayerDamaged { id: 4, damage: 1_900_000_000 },
        ]
    );
}

#[test]
fn try_process_leaves_a_turn_that_does_not_fit() {
    // The attack of the mob would take the hit points below `i32::MIN`.
    let mut game = simple_game();
    game.dynamic_map_manager.player.hp = i32::MIN + 3;
    game.dynamic_map_manager.mob_list.push(GameMob::new(0, 5, 4));
    game.dynamic_map_manager.mob_list.push(GameMob::new(1, 8, 8));
    game.player_attack();
    let mut rng = RandomSource::from_values(vec![0, 7]);
    assert!(game.can_apply_player_attack_info_from(&rng));
    assert!(game.can_process_from(&rng));
    game.dynamic_map_manager.mob_list[0].hp = 11;
    assert!(!game.can_process_from(&rng));
    assert!(!game.try_process_from(&mut rng));
    assert!(!game.try_process());
    assert_eq!(rng.remaining(), 2);
    assert_eq!(game.player_attack_info, vec![(5, 4, 10)]);
    assert_eq!(game.get_mob_positions(), vec![(5, 4), (8, 8)]);
    assert_eq!(game.dynamic_map_manager.mob_list[0].hp, 11);
    assert_eq!(game.dynamic_map_manager.mob_list[0].direction, Direction::Up);
    assert_eq!(game.dynamic_map_manager.player.hp, i32::MIN + 3);
    assert!(game.message.is_empty());
    assert!(game.mob_attack_info.is_empty());
    // With three hit points more the same turn runs.
    game.dynamic_map_manager.player.hp = i32::MIN + 5;
    assert!(game.try_process_from(&mut rng));
    assert_eq!(game.dynamic_map_manager.player.hp, i32::MIN);
    assert_eq!(game.get_mob_positions(), vec![(5, 4), (8, 7)]);
    assert_eq!(rng.remaining(), 2);

    // The level-up would take `max_hp` beyond `i32::MAX`.
    let mut game = simple_game();
    game.dynamic_map_manager.player.max_hp = i32::MAX - 9;
    game.dynamic_map_manager.player.exp_point = 2;
    game.dynamic_map_manager.mob_list.push(GameMob::new(0, 5, 4));
    game.player_attack();
    assert!(!game.try_process());
    assert_eq!(game.get_mob_ids(), vec![0]);
    assert_eq!(game.dynamic_map_manager.player.exp_point, 2);
    game.dynamic_map_manager.player.max_hp = i32::MAX - 10;
    assert!(game.try_process());
    assert_eq!(game.dynamic_map_manager.player.max_hp, i32::MAX);
}

#[test]
fn attacks_of_the_player_can_be_tested_and_tried() {
    let mut game = simple_game();
    game.current_item_id_max = i32::MAX;
    game.dynamic_map_manager.mob_list.push(GameMob::new(3, 5, 4));
    game.player_attack();
    // A drop would need an id beyond `i32::MAX`: 30 % 100 is below 50.
    assert!(!game.can_hit((5, 4, 10), &RandomSource::from_values(vec![30])));
    assert!(game.can_hit((5, 4, 10), &RandomSource::from_values(vec![70])));
    assert!(game.can_hit((5, 4, 9), &RandomSource::from_values(vec![30])));
    assert!(game.can_hit((6, 6, i32::MIN), &RandomSource::from_values(vec![30])));
    assert!(!game.can_hit((5, 4, i32::MIN), &RandomSource::from_values(vec![70])));
    assert!(!game.can_apply_player_attack_info_from(&RandomSource::from_values(vec![30])));
    assert!(game.can_apply_player_attack_info_from(&RandomSource::from_values(vec![70])));
    game.mob_drop_item_probability = 0;
    assert!(game.try_apply_player_attack_info());
    assert_eq!(game.get_defeated_mob_ids(), vec![3]);
    game.mob_drop_item_probability = 100;
    game.dynamic_map_manager.mob_list.push(GameMob::new(4, 5, 4));
    game.player_attack();
    assert!(!game.try_apply_player_attack_info());
    assert_eq!(game.get_mob_ids(), vec![4]);
    assert_eq!(game.dynamic_map_manager.mob_list[0].hp, 10);
    assert_eq!(game.get_defeated_mob_ids(), vec![3]);
    assert_eq!(game.player_attack_info.len(), 1);
}

#[test]
fn mob_on_the_players_tile_keeps_its_direction() {
    let mut game = simple_game();
    game.static_map_manager.room_params[0].x = i32::MIN;
    game.static_map_manager.room_params[0].width = i32::MAX;
    game.dynamic_map_manager.player.position = (i32::MIN, 5);
    let mut mob = GameMob::new(0, i32::MIN, 5);
    mob.direction = Direction::Left;
    assert!(!mob.can_attack());
    game.dynamic_map_manager.mob_list.push(mob);
    assert!(!game.can_decide_mob_action());
    assert!(!game.try_process());
    game.dynamic_map_manager.mob_list[0].direction = Direction::Right;
    assert!(game.dynamic_map_manager.mob_list[0].can_attack());
    assert!(game.can_decide_mob_action());
    game.decideMobAction();
    assert_eq!(game.mob_attack_info, vec![(i32::MIN + 1, 5, 5, 0)]);
    assert_eq!(game.dynamic_map_manager.mob_list[0].direction, Direction::Right);
}

#[test]
fn snapshot_is_a_copy() {
    let mut game = simple_game();
    game.dynamic_map_manager.mob_list.push(GameMob::new(0, 5, 4));
    game.dynamic_map_manager.item_list.push(DroppedItem { id: 2, position: (3, 3), item: potion(4) });
    game.dynamic_map_manager.player.add_item(&potion(9));
    game.message.push(Message::LevelUp);
    game.player_attack();
    let copy = game.snapshot();
    game.process();
    assert_eq!(copy.get_mob_ids(), vec![0]);
    assert_eq!(copy.player_attack_info, vec![(5, 4, 10)]);
    assert_eq!(copy.message, vec![Message::LevelUp]);
    assert_eq!(copy.get_dropped_item_ids(), vec![2]);
    assert_eq!(copy.dynamic_map_manager.player.items[0], potion(9));
    assert_eq!(copy.static_map_manager.dungeon_map_2d, game.static_map_manager.dungeon_map_2d);
    assert_eq!(copy.static_map_manager.room_params, game.static_map_manager.room_params);
    assert_eq!(copy.dungeon_map_1d, game.dungeon_map_1d);
    assert_eq!((copy.dungeon_width, copy.current_level, copy.initial_mob_count), (12, 1, 10));
    assert!(game.get_mob_ids().is_empty());
}

#[test]
fn preconditions_can_be_tested() {
    let mut game = GameMaster::new();
    assert!(game.can_initialize_level(64, 64));
    assert!(game.can_initialize_level(0, 0));
    assert!(game.can_initialize_level(46340, 46340));
    assert!(!game.can_initialize_level(46341, 46341));
    assert!(!game.can_initialize_level(-1, 5));
    assert!(!game.can_initialize_level(5, -1));
    game.current_level = 214_748_365;
    assert!(!game.can_initialize_level(64, 64));
    game.initial_mob_count = 0;
    assert!(game.can_initialize_level(64, 64));

    let player = &mut game.dynamic_map_manager.player;
    assert!(player.can_attack() && player.can_use_item() && player.can_check_level_up());
    player.position = (0, i32::MIN);
    assert!(!player.can_attack());
    player.direction = Direction::Down;
    assert!(player.can_attack());
    player.add_item(&GameItem::Sword(Sword { attack_bonus: i32::MAX }));
    assert!(!player.can_attack());
    player.items[0] = potion(i32::MAX);
    assert!(!player.can_use_item());
    player.hp = 0;
    assert!(player.can_use_item());
    player.level = i32::MAX;
    assert!(player.can_check_level_up());
    player.level = 0;
    player.max_hp = i32::MAX - 9;
    assert!(!player.can_check_level_up());
    player.exp_point = -1;
    assert!(player.can_check_level_up());
}

#[test]
fn mobs_act_on_the_last_interior_row_and_column() {
    let mut game = simple_game();
    game.dynamic_map_manager.player.position = (10, 10);
    game.dynamic_map_manager.mob_list.push(GameMob::new(0, 10, 9));
    game.dynamic_map_manager.mob_list.push(GameMob::new(1, 6, 10));
    game.decideMobAction();
    assert_eq!(game.mob_attack_info, vec![(10, 10, 5, 0)]);
    assert_eq!(game.get_mob_positions(), vec![(10, 9), (7, 10)]);
}
