use roguelike_extension::dynamic_map::DynamicMapManager;
use roguelike_extension::item::DroppedItem;
use roguelike_extension::item::GameItem;
use roguelike_extension::item::HealthPotion;
use roguelike_extension::item::Shield;
use roguelike_extension::item::SideEffect;
use roguelike_extension::item::Sword;
use roguelike_extension::mob::GameMob;
use roguelike_extension::player::Direction;
use roguelike_extension::player::GamePlayer;

#[test]
fn mob_test_new() {
    let mob = GameMob::new(1, 10, 20);
    assert_eq!(mob.id, 1);
    assert_eq!(mob.position, (10, 20));
    assert_eq!(mob.direction, Direction::Up);
    assert_eq!(mob.hp, 10);
    assert_eq!(mob.attack, 5);
    assert_eq!(mob.defense, 2);
    assert_eq!(mob.exp_point, 1);
}

#[test]
fn mob_test_attack() {
    let mob = GameMob::new(1, 10, 20);
    let mut result = vec![];
    mob.attack(&mut result);
    assert_eq!(result.len(), 1);
    assert_eq!(result[0], (10, 19, 5));
}

#[test]
fn player_test_new() {
    let player = GamePlayer::new();
    assert_eq!(player.position, (0, 0));
    assert_eq!(player.direction, Direction::Up);
    assert_eq!(player.max_hp, 100);
    assert_eq!(player.hp, 100);
    assert_eq!(player.attack, 10);
    assert_eq!(player.defense, 5);
    assert_eq!(player.items.len(), 8);
    assert_eq!(player.active_item_index, 0);
    assert_eq!(player.exp_point, 0);
    assert_eq!(player.level, 1);
}

#[test]
fn test_init_items() {
    let mut player = GamePlayer::new();
    player.init_items(8);
    assert_eq!(player.items.len(), 8);
    for i in 0..8 {
        assert_eq!(player.items[i], GameItem::Null);
    }
}

#[test]
fn test_add_item() {
    let mut player = GamePlayer::new();
    player.init_items(8);
    let item = GameItem::HealthPotion(HealthPotion { heal_amount: 10 });
    assert_eq!(player.add_item(&item), true);
    assert_eq!(player.items[0], GameItem::HealthPotion(HealthPotion { heal_amount: 10 }));
    let item = GameItem::HealthPotion(HealthPotion { heal_amount: 10 });
    assert_eq!(player.add_item(&item), true);
    assert_eq!(player.items[1], GameItem::HealthPotion(HealthPotion { heal_amount: 10 }));
    let item = GameItem::HealthPotion(HealthPotion { heal_amount: 10 });
    assert_eq!(player.add_item(&item), true);
    assert_eq!(player.items[2], GameItem::HealthPotion(HealthPotion { heal_amount: 10 }));
    let item = GameItem::HealthPotion(HealthPotion { heal_amount: 10 });
    assert_eq!(player.add_item(&item), true);
    assert_eq!(player.items[3], GameItem::HealthPotion(HealthPotion { heal_amount: 10 }));
}

#[test]
fn test_select_item() {
    let mut player = GamePlayer::new();
    player.init_items(8);
    player.select_item(0);
    assert_eq!(player.active_item_index, 0);
    player.select_item(1);
    assert_eq!(player.active_item_index, 1);
    player.select_item(2);
    assert_eq!(player.active_item_index, 2);
    player.select_item(3);
    assert_eq!(player.active_item_index, 3);
}

#[test]
fn test_use_item() {
    let mut player = GamePlayer::new();
    player.init_items(8);

    let item = GameItem::HealthPotion(HealthPotion { heal_amount: 10 });
    player.add_item(&item);
    player.select_item(0);
    assert_eq!(player.use_item(), SideEffect::Nothing);
    assert_eq!(player.items[0], GameItem::Null);

    player.select_item(0);
    assert_eq!(player.use_item(), SideEffect::Fault);
}

#[test]
fn player_test_attack() {
    let mut player = GamePlayer::new();
    player.position = (5, 5);
    let mut result = vec![];
    player.attack(&mut result);
    assert_eq!(result.len(), 1);
    assert_eq!(result[0], (5, 4, 10));
}

#[test]
fn test_check_level_up() {
    let mut player = GamePlayer::new();
    player.exp_point = 0;
    player.level = 1;
    assert_eq!(player.check_level_up(), false);
    player.exp_point = 3;
    player.level = 1;
    assert_eq!(player.check_level_up(), true);
    assert_eq!(player.exp_point, 0);
    assert_eq!(player.level, 2);
    assert_eq!(player.max_hp, 110);
    assert_eq!(player.hp, 100);
    assert_eq!(player.attack, 12);
    assert_eq!(player.defense, 6);
}

#[test]
fn test_check_level_up_with_heal() {
    let mut player = GamePlayer::new();
    player.is_heal_when_level_up = true;
    player.exp_point = 3;
    player.level = 1;
    assert_eq!(player.check_level_up(), true);
    assert_eq!(player.exp_point, 0);
    assert_eq!(player.level, 2);
    assert_eq!(player.max_hp, 110);
    assert_eq!(player.hp, 110);
    assert_eq!(player.attack, 12);
    assert_eq!(player.defense, 6);
}

#[test]
fn inventory_fills_from_the_front_and_rejects_a_ninth_item() {
    let mut player = GamePlayer::new();
    for i in 0..8 {
        let item = GameItem::Sword(Sword { attack_bonus: i });
        assert!(player.add_item(&item));
        assert_eq!(player.items[i as usize], item);
        for later in (i as usize + 1)..8 {
            assert_eq!(player.items[later], GameItem::Null);
        }
    }
    let before = player.items.clone();
    assert!(!player.add_item(&GameItem::Shield(Shield { defense_bonus: 1 })));
    assert_eq!(player.items, before);
}

#[test]
fn add_item_takes_the_first_gap() {
    let mut player = GamePlayer::new();
    player.init_items(3);
    let potion = GameItem::HealthPotion(HealthPotion { heal_amount: 1 });
    let sword = GameItem::Sword(Sword { attack_bonus: 2 });
    player.items[0] = potion;
    player.items[2] = potion;
    assert!(player.add_item(&sword));
    assert_eq!(player.items, vec![potion, sword, potion]);
    player.init_items(0);
    assert!(!player.add_item(&sword));
    assert!(player.items.is_empty());
}

#[test]
fn select_item_ignores_a_slot_that_is_not_there() {
    let mut player = GamePlayer::new();
    player.select_item(7);
    assert_eq!(player.active_item_index, 7);
    player.select_item(8);
    assert_eq!(player.active_item_index, 7);
}

#[test]
fn potion_heals_up_to_max_hp() {
    let mut player = GamePlayer::new();
    player.hp = 95;
    player.add_item(&GameItem::HealthPotion(HealthPotion { heal_amount: 10 }));
    assert_eq!(player.use_item(), SideEffect::Nothing);
    assert_eq!(player.hp, 100);
    player.hp = 50;
    player.add_item(&GameItem::HealthPotion(HealthPotion { heal_amount: 10 }));
    assert_eq!(player.use_item(), SideEffect::Nothing);
    assert_eq!(player.hp, 60);
}

#[test]
fn other_items_cannot_be_used() {
    let mut player = GamePlayer::new();
    let sword = GameItem::Sword(Sword { attack_bonus: 3 });
    let shield = GameItem::Shield(Shield { defense_bonus: 3 });
    player.add_item(&sword);
    player.add_item(&shield);
    player.hp = 10;
    assert_eq!(player.use_item(), SideEffect::Fault);
    player.select_item(1);
    assert_eq!(player.use_item(), SideEffect::Fault);
    assert_eq!(player.items[0], sword);
    assert_eq!(player.items[1], shield);
    assert_eq!(player.hp, 10);
    player.init_items(0);
    assert_eq!(player.use_item(), SideEffect::Fault);
}

#[test]
fn sword_in_the_active_slot_adds_to_the_damage() {
    let mut player = GamePlayer::new();
    player.position = (5, 5);
    player.add_item(&GameItem::Shield(Shield { defense_bonus: 9 }));
    player.add_item(&GameItem::Sword(Sword { attack_bonus: 4 }));
    let mut result = vec![];
    player.attack(&mut result);
    player.select_item(1);
    player.attack(&mut result);
    assert_eq!(result, vec![(5, 4, 10), (5, 4, 14)]);
}

#[test]
fn attack_aims_one_step_in_each_direction() {
    let expected = [
        (Direction::Up, (5, 4)),
        (Direction::UpRight, (6, 4)),
        (Direction::Right, (6, 5)),
        (Direction::DownRight, (6, 6)),
        (Direction::Down, (5, 6)),
        (Direction::DownLeft, (4, 6)),
        (Direction::Left, (4, 5)),
        (Direction::UpLeft, (4, 4)),
    ];
    for (code, (direction, target)) in expected.iter().enumerate() {
        let mut player = GamePlayer::new();
        player.position = (5, 5);
        player.direction = *direction;
        let mut result = vec![];
        player.attack(&mut result);
        assert_eq!(result, vec![(target.0, target.1, 10)]);
        let mut mob = GameMob::new(3, 5, 5);
        mob.direction = *direction;
        let mut result = vec![];
        mob.attack(&mut result);
        assert_eq!(result, vec![(target.0, target.1, 5)]);
        assert_eq!(direction.to_code(), code as i32);
        assert_eq!(Direction::from_code(code as i32), *direction);
    }
    assert_eq!(Direction::from_code(8), Direction::Up);
    assert_eq!(Direction::from_code(-1), Direction::Up);
}

#[test]
fn level_up_needs_three_times_the_level() {
    let mut player = GamePlayer::new();
    player.level = 2;
    player.exp_point = 5;
    assert!(!player.check_level_up());
    assert_eq!((player.level, player.exp_point, player.max_hp), (2, 5, 100));
    player.exp_point = 9;
    assert!(player.check_level_up());
    assert_eq!((player.level, player.exp_point, player.max_hp), (3, 0, 110));
    // One check raises the level once, whatever the experience was.
    assert!(!player.check_level_up());
    assert_eq!(player.level, 3);
}

#[test]
fn mobs_grow_with_the_level() {
    let mob = GameMob::new_from_level(4, 1, 2, 3);
    assert_eq!((mob.hp, mob.attack, mob.defense, mob.exp_point), (30, 15, 6, 3));
    assert_eq!((mob.id, mob.position, mob.direction), (4, (1, 2), Direction::Up));
    let mob = GameMob::new_from_status(5, 3, 4, 9, 8, 7, 6);
    assert_eq!((mob.hp, mob.attack, mob.defense, mob.exp_point), (9, 8, 7, 6));
    assert_eq!((mob.id, mob.position, mob.direction), (5, (3, 4), Direction::Up));
}

#[test]
fn dynamic_map_clear_keeps_player_and_goal() {
    let mut map = DynamicMapManager::new();
    assert_eq!(map.goal_position, (0, 0));
    assert!(map.item_list.is_empty() && map.mob_list.is_empty() && map.defeated_mob_id.is_empty());
    map.player.hp = 42;
    map.goal_position = (3, 4);
    map.mob_list.push(GameMob::new(0, 1, 1));
    map.item_list.push(DroppedItem { id: 0, position: (2, 2), item: GameItem::Null });
    map.defeated_mob_id.push(7);
    map.clear();
    assert!(map.item_list.is_empty() && map.mob_list.is_empty() && map.defeated_mob_id.is_empty());
    assert_eq!(map.player.hp, 42);
    assert_eq!(map.goal_position, (3, 4));
}
