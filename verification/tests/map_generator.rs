use roguelike_extension::map_generator::generate_bsp_tree;
use roguelike_extension::map_generator::generate_bsp_tree_from;
use roguelike_extension::map_generator::generate_dungeon;
use roguelike_extension::map_generator::generate_dungeon_from;
use roguelike_extension::map_generator::BSPNodeParams;
use roguelike_extension::map_generator::BSPTree;
use roguelike_extension::map_generator::Direction;
use roguelike_extension::random::RandomSource;
use roguelike_extension::static_map::StaticMapManager;

fn check_tree_params(tree: &BSPTree) {
    match tree {
        BSPTree::Node { value, left, right } => {
            assert_eq!(value.room_center_x, (value.x + value.width / 2));
            assert_eq!(value.room_center_y, (value.y + value.height / 2));
            check_tree_params(left);
            check_tree_params(right);
        }
        BSPTree::Nil => {
            println!("^ this is terminal node.");
        }
    }
}

fn check_paired(tree: &BSPTree) {
    if let BSPTree::Node { left, right, .. } = tree {
        assert_eq!(matches!(**left, BSPTree::Nil), matches!(**right, BSPTree::Nil));
        check_paired(left);
        check_paired(right);
    }
}

fn count_nodes(tree: &BSPTree) -> usize {
    match tree {
        BSPTree::Node { left, right, .. } => 1 + count_nodes(left) + count_nodes(right),
        BSPTree::Nil => 0,
    }
}

fn params(x: i32, y: i32, width: i32, height: i32, connect_to: Direction) -> BSPNodeParams {
    BSPNodeParams {
        x,
        y,
        width,
        height,
        room_center_x: x + width / 2,
        room_center_y: y + height / 2,
        connect_to,
    }
}

#[test]
fn test_generate_bsp_tree() {
    let tree = generate_bsp_tree(0, 0, 64, 64, Direction::Nowhere, 0);
    check_tree_params(&tree);
}

#[test]
fn map_generator_test_generate_dungeon() {
    let (dungeon, room_params) = generate_dungeon(64, 64);
    assert_eq!(dungeon.len(), 64);
    for i in 0..64 {
        assert_eq!(dungeon[i].len(), 64);
    }
    for i in 0..64 {
        for j in 0..64 {
            assert!(dungeon[i][j] == 0 || dungeon[i][j] == 1);
        }
    }
    for room in room_params {
        assert!(room.width >= 16);
        assert!(room.height >= 16);
        assert_eq!(room.room_center_x, room.x + room.width / 2);
        assert_eq!(room.room_center_y, room.y + room.height / 2);
    }
}

#[test]
fn test_static_map_manager() {
    let mut manager = StaticMapManager::new(10, 10);
    manager.generate_simple_map(10, 10);
    assert_eq!(manager.dungeon_map_2d[0][0], 1);
    assert_eq!(manager.dungeon_map_2d[9][9], 1);
    assert_eq!(manager.dungeon_map_2d[5][5], 0);
}

#[test]
fn static_map_test_generate_dungeon() {
    let mut manager = StaticMapManager::new(64, 64);
    manager.generate_dungeon(64, 64);
    assert_eq!(manager.dungeon_map_2d.len(), 64);
}

#[test]
fn random_trees_are_paired() {
    for _ in 0..50 {
        let tree = generate_bsp_tree(0, 0, 100, 80, Direction::Nowhere, 0);
        check_paired(&tree);
        assert!(count_nodes(&tree) >= 1);
        assert!(count_nodes(&tree) <= 15);
    }
}

#[test]
fn small_or_deep_rectangles_give_nil() {
    assert!(matches!(generate_bsp_tree(0, 0, 15, 64, Direction::Nowhere, 0), BSPTree::Nil));
    assert!(matches!(generate_bsp_tree(0, 0, 64, 15, Direction::Nowhere, 0), BSPTree::Nil));
    assert!(matches!(generate_bsp_tree(0, 0, 64, 64, Direction::Nowhere, 4), BSPTree::Nil));
    assert!(matches!(generate_bsp_tree(0, 0, 16, 16, Direction::Nowhere, 3), BSPTree::Node { .. }));
}

#[test]
fn tree_from_known_draws() {
    // The root is cut across x (the draw 0 is even) at 1 + 19 % 62 = 20.
    // Each half is cut across y (the draw 1 is odd): at 1 + 5 % 30 = 6,
    // which is moved up to 16. The four quarters are too deep to have
    // children of their own size, so they stay rooms.
    let draws = vec![0, 19, 1, 5, 0, 0, 0, 0, 1, 5, 0, 0, 0, 0];
    let mut rng = RandomSource::from_values(draws);
    let tree = generate_bsp_tree_from(0, 0, 64, 32, Direction::Nowhere, 2, &mut rng);
    match tree {
        BSPTree::Node { value, left, right } => {
            assert_eq!(value, params(0, 0, 64, 32, Direction::Nowhere));
            match (*left, *right) {
                (
                    BSPTree::Node { value: a, left: a_left, right: a_right },
                    BSPTree::Node { value: b, left: b_left, right: b_right },
                ) => {
                    assert_eq!(a, params(0, 0, 20, 32, Direction::East));
                    assert_eq!(b, params(20, 0, 44, 32, Direction::West));
                    assert!(matches!(*a_left, BSPTree::Nil));
                    assert!(matches!(*a_right, BSPTree::Nil));
                    assert!(matches!(*b_left, BSPTree::Nil));
                    assert!(matches!(*b_right, BSPTree::Nil));
                }
                _ => panic!("the root has two children"),
            }
        }
        BSPTree::Nil => panic!("the root is a node"),
    }
    // Root, left half and right half took two draws each.
    assert_eq!(rng.remaining(), 8);
}

#[test]
fn lopsided_split_is_dropped() {
    // A rectangle of 40 by 16 is cut across x at 16: the left half of 16 is
    // a node, the right half of 24 as well, so both stay. One of 31 by 16
    // is cut at 16 too, and the right half of 15 is too narrow: both go.
    let mut rng = RandomSource::from_values(vec![0, 0, 0, 0, 0, 0]);
    let tree = generate_bsp_tree_from(0, 0, 31, 16, Direction::Nowhere, 0, &mut rng);
    match tree {
        BSPTree::Node { value, left, right } => {
            assert_eq!(value, params(0, 0, 31, 16, Direction::Nowhere));
            assert!(matches!(*left, BSPTree::Nil));
            assert!(matches!(*right, BSPTree::Nil));
        }
        BSPTree::Nil => panic!("the root is a node"),
    }
}

#[test]
fn same_draws_same_dungeon() {
    let draws: Vec<u32> = (0..60).map(|i: u32| i.wrapping_mul(2654435761) >> 7).collect();
    let mut first = RandomSource::from_values(draws.clone());
    let mut second = RandomSource::from_values(draws);
    let (grid_a, rooms_a) = generate_dungeon_from(80, 70, &mut first);
    let (grid_b, rooms_b) = generate_dungeon_from(80, 70, &mut second);
    assert_eq!(grid_a, grid_b);
    assert_eq!(rooms_a, rooms_b);
    assert_eq!(first.remaining(), second.remaining());
}

#[test]
fn single_room_dungeon() {
    // 20 by 20 cannot be split in two rooms. The root and the three
    // rectangles that are tried below it take two draws each; the ninth
    // draw gives the one room a border of 2 + 7 % 3 = 3 tiles.
    let mut rng = RandomSource::from_values(vec![1, 1, 1, 1, 1, 1, 1, 1, 7]);
    let (grid, rooms) = generate_dungeon_from(20, 20, &mut rng);
    assert_eq!(rooms, vec![params(0, 0, 20, 20, Direction::Nowhere)]);
    assert_eq!(rng.remaining(), 0);
    for x in 0..20 {
        for y in 0..20 {
            let inside = (3..17).contains(&x) && (3..17).contains(&y);
            assert_eq!(grid[x][y], if inside { 0 } else { 1 }, "tile ({}, {})", x, y);
        }
    }
}

#[test]
fn two_rooms_are_connected() {
    // 40 by 20, cut across x at 1 + 19 % 38 = 20. Both halves are 20 wide
    // and cannot be split again. Borders: 2 + 0 % 3 = 2 for both.
    let mut rng = RandomSource::from_values(vec![0, 19, 0, 0, 0, 0, 0, 0]);
    let (grid, rooms) = generate_dungeon_from(40, 20, &mut rng);
    assert_eq!(
        rooms,
        vec![
            BSPNodeParams { connect_to: Direction::Nowhere, ..params(0, 0, 20, 20, Direction::East) },
            BSPNodeParams { connect_to: Direction::Nowhere, ..params(20, 0, 20, 20, Direction::West) },
        ]
    );
    // The corridor runs along y = 10 from the centre of the left room to
    // that of the right one.
    for x in 10..=30 {
        assert_eq!(grid[x][10], 0, "corridor tile ({}, 10)", x);
    }
    // The wall between the rooms stands everywhere else.
    for y in 0..20 {
        if y != 10 {
            for x in 18..22 {
                assert_eq!(grid[x][y], 1, "wall tile ({}, {})", x, y);
            }
        }
    }
    assert_eq!(grid[2][2], 0);
    assert_eq!(grid[1][1], 1);
    assert_eq!(grid[37][17], 0);
    assert_eq!(grid[38][18], 1);
}

#[test]
fn empty_dungeon() {
    let (grid, rooms) = generate_dungeon(0, 0);
    assert!(grid.is_empty());
    assert!(rooms.is_empty());
    let (grid, rooms) = generate_dungeon(10, 10);
    assert_eq!(grid.len(), 10);
    assert!(rooms.is_empty());
    assert!(grid.iter().all(|column| column.iter().all(|tile| *tile == 1)));
}

#[test]
fn simple_map_has_one_room() {
    let mut manager = StaticMapManager::new(3, 3);
    manager.generate_simple_map(12, 8);
    assert_eq!(manager.dungeon_width, 12);
    assert_eq!(manager.dungeon_height, 8);
    assert_eq!(manager.room_params.len(), 1);
    let room = manager.room_params[0];
    assert_eq!((room.x, room.y, room.width, room.height), (1, 1, 10, 6));
    assert_eq!((room.room_center_x, room.room_center_y), (6, 4));
    assert_eq!(room.room_center_x, room.x + room.width / 2);
    assert_eq!(room.room_center_y, room.y + room.height / 2);
    assert_eq!(room.connect_to, Direction::Nowhere);
    for x in 0..12 {
        for y in 0..8 {
            let edge = x == 0 || x == 11 || y == 0 || y == 7;
            assert_eq!(manager.dungeon_map_2d[x][y], if edge { 1 } else { 0 });
        }
    }
    assert!(manager.is_floor(1, 1));
    assert!(!manager.is_floor(0, 0));
    assert!(!manager.is_floor(-1, 3));
    assert!(!manager.is_floor(12, 3));
    // The room holds every floor tile and no wall tile.
    for x in 0..12 {
        for y in 0..8 {
            assert_eq!(manager.in_same_room((x, y), (x, y)), manager.is_floor(x, y));
        }
    }
    assert!(manager.in_same_room((1, 1), (10, 6)));
    assert!(!manager.in_same_room((1, 1), (0, 5)));
    assert!(!manager.in_same_room((1, 1), (11, 5)));
    assert!(!manager.in_same_room((1, 1), (5, 7)));
}

#[test]
fn simple_maps_without_interior() {
    let mut manager = StaticMapManager::new(3, 3);
    for (width, height) in [(0, 0), (0, 5), (5, 0), (1, 1), (2, 2), (1, 4), (3, 1)] {
        manager.generate_simple_map(width, height);
        assert_eq!((manager.dungeon_width, manager.dungeon_height), (width, height));
        assert_eq!(manager.dungeon_map_2d.len(), width as usize);
        assert!(manager.dungeon_map_2d.iter().all(|column| column.len() == height as usize));
        assert!(manager.dungeon_map_2d.iter().all(|column| column.iter().all(|tile| *tile == 1)));
        assert_eq!(manager.room_params.len(), 1);
        let room = manager.room_params[0];
        assert_eq!((room.x, room.y, room.width, room.height), (1, 1, width - 2, height - 2));
        assert_eq!((room.room_center_x, room.room_center_y), (width / 2, height / 2));
    }
    manager.generate_simple_map(3, 3);
    assert_eq!(manager.dungeon_map_2d[1][1], 0);
    assert_eq!(manager.room_params[0].room_center_x, 1);
    assert!(manager.in_same_room((1, 1), (1, 1)));
}

#[test]
fn new_static_map_is_floor() {
    let manager = StaticMapManager::new(4, 5);
    assert_eq!(manager.dungeon_map_2d, vec![vec![0; 5]; 4]);
    assert!(manager.room_params.is_empty());
}

#[test]
fn random_source_hands_out_in_order() {
    let mut rng = RandomSource::from_values(vec![7, 8, 9]);
    assert_eq!(rng.remaining(), 3);
    assert_eq!(rng.next_u32(), 7);
    assert_eq!(rng.next_u32(), 8);
    rng.refill(1);
    assert_eq!(rng.remaining(), 1);
    assert_eq!(rng.next_u32(), 9);
    assert_eq!(rng.next_u32(), 0);
    assert_eq!(rng.remaining(), 0);
    rng.refill(5);
    assert_eq!(rng.remaining(), 5);
    let mut fresh = RandomSource::new();
    assert_eq!(fresh.next_u32(), 0);
}

#[test]
fn refill_draws_differ() {
    let mut rng = RandomSource::new();
    rng.refill(64);
    let mut values = Vec::new();
    for _ in 0..64 {
        values.push(rng.next_u32());
    }
    assert!(values.iter().any(|value| *value != values[0]));
}

#[test]
fn source_can_be_peeked_and_forked() {
    let mut rng = RandomSource::from_values(vec![4, 5, 6]);
    assert_eq!(rng.peek(), 4);
    assert_eq!(rng.next_u32(), 4);
    let mut copy = rng.fork();
    assert_eq!(copy.remaining(), 2);
    assert_eq!(copy.next_u32(), 5);
    assert_eq!(copy.next_u32(), 6);
    assert_eq!(copy.peek(), 0);
    assert_eq!(rng.remaining(), 2);
    assert_eq!(rng.peek(), 5);
}

#[test]
fn trees_below_level_zero_are_deeper() {
    let mut most = 0;
    for _ in 0..20 {
        let tree = generate_bsp_tree(0, 0, 2000, 2000, Direction::Nowhere, -3);
        check_paired(&tree);
        check_tree_params(&tree);
        let nodes = count_nodes(&tree);
        assert!(nodes >= 1 && nodes <= 127);
        most = most.max(nodes);
    }
    // Seven levels of nodes: with so much room nearly every cut keeps both
    // halves, far more than the fifteen nodes of a tree from level 0.
    assert!(most > 15);
}
