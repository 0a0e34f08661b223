//! Dungeon generation by binary space partitioning.
//!
//! A rectangle is split recursively into a binary tree of rectangles. The
//! rectangles that were not split further become rooms, and siblings are
//! joined by corridors. Every random decision is taken from a
//! `RandomSource`, so the dungeon is a function of the requested size and of
//! the draws.

use vstd::prelude::*;
use crate::random::RandomSource;
use crate::random::first_draw;
use crate::random::rest_draws;
use crate::random::lemma_rest_draws_twice;
use crate::grid::FLOOR;
use crate::grid::WALL;
use crate::grid::is_binary;
use crate::grid::is_grid;
use crate::grid::new_grid;
use crate::grid::carve_rect;
use crate::grid::in_rect;
use crate::grid::is_rectangular;
use crate::grid::on_grid;
use crate::grid::rows;
use crate::grid::same_shape;
use crate::grid::tiles;

verus! {

/// No rectangle narrower or lower than this is split off.
pub const MIN_ROOM_SIZE: i32 = 16;

/// The deepest level at which a rectangle is still a node of the tree; the
/// root is at level 0.
pub const MAX_LEVEL: i32 = 3;

/// The side of a rectangle on which its sibling lies.
#[derive(Debug, Clone, Copy, PartialEq, Eq, Structural)]
pub enum Direction {
    North,
    South,
    East,
    West,
    /// The rectangle has no sibling: it is the root, or a room in the list
    /// of rooms.
    Nowhere,
}

/// A rectangle of the partition, the point that stands for it when
/// corridors are drawn, and the side on which its sibling lies.
#[derive(Debug, Clone, Copy, PartialEq, Eq, Structural)]
pub struct BSPNodeParams {
    pub x: i32,
    pub y: i32,
    pub width: i32,
    pub height: i32,
    pub room_center_x: i32,
    pub room_center_y: i32,
    pub connect_to: Direction,
}

/// The partition tree.
pub enum BSPTree {
    Node { value: BSPNodeParams, left: Box<BSPTree>, right: Box<BSPTree> },
    Nil,
}

/// The parameters of a freshly made node: the rectangle, with its own
/// middle as centre.
pub open spec fn node_params(x: i32, y: i32, width: i32, height: i32, connect_to: Direction) -> BSPNodeParams {
    BSPNodeParams {
        x,
        y,
        width,
        height,
        room_center_x: (x + width / 2) as i32,
        room_center_y: (y + height / 2) as i32,
        connect_to,
    }
}

/// Whether a rectangle of this size at this level becomes a node.
pub open spec fn splits(width: i32, height: i32, level: i32) -> bool {
    width >= MIN_ROOM_SIZE && height >= MIN_ROOM_SIZE && level <= MAX_LEVEL
}

/// How far from the near edge a rectangle of the given extent is cut: a
/// value in `1..=extent - 2` chosen by `draw`, moved into
/// `MIN_ROOM_SIZE..=extent - MIN_ROOM_SIZE`, and to `MIN_ROOM_SIZE` where
/// that range is empty.
#[verifier::opaque]
pub open spec fn split_offset(extent: int, draw: u32) -> int {
    let raw = 1 + (draw as int) % (extent - 2);
    let capped = if raw < extent - MIN_ROOM_SIZE { raw } else { extent - MIN_ROOM_SIZE };
    if capped > MIN_ROOM_SIZE { capped } else { MIN_ROOM_SIZE as int }
}

/// Whether `draw` asks for a cut across the x axis (into a west and an east
/// half) rather than across the y axis.
pub open spec fn cuts_x(draw: u32) -> bool {
    draw % 2 == 0
}

/// The half with the smaller coordinates: position, size and tag.
pub open spec fn first_half(x: i32, y: i32, width: i32, height: i32, coin: u32, roll: u32) -> BSPNodeParams {
    if cuts_x(coin) {
        node_params(x, y, split_offset(width as int, roll) as i32, height, Direction::East)
    } else {
        node_params(x, y, width, split_offset(height as int, roll) as i32, Direction::South)
    }
}

/// The half with the larger coordinates: position, size and tag.
pub open spec fn second_half(x: i32, y: i32, width: i32, height: i32, coin: u32, roll: u32) -> BSPNodeParams {
    if cuts_x(coin) {
        let offset = split_offset(width as int, roll);
        node_params((x + offset) as i32, y, (width - offset) as i32, height, Direction::West)
    } else {
        let offset = split_offset(height as int, roll);
        node_params(x, (y + offset) as i32, width, (height - offset) as i32, Direction::North)
    }
}

/// The number of draws that building the tree for a rectangle takes: two
/// for each rectangle that becomes a node, also for those that are
/// discarded afterwards.
pub open spec fn bsp_draws(x: i32, y: i32, width: i32, height: i32, level: i32, draws: Seq<u32>) -> nat
    decreases MAX_LEVEL + 1 - level,
{
    if !splits(width, height, level) {
        0
    } else {
        let coin = first_draw(draws);
        let roll = first_draw(rest_draws(draws, 1));
        let first = first_half(x, y, width, height, coin, roll);
        let second = second_half(x, y, width, height, coin, roll);
        let below = rest_draws(draws, 2);
        let used = bsp_draws(first.x, first.y, first.width, first.height, (level + 1) as i32, below);
        2 + used + bsp_draws(
            second.x,
            second.y,
            second.width,
            second.height,
            (level + 1) as i32,
            rest_draws(below, used),
        )
    }
}

/// The tree for a rectangle. A rectangle that is too small or too deep
/// gives `Nil`. Any other is cut in two by the first two draws, the halves
/// are built from the draws that follow, and if either half gives `Nil`
/// both are dropped.
pub open spec fn bsp_tree_of(
    x: i32,
    y: i32,
    width: i32,
    height: i32,
    connect_to: Direction,
    level: i32,
    draws: Seq<u32>,
) -> BSPTree
    decreases MAX_LEVEL + 1 - level,
{
    if !splits(width, height, level) {
        BSPTree::Nil
    } else {
        let coin = first_draw(draws);
        let roll = first_draw(rest_draws(draws, 1));
        let first = first_half(x, y, width, height, coin, roll);
        let second = second_half(x, y, width, height, coin, roll);
        let below = rest_draws(draws, 2);
        let used = bsp_draws(first.x, first.y, first.width, first.height, (level + 1) as i32, below);
        let left = bsp_tree_of(
            first.x,
            first.y,
            first.width,
            first.height,
            first.connect_to,
            (level + 1) as i32,
            below,
        );
        let right = bsp_tree_of(
            second.x,
            second.y,
            second.width,
            second.height,
            second.connect_to,
            (level + 1) as i32,
            rest_draws(below, used),
        );
        let both = left is Node && right is Node;
        BSPTree::Node {
            value: node_params(x, y, width, height, connect_to),
            left: Box::new(if both { left } else { BSPTree::Nil }),
            right: Box::new(if both { right } else { BSPTree::Nil }),
        }
    }
}

impl BSPTree {
    /// Whether no node of the tree has exactly one `Nil` child.
    pub open spec fn is_paired(self) -> bool
        decreases self,
    {
        match self {
            BSPTree::Nil => true,
            BSPTree::Node { value, left, right } => {
                &&& (*left is Nil <==> *right is Nil)
                &&& left.is_paired()
                &&& right.is_paired()
            },
        }
    }

    /// Whether every rectangle of the tree, and every centre, lies on a
    /// grid of the given size.
    pub open spec fn fits(self, grid_width: int, grid_height: int) -> bool
        decreases self,
    {
        match self {
            BSPTree::Nil => true,
            BSPTree::Node { value, left, right } => {
                &&& value.fits(grid_width, grid_height)
                &&& left.fits(grid_width, grid_height)
                &&& right.fits(grid_width, grid_height)
            },
        }
    }

    /// Whether every room of the tree is at least `MIN_ROOM_SIZE` wide and
    /// high and has its centre in its own middle.
    pub open spec fn has_regular_rooms(self) -> bool
        decreases self,
    {
        match self {
            BSPTree::Nil => true,
            BSPTree::Node { value, left, right } => {
                &&& *left is Nil ==> value.is_regular_room()
                &&& left.has_regular_rooms()
                &&& right.has_regular_rooms()
            },
        }
    }
}

impl BSPNodeParams {
    /// Whether the rectangle and the centre lie on a grid of the given size.
    pub open spec fn fits(self, grid_width: int, grid_height: int) -> bool {
        &&& 0 <= self.x
        &&& 0 <= self.y
        &&& 0 < self.width
        &&& 0 < self.height
        &&& self.x + self.width <= grid_width
        &&& self.y + self.height <= grid_height
        &&& 0 <= self.room_center_x < grid_width
        &&& 0 <= self.room_center_y < grid_height
    }

    /// Whether the rectangle, which may be empty, and the centre lie on a
    /// grid of the given size.
    pub open spec fn lies_on(self, grid_width: int, grid_height: int) -> bool {
        &&& 0 <= self.x
        &&& 0 <= self.y
        &&& 0 <= self.width
        &&& 0 <= self.height
        &&& self.x + self.width <= grid_width
        &&& self.y + self.height <= grid_height
        &&& 0 <= self.room_center_x < grid_width
        &&& 0 <= self.room_center_y < grid_height
    }

    /// Whether the rectangle is large enough for a room and the centre is
    /// its middle.
    pub open spec fn is_regular_room(self) -> bool {
        &&& self.width >= MIN_ROOM_SIZE
        &&& self.height >= MIN_ROOM_SIZE
        &&& self.room_center_x == self.x + self.width / 2
        &&& self.room_center_y == self.y + self.height / 2
    }

    /// Whether the tile `(px, py)` lies in the rectangle.
    pub open spec fn contains(self, px: int, py: int) -> bool {
        &&& self.x <= px < self.x + self.width
        &&& self.y <= py < self.y + self.height
    }
}

/// A cut leaves at least `MIN_ROOM_SIZE` on the near side and never goes
/// past the far edge.
pub proof fn lemma_split_offset_bounds(extent: int, draw: u32)
    requires
        extent >= MIN_ROOM_SIZE,
    ensures
        MIN_ROOM_SIZE <= split_offset(extent, draw) <= extent,
        extent >= 2 * MIN_ROOM_SIZE ==> split_offset(extent, draw) <= extent - MIN_ROOM_SIZE,
{
    reveal(split_offset);
}

/// What holds of every tree that `bsp_tree_of` gives for a rectangle on the
/// grid: no node has exactly one `Nil` child, every rectangle and centre
/// lies on the grid, and every room is regular.
pub proof fn lemma_bsp_tree_shape(
    x: i32,
    y: i32,
    width: i32,
    height: i32,
    connect_to: Direction,
    level: i32,
    draws: Seq<u32>,
    grid_width: int,
    grid_height: int,
)
    requires
        0 <= x,
        0 <= y,
        x + width <= grid_width <= i32::MAX,
        y + height <= grid_height <= i32::MAX,
    ensures
        bsp_tree_of(x, y, width, height, connect_to, level, draws).is_paired(),
        bsp_tree_of(x, y, width, height, connect_to, level, draws).fits(grid_width, grid_height),
        bsp_tree_of(x, y, width, height, connect_to, level, draws).has_regular_rooms(),
    decreases MAX_LEVEL + 1 - level,
{
    if splits(width, height, level) {
        let coin = first_draw(draws);
        let roll = first_draw(rest_draws(draws, 1));
        let first = first_half(x, y, width, height, coin, roll);
        let second = second_half(x, y, width, height, coin, roll);
        let below = rest_draws(draws, 2);
        let used = bsp_draws(first.x, first.y, first.width, first.height, (level + 1) as i32, below);
        lemma_split_offset_bounds(width as int, roll);
        lemma_split_offset_bounds(height as int, roll);
        lemma_bsp_tree_shape(
            first.x,
            first.y,
            first.width,
            first.height,
            first.connect_to,
            (level + 1) as i32,
            below,
            grid_width,
            grid_height,
        );
        lemma_bsp_tree_shape(
            second.x,
            second.y,
            second.width,
            second.height,
            second.connect_to,
            (level + 1) as i32,
            rest_draws(below, used),
            grid_width,
            grid_height,
        );
    }
}

/// The distance from the near edge at which a rectangle is cut.
fn choose_split_offset(extent: i32, draw: u32) -> (offset: i32)
    requires
        extent >= MIN_ROOM_SIZE,
    ensures
        offset == split_offset(extent as int, draw),
        MIN_ROOM_SIZE <= offset,
        offset <= extent - MIN_ROOM_SIZE || offset == MIN_ROOM_SIZE,
{
    reveal(split_offset);
    let span: u32 = (extent - 2) as u32;
    let raw: i32 = 1 + (draw % span) as i32;
    let capped: i32 = if raw < extent - MIN_ROOM_SIZE { raw } else { extent - MIN_ROOM_SIZE };
    if capped > MIN_ROOM_SIZE { capped } else { MIN_ROOM_SIZE }
}

/// A node's parameters for a rectangle whose far edges are representable.
fn make_params(x: i32, y: i32, width: i32, height: i32, connect_to: Direction) -> (value: BSPNodeParams)
    requires
        width >= 0,
        height >= 0,
        x + width <= i32::MAX,
        y + height <= i32::MAX,
    ensures
        value == node_params(x, y, width, height, connect_to),
{
    BSPNodeParams {
        x,
        y,
        width,
        height,
        room_center_x: x + width / 2,
        room_center_y: y + height / 2,
        connect_to,
    }
}

/// Cuts a rectangle in two as the two draws say.
fn cut_in_two(x: i32, y: i32, width: i32, height: i32, coin: u32, roll: u32) -> (halves: (
    BSPNodeParams,
    BSPNodeParams,
))
    requires
        width >= MIN_ROOM_SIZE,
        height >= MIN_ROOM_SIZE,
        x + width <= i32::MAX,
        y + height <= i32::MAX,
    ensures
        halves.0 == first_half(x, y, width, height, coin, roll),
        halves.1 == second_half(x, y, width, height, coin, roll),
        halves.0.width >= 0 && halves.0.height >= 0,
        halves.0.x + halves.0.width <= i32::MAX,
        halves.0.y + halves.0.height <= i32::MAX,
        halves.1.x + halves.1.width <= i32::MAX,
        halves.1.y + halves.1.height <= i32::MAX,
{
    if coin % 2 == 0 {
        let offset = choose_split_offset(width, roll);
        (
            make_params(x, y, offset, height, Direction::East),
            make_params(x + offset, y, width - offset, height, Direction::West),
        )
    } else {
        let offset = choose_split_offset(height, roll);
        (
            make_params(x, y, width, offset, Direction::South),
            make_params(x, y + offset, width, height - offset, Direction::North),
        )
    }
}

/// Builds the partition tree of a rectangle from the draws in `rng`.
pub fn generate_bsp_tree_from(
    x: i32,
    y: i32,
    width: i32,
    height: i32,
    connect_to: Direction,
    level: i32,
    rng: &mut RandomSource,
) -> (tree: BSPTree)
    requires
        splits(width, height, level) ==> x + width <= i32::MAX && y + height <= i32::MAX,
    ensures
        tree == bsp_tree_of(x, y, width, height, connect_to, level, old(rng)@),
        final(rng)@ == rest_draws(old(rng)@, bsp_draws(x, y, width, height, level, old(rng)@)),
        tree is Nil <==> !splits(width, height, level),
        tree.is_paired(),
    decreases MAX_LEVEL + 1 - level,
{
    if width < MIN_ROOM_SIZE || height < MIN_ROOM_SIZE || level > MAX_LEVEL {
        assert(rest_draws(rng@, 0) =~= rng@);
        return BSPTree::Nil;
    }
    let coin = rng.next_u32();
    let roll = rng.next_u32();
    proof {
        lemma_rest_draws_twice(old(rng)@, 1, 1);
    }
    let ghost below = rng@;
    let value = make_params(x, y, width, height, connect_to);
    let (first, second) = cut_in_two(x, y, width, height, coin, roll);
    let left = generate_bsp_tree_from(
        first.x,
        first.y,
        first.width,
        first.height,
        first.connect_to,
        level + 1,
        rng,
    );
    let ghost used = bsp_draws(first.x, first.y, first.width, first.height, (level + 1) as i32, below);
    let right = generate_bsp_tree_from(
        second.x,
        second.y,
        second.width,
        second.height,
        second.connect_to,
        level + 1,
        rng,
    );
    proof {
        let more = bsp_draws(
            second.x,
            second.y,
            second.width,
            second.height,
            (level + 1) as i32,
            rest_draws(below, used),
        );
        lemma_rest_draws_twice(below, used, more);
        lemma_rest_draws_twice(old(rng)@, 2, used + more);
    }
    let both = match (&left, &right) {
        (BSPTree::Node { .. }, BSPTree::Node { .. }) => true,
        _ => false,
    };
    if both {
        BSPTree::Node { value, left: Box::new(left), right: Box::new(right) }
    } else {
        BSPTree::Node { value, left: Box::new(BSPTree::Nil), right: Box::new(BSPTree::Nil) }
    }
}

/// The centre that a node with two children takes over: that of the child
/// whose centre lies nearer to the side on which the node's own sibling is.
/// A node without a sibling keeps its own.
pub open spec fn inherited_center(own: BSPNodeParams, left: BSPNodeParams, right: BSPNodeParams) -> (i32, i32) {
    let of_left = (left.room_center_x, left.room_center_y);
    let of_right = (right.room_center_x, right.room_center_y);
    match own.connect_to {
        Direction::North => if left.room_center_y < right.room_center_y { of_left } else { of_right },
        Direction::South => if left.room_center_y > right.room_center_y { of_left } else { of_right },
        Direction::East => if left.room_center_x > right.room_center_x { of_left } else { of_right },
        Direction::West => if left.room_center_x < right.room_center_x { of_left } else { of_right },
        Direction::Nowhere => (own.room_center_x, own.room_center_y),
    }
}

/// The width of the wall that a room keeps on each side: 2, 3 or 4.
pub open spec fn border_of(draw: u32) -> int {
    2 + (draw % 3) as int
}

/// Whether the tile `(px, py)` lies in the rectangle of `room`, at least
/// `border` tiles from each of its edges.
pub open spec fn in_room_interior(room: BSPNodeParams, border: int, px: int, py: int) -> bool {
    in_rect(
        room.x + border,
        room.x + room.width - border,
        room.y + border,
        room.y + room.height - border,
        px,
        py,
    )
}

impl BSPTree {
    /// The number of rooms of the tree.
    pub open spec fn room_count(self) -> nat
        decreases self,
    {
        match self {
            BSPTree::Nil => 0,
            BSPTree::Node { value, left, right } => if *left is Nil {
                1
            } else {
                left.room_count() + right.room_count()
            },
        }
    }

    /// The tree in which, from the rooms upwards, every node with two
    /// children has taken over the centre of one of them.
    pub open spec fn with_centers(self) -> BSPTree
        decreases self,
    {
        match self {
            BSPTree::Nil => BSPTree::Nil,
            BSPTree::Node { value, left, right } => {
                let new_left = left.with_centers();
                let new_right = right.with_centers();
                let center = match (new_left, new_right) {
                    (BSPTree::Node { value: a, .. }, BSPTree::Node { value: b, .. }) => inherited_center(
                        value,
                        a,
                        b,
                    ),
                    _ => (value.room_center_x, value.room_center_y),
                };
                BSPTree::Node {
                    value: BSPNodeParams { room_center_x: center.0, room_center_y: center.1, ..value },
                    left: Box::new(new_left),
                    right: Box::new(new_right),
                }
            },
        }
    }

    /// Whether the tile `(px, py)` is floor of one of the rooms. The rooms
    /// take their borders from `draws`, one draw each, the rooms of the
    /// left subtree first.
    pub open spec fn room_floor(self, draws: Seq<u32>, px: int, py: int) -> bool
        decreases self,
    {
        match self {
            BSPTree::Nil => false,
            BSPTree::Node { value, left, right } => if *left is Nil {
                in_room_interior(value, border_of(first_draw(draws)), px, py)
            } else {
                left.room_floor(draws, px, py) || right.room_floor(
                    rest_draws(draws, left.room_count()),
                    px,
                    py,
                )
            },
        }
    }
}

/// Taking over centres changes neither the rectangles nor the rooms: the
/// tree stays paired and on the grid, and its rooms stay regular.
pub proof fn lemma_with_centers_keeps_shape(tree: BSPTree, grid_width: int, grid_height: int)
    ensures
        tree is Nil <==> tree.with_centers() is Nil,
        tree.is_paired() ==> tree.with_centers().is_paired(),
        tree.fits(grid_width, grid_height) ==> tree.with_centers().fits(grid_width, grid_height),
        tree.has_regular_rooms() ==> tree.with_centers().has_regular_rooms(),
    decreases tree,
{
    match tree {
        BSPTree::Nil => {},
        BSPTree::Node { value, left, right } => {
            lemma_with_centers_keeps_shape(*left, grid_width, grid_height);
            lemma_with_centers_keeps_shape(*right, grid_width, grid_height);
        },
    }
}

/// The centre of the node at the root of `tree`, if it is a node.
fn center_of(tree: &BSPTree) -> (center: Option<(i32, i32)>)
    ensures
        center == match *tree {
            BSPTree::Node { value, .. } => Some((value.room_center_x, value.room_center_y)),
            BSPTree::Nil => None::<(i32, i32)>,
        },
{
    match tree {
        BSPTree::Node { value, .. } => Some((value.room_center_x, value.room_center_y)),
        BSPTree::Nil => None,
    }
}

/// The first pass over the tree: from the rooms upwards, every node with
/// two children takes over a centre, and every room is carved into the
/// grid with a border drawn from `rng`.
pub fn fill_minimum_nodes(dungeon: &mut Vec<Vec<i32>>, tree: &mut BSPTree, rng: &mut RandomSource)
    requires
        is_rectangular(old(dungeon)@),
        old(dungeon).len() <= i32::MAX,
        rows(old(dungeon)@) <= i32::MAX,
        old(tree).is_paired(),
        old(tree).fits(old(dungeon).len() as int, rows(old(dungeon)@)),
    ensures
        *final(tree) == old(tree).with_centers(),
        final(rng)@ == rest_draws(old(rng)@, old(tree).room_count()),
        same_shape(old(dungeon)@, final(dungeon)@),
        forall|x: int, y: int|
            on_grid(old(dungeon)@, x, y) ==> (#[trigger] final(dungeon)[x][y]) == if old(tree).room_floor(
                old(rng)@,
                x,
                y,
            ) {
                FLOOR
            } else {
                old(dungeon)[x][y]
            },
    decreases *old(tree),
{
    match tree {
        BSPTree::Node { value, left, right } => {
            fill_minimum_nodes(dungeon, left, rng);
            let ghost between = dungeon@;
            fill_minimum_nodes(dungeon, right, rng);
            proof {
                lemma_rest_draws_twice(old(rng)@, old(tree)->left.room_count(), old(tree)->right.room_count());
                assert(rest_draws(old(rng)@, 0) =~= old(rng)@);
            }
            let left_center = center_of(left);
            let right_center = center_of(right);
            match (left_center, right_center) {
                (Some(a), Some(b)) => {
                    let take_left = match value.connect_to {
                        Direction::North => Some(a.1 < b.1),
                        Direction::South => Some(a.1 > b.1),
                        Direction::East => Some(a.0 > b.0),
                        Direction::West => Some(a.0 < b.0),
                        Direction::Nowhere => None,
                    };
                    match take_left {
                        Some(true) => {
                            value.room_center_x = a.0;
                            value.room_center_y = a.1;
                        },
                        Some(false) => {
                            value.room_center_x = b.0;
                            value.room_center_y = b.1;
                        },
                        None => {},
                    }
                },
                _ => {},
            }
            if left_center.is_none() {
                let border: i32 = 2 + (rng.next_u32() % 3) as i32;
                if value.width > 2 * border && value.height > 2 * border {
                    carve_rect(
                        dungeon,
                        value.x + border,
                        value.x + value.width - border,
                        value.y + border,
                        value.y + value.height - border,
                    );
                }
            }
        },
        BSPTree::Nil => {
            assert(rest_draws(rng@, 0) =~= rng@);
        },
    }
}

impl Direction {
    /// Whether a corridor towards this side runs along the y axis.
    pub open spec fn is_vertical(self) -> bool {
        self == Direction::North || self == Direction::South
    }

    /// Whether a corridor towards this side runs along the x axis.
    pub open spec fn is_horizontal(self) -> bool {
        self == Direction::East || self == Direction::West
    }
}

/// Whether the tile `(px, py)` lies on the corridor that `from` sends
/// towards its sibling `other`: a straight line from its centre in the
/// direction of its tag, which ends before the sibling's near edge. Where
/// the sibling lies on the side of smaller coordinates, the line starts
/// behind the sibling's far edge and ends before the centre.
pub open spec fn arm_floor(from: BSPNodeParams, other: BSPNodeParams, px: int, py: int) -> bool {
    match from.connect_to {
        Direction::North => px == from.room_center_x && other.y + other.height <= py < from.room_center_y,
        Direction::South => px == from.room_center_x && from.room_center_y <= py < other.y,
        Direction::East => py == from.room_center_y && from.room_center_x <= px < other.x,
        Direction::West => py == from.room_center_y && other.x + other.width <= px < from.room_center_x,
        Direction::Nowhere => false,
    }
}

/// The smaller of two coordinates.
pub open spec fn lesser(a: int, b: int) -> int {
    if a < b {
        a
    } else {
        b
    }
}

/// The larger of two coordinates.
pub open spec fn greater(a: int, b: int) -> int {
    if a > b {
        a
    } else {
        b
    }
}

/// Whether the tile `(px, py)` lies on the piece that joins the corridors
/// of two siblings: it runs along the edge of the sibling with the larger
/// coordinate, from one corridor to the other, both ends included.
pub open spec fn bridge_floor(left: BSPNodeParams, right: BSPNodeParams, px: int, py: int) -> bool {
    if left.connect_to.is_vertical() && right.connect_to.is_vertical() {
        &&& py == greater(left.y as int, right.y as int)
        &&& lesser(left.room_center_x as int, right.room_center_x as int) <= px <= greater(
            left.room_center_x as int,
            right.room_center_x as int,
        )
    } else if left.connect_to.is_horizontal() && right.connect_to.is_horizontal() {
        &&& px == greater(left.x as int, right.x as int)
        &&& lesser(left.room_center_y as int, right.room_center_y as int) <= py <= greater(
            left.room_center_y as int,
            right.room_center_y as int,
        )
    } else {
        false
    }
}

/// Whether the tile `(px, py)` lies on the connection of two siblings: on
/// the corridor of either, or on the piece that joins them.
pub open spec fn link_floor(left: BSPNodeParams, right: BSPNodeParams, px: int, py: int) -> bool {
    arm_floor(left, right, px, py) || arm_floor(right, left, px, py) || bridge_floor(left, right, px, py)
}

impl BSPTree {
    /// Whether the tile `(px, py)` lies on a connection between two
    /// siblings anywhere in the tree.
    pub open spec fn corridor_floor(self, px: int, py: int) -> bool
        decreases self,
    {
        match self {
            BSPTree::Nil => false,
            BSPTree::Node { value, left, right } => {
                ||| left.corridor_floor(px, py)
                ||| right.corridor_floor(px, py)
                ||| match (*left, *right) {
                    (BSPTree::Node { value: a, .. }, BSPTree::Node { value: b, .. }) => link_floor(a, b, px, py),
                    _ => false,
                }
            },
        }
    }

    /// The rooms of the tree, those of the left subtree first. A room in
    /// the list has no sibling.
    pub open spec fn rooms(self) -> Seq<BSPNodeParams>
        decreases self,
    {
        match self {
            BSPTree::Nil => Seq::empty(),
            BSPTree::Node { value, left, right } => left.rooms() + right.rooms() + if *left is Nil {
                seq![BSPNodeParams { connect_to: Direction::Nowhere, ..value }]
            } else {
                Seq::empty()
            },
        }
    }
}

/// Carves the corridor that `from` sends towards its sibling `other`.
fn carve_arm(dungeon: &mut Vec<Vec<i32>>, from: &BSPNodeParams, other: &BSPNodeParams)
    requires
        is_rectangular(old(dungeon)@),
        old(dungeon).len() <= i32::MAX,
        rows(old(dungeon)@) <= i32::MAX,
        from.fits(old(dungeon).len() as int, rows(old(dungeon)@)),
        other.fits(old(dungeon).len() as int, rows(old(dungeon)@)),
    ensures
        same_shape(old(dungeon)@, final(dungeon)@),
        forall|x: int, y: int|
            on_grid(old(dungeon)@, x, y) ==> (#[trigger] final(dungeon)[x][y]) == if arm_floor(
                *from,
                *other,
                x,
                y,
            ) {
                FLOOR
            } else {
                old(dungeon)[x][y]
            },
{
    match from.connect_to {
        Direction::North => carve_rect(
            dungeon,
            from.room_center_x,
            from.room_center_x + 1,
            other.y + other.height,
            from.room_center_y,
        ),
        Direction::South => carve_rect(
            dungeon,
            from.room_center_x,
            from.room_center_x + 1,
            from.room_center_y,
            other.y,
        ),
        Direction::East => carve_rect(
            dungeon,
            from.room_center_x,
            other.x,
            from.room_center_y,
            from.room_center_y + 1,
        ),
        Direction::West => carve_rect(
            dungeon,
            other.x + other.width,
            from.room_center_x,
            from.room_center_y,
            from.room_center_y + 1,
        ),
        Direction::Nowhere => {},
    }
}

/// Carves the piece that joins the corridors of two siblings.
fn carve_bridge(dungeon: &mut Vec<Vec<i32>>, left: &BSPNodeParams, right: &BSPNodeParams)
    requires
        is_rectangular(old(dungeon)@),
        old(dungeon).len() <= i32::MAX,
        rows(old(dungeon)@) <= i32::MAX,
        left.fits(old(dungeon).len() as int, rows(old(dungeon)@)),
        right.fits(old(dungeon).len() as int, rows(old(dungeon)@)),
    ensures
        same_shape(old(dungeon)@, final(dungeon)@),
        forall|x: int, y: int|
            on_grid(old(dungeon)@, x, y) ==> (#[trigger] final(dungeon)[x][y]) == if bridge_floor(
                *left,
                *right,
                x,
                y,
            ) {
                FLOOR
            } else {
                old(dungeon)[x][y]
            },
{
    let left_vertical = match left.connect_to {
        Direction::North | Direction::South => true,
        _ => false,
    };
    let right_vertical = match right.connect_to {
        Direction::North | Direction::South => true,
        _ => false,
    };
    let left_horizontal = match left.connect_to {
        Direction::East | Direction::West => true,
        _ => false,
    };
    let right_horizontal = match right.connect_to {
        Direction::East | Direction::West => true,
        _ => false,
    };
    if left_vertical && right_vertical {
        let y = if left.y > right.y { left.y } else { right.y };
        if left.room_center_x < right.room_center_x {
            carve_rect(dungeon, left.room_center_x, right.room_center_x + 1, y, y + 1);
        } else {
            carve_rect(dungeon, right.room_center_x, left.room_center_x + 1, y, y + 1);
        }
    } else if left_horizontal && right_horizontal {
        let x = if left.x > right.x { left.x } else { right.x };
        if left.room_center_y < right.room_center_y {
            carve_rect(dungeon, x, x + 1, left.room_center_y, right.room_center_y + 1);
        } else {
            carve_rect(dungeon, x, x + 1, right.room_center_y, left.room_center_y + 1);
        }
    }
}

/// The parameters of the node at the root of `tree`, if it is a node.
fn params_of(tree: &BSPTree) -> (params: Option<BSPNodeParams>)
    ensures
        params == match *tree {
            BSPTree::Node { value, .. } => Some(value),
            BSPTree::Nil => None::<BSPNodeParams>,
        },
{
    match tree {
        BSPTree::Node { value, .. } => Some(*value),
        BSPTree::Nil => None,
    }
}

/// The second pass over the tree: from the rooms upwards, the two children
/// of every node are connected. Each sends a corridor from its centre
/// towards the other, and a piece along the edge between them joins the
/// two.
pub fn connect_rooms(dungeon: &mut Vec<Vec<i32>>, tree: &BSPTree)
    requires
        is_rectangular(old(dungeon)@),
        old(dungeon).len() <= i32::MAX,
        rows(old(dungeon)@) <= i32::MAX,
        tree.fits(old(dungeon).len() as int, rows(old(dungeon)@)),
    ensures
        same_shape(old(dungeon)@, final(dungeon)@),
        forall|x: int, y: int|
            on_grid(old(dungeon)@, x, y) ==> (#[trigger] final(dungeon)[x][y]) == if tree.corridor_floor(x, y) {
                FLOOR
            } else {
                old(dungeon)[x][y]
            },
    decreases tree,
{
    match tree {
        BSPTree::Node { value, left, right } => {
            connect_rooms(dungeon, left);
            connect_rooms(dungeon, right);
            match (params_of(left), params_of(right)) {
                (Some(a), Some(b)) => {
                    proof {
                        let width = old(dungeon).len() as int;
                        let height = rows(old(dungeon)@);
                        assert(rows(dungeon@) == height);
                        assert(left.fits(width, height) && right.fits(width, height));
                        assert(a.fits(width, height) && b.fits(width, height));
                    }
                    carve_arm(dungeon, &a, &b);
                    carve_arm(dungeon, &b, &a);
                    carve_bridge(dungeon, &a, &b);
                },
                _ => {},
            }
        },
        BSPTree::Nil => {},
    }
}

/// Appends the rooms of the tree to `room_params`, those of the left
/// subtree first.
pub fn get_room_dimensions(room_params: &mut Vec<BSPNodeParams>, tree: &BSPTree)
    ensures
        final(room_params)@ == old(room_params)@ + tree.rooms(),
    decreases tree,
{
    match tree {
        BSPTree::Node { value, left, right } => {
            get_room_dimensions(room_params, left);
            get_room_dimensions(room_params, right);
            if params_of(left).is_none() {
                room_params.push(
                    BSPNodeParams {
                        x: value.x,
                        y: value.y,
                        width: value.width,
                        height: value.height,
                        room_center_x: value.room_center_x,
                        room_center_y: value.room_center_y,
                        connect_to: Direction::Nowhere,
                    },
                );
            }
        },
        BSPTree::Nil => {},
    }
}

/// The rooms of a tree on the grid lie on the grid; those of a tree with
/// regular rooms are regular; and a paired tree has as many as
/// `room_count` says.
pub proof fn lemma_rooms_of_tree(tree: BSPTree, grid_width: int, grid_height: int)
    ensures
        tree.is_paired() ==> tree.rooms().len() == tree.room_count(),
        tree.fits(grid_width, grid_height) ==> forall|i: int|
            0 <= i < tree.rooms().len() ==> (#[trigger] tree.rooms()[i]).fits(grid_width, grid_height),
        tree.has_regular_rooms() ==> forall|i: int|
            0 <= i < tree.rooms().len() ==> (#[trigger] tree.rooms()[i]).is_regular_room(),
        forall|i: int| 0 <= i < tree.rooms().len() ==> (#[trigger] tree.rooms()[i]).connect_to == Direction::Nowhere,
    decreases tree,
{
    match tree {
        BSPTree::Nil => {},
        BSPTree::Node { value, left, right } => {
            lemma_rooms_of_tree(*left, grid_width, grid_height);
            lemma_rooms_of_tree(*right, grid_width, grid_height);
        },
    }
}

/// The centre of every regular room is floor, whatever border the room
/// takes.
pub proof fn lemma_room_centers_are_floor(tree: BSPTree, draws: Seq<u32>, index: int)
    requires
        tree.is_paired(),
        tree.has_regular_rooms(),
        0 <= index < tree.rooms().len(),
    ensures
        tree.room_floor(
            draws,
            tree.rooms()[index].room_center_x as int,
            tree.rooms()[index].room_center_y as int,
        ),
    decreases tree,
{
    match tree {
        BSPTree::Nil => {},
        BSPTree::Node { value, left, right } => {
            lemma_rooms_of_tree(*left, 0, 0);
            lemma_rooms_of_tree(*right, 0, 0);
            if *left is Nil {
                assert(value.is_regular_room());
                assert(2 <= border_of(first_draw(draws)) <= 4);
            } else if index < left.rooms().len() {
                lemma_room_centers_are_floor(*left, draws, index);
            } else {
                lemma_room_centers_are_floor(
                    *right,
                    rest_draws(draws, left.room_count()),
                    index - left.rooms().len(),
                );
            }
        },
    }
}

/// Taking over centres does not change the rooms.
pub proof fn lemma_with_centers_keeps_room_list(tree: BSPTree)
    ensures
        tree.with_centers().rooms() == tree.rooms(),
    decreases tree,
{
    match tree {
        BSPTree::Nil => {},
        BSPTree::Node { value, left, right } => {
            lemma_with_centers_keeps_room_list(*left);
            lemma_with_centers_keeps_room_list(*right);
            lemma_with_centers_keeps_shape(*left, 0, 0);
            lemma_with_centers_keeps_shape(*right, 0, 0);
        },
    }
}

/// The tree from which the dungeon of the given size is made, before the
/// centres are taken over.
pub open spec fn dungeon_tree(width: i32, height: i32, draws: Seq<u32>) -> BSPTree {
    bsp_tree_of(0, 0, width, height, Direction::Nowhere, 0, draws)
}

/// The number of draws that a dungeon of the given size takes: those for
/// the tree, then one for the border of each room.
pub open spec fn dungeon_draws(width: i32, height: i32, draws: Seq<u32>) -> nat {
    bsp_draws(0, 0, width, height, 0, draws) + dungeon_tree(width, height, draws).room_count()
}

/// The tile `(x, y)` of the dungeon: floor inside a room and on a
/// connection between siblings, wall everywhere else.
pub open spec fn dungeon_tile(width: i32, height: i32, draws: Seq<u32>, x: int, y: int) -> i32 {
    let tree = dungeon_tree(width, height, draws);
    let borders = rest_draws(draws, bsp_draws(0, 0, width, height, 0, draws));
    if tree.room_floor(borders, x, y) || tree.with_centers().corridor_floor(x, y) {
        FLOOR
    } else {
        WALL
    }
}

/// The rooms of the dungeon.
pub open spec fn dungeon_rooms(width: i32, height: i32, draws: Seq<u32>) -> Seq<BSPNodeParams> {
    dungeon_tree(width, height, draws).with_centers().rooms()
}

/// The tiles of the dungeon, as `width` columns of `height` tiles.
pub open spec fn dungeon_grid(width: i32, height: i32, draws: Seq<u32>) -> Seq<Seq<i32>> {
    Seq::new(
        width as nat,
        |x: int| Seq::new(height as nat, |y: int| dungeon_tile(width, height, draws, x, y)),
    )
}

/// Whether `dungeon` and `room_params` are the dungeon of the given size
/// for `draws`.
pub open spec fn is_dungeon_of(
    dungeon: Seq<Vec<i32>>,
    room_params: Seq<BSPNodeParams>,
    width: i32,
    height: i32,
    draws: Seq<u32>,
) -> bool {
    &&& tiles(dungeon) == dungeon_grid(width, height, draws)
    &&& room_params == dungeon_rooms(width, height, draws)
}

/// The dungeon is a function of its size and of the draws: two results for
/// the same size and the same draws have the same tiles and the same rooms.
pub proof fn lemma_same_draws_same_dungeon(
    first: Seq<Vec<i32>>,
    first_rooms: Seq<BSPNodeParams>,
    second: Seq<Vec<i32>>,
    second_rooms: Seq<BSPNodeParams>,
    width: i32,
    height: i32,
    draws: Seq<u32>,
)
    requires
        is_dungeon_of(first, first_rooms, width, height, draws),
        is_dungeon_of(second, second_rooms, width, height, draws),
    ensures
        tiles(first) == tiles(second),
        first_rooms == second_rooms,
{
}

/// The grid of a dungeon has the size that was asked for, and each of its
/// tiles is floor or wall.
pub proof fn lemma_dungeon_grid_shape(width: i32, height: i32, draws: Seq<u32>)
    requires
        0 <= width,
        0 <= height,
    ensures
        dungeon_grid(width, height, draws).len() == width,
        forall|x: int| 0 <= x < width ==> (#[trigger] dungeon_grid(width, height, draws)[x]).len() == height,
        forall|x: int, y: int|
            0 <= x < width && 0 <= y < height ==> (#[trigger] dungeon_grid(width, height, draws)[x][y]) == FLOOR
                || dungeon_grid(width, height, draws)[x][y] == WALL,
{
}

/// Every room of a dungeon is regular and lies on the grid, and its centre
/// is a floor tile.
pub proof fn lemma_dungeon_rooms(width: i32, height: i32, draws: Seq<u32>)
    requires
        0 <= width,
        0 <= height,
    ensures
        forall|i: int|
            0 <= i < dungeon_rooms(width, height, draws).len() ==> {
                let room = #[trigger] dungeon_rooms(width, height, draws)[i];
                &&& room.is_regular_room()
                &&& room.fits(width as int, height as int)
                &&& room.connect_to == Direction::Nowhere
                &&& dungeon_tile(width, height, draws, room.room_center_x as int, room.room_center_y as int) == FLOOR
            },
        dungeon_rooms(width, height, draws).len() == dungeon_tree(width, height, draws).room_count(),
{
    let tree = dungeon_tree(width, height, draws);
    lemma_bsp_tree_shape(0, 0, width, height, Direction::Nowhere, 0, draws, width as int, height as int);
    lemma_with_centers_keeps_shape(tree, width as int, height as int);
    lemma_rooms_of_tree(tree.with_centers(), width as int, height as int);
    lemma_with_centers_keeps_rooms(tree);
    lemma_with_centers_keeps_room_list(tree);
    let borders = rest_draws(draws, bsp_draws(0, 0, width, height, 0, draws));
    assert forall|i: int| 0 <= i < dungeon_rooms(width, height, draws).len() implies dungeon_tile(
        width,
        height,
        draws,
        (#[trigger] dungeon_rooms(width, height, draws)[i]).room_center_x as int,
        dungeon_rooms(width, height, draws)[i].room_center_y as int,
    ) == FLOOR by {
        lemma_room_centers_are_floor(tree, borders, i);
    }
}

/// Taking over centres does not change the number of rooms.
pub proof fn lemma_with_centers_keeps_rooms(tree: BSPTree)
    ensures
        tree.with_centers().room_count() == tree.room_count(),
    decreases tree,
{
    match tree {
        BSPTree::Nil => {},
        BSPTree::Node { value, left, right } => {
            lemma_with_centers_keeps_rooms(*left);
            lemma_with_centers_keeps_rooms(*right);
            lemma_with_centers_keeps_shape(*left, 0, 0);
        },
    }
}

/// Generates the dungeon of the given size from the draws in `rng`: the
/// grid, indexed `[x][y]`, and the list of rooms.
pub fn generate_dungeon_from(width: i32, height: i32, rng: &mut RandomSource) -> (result: (
    Vec<Vec<i32>>,
    Vec<BSPNodeParams>,
))
    requires
        0 <= width,
        0 <= height,
    ensures
        is_dungeon_of(result.0@, result.1@, width, height, old(rng)@),
        final(rng)@ == rest_draws(old(rng)@, dungeon_draws(width, height, old(rng)@)),
        is_grid(result.0@, width as int, height as int),
        is_binary(result.0@),
        result.1.len() <= 8,
        forall|i: int|
            0 <= i < result.1.len() ==> {
                let room = #[trigger] result.1[i];
                &&& room.is_regular_room()
                &&& room.fits(width as int, height as int)
                &&& room.connect_to == Direction::Nowhere
            },
{
    let mut dungeon = new_grid(width as usize, height as usize, WALL);
    let mut room_params: Vec<BSPNodeParams> = Vec::new();
    let mut tree = generate_bsp_tree_from(0, 0, width, height, Direction::Nowhere, 0, rng);
    proof {
        lemma_bsp_tree_shape(
            0,
            0,
            width,
            height,
            Direction::Nowhere,
            0,
            old(rng)@,
            width as int,
            height as int,
        );
        lemma_with_centers_keeps_shape(tree, width as int, height as int);
        lemma_dungeon_rooms(width, height, old(rng)@);
        lemma_draws_suffice(0, 0, width, height, 0, old(rng)@);
        lemma_rest_draws_twice(
            old(rng)@,
            bsp_draws(0, 0, width, height, 0, old(rng)@),
            dungeon_tree(width, height, old(rng)@).room_count(),
        );
    }
    fill_minimum_nodes(&mut dungeon, &mut tree, rng);
    connect_rooms(&mut dungeon, &tree);
    get_room_dimensions(&mut room_params, &tree);
    assert(room_params@ =~= tree.rooms());
    assert(tiles(dungeon@) =~~= dungeon_grid(width, height, old(rng)@)) by {
        assert forall|x: int| 0 <= x < width implies #[trigger] tiles(dungeon@)[x] =~= dungeon_grid(
            width,
            height,
            old(rng)@,
        )[x] by {
            assert(dungeon[x].len() == height);
            assert forall|y: int| 0 <= y < height implies dungeon[x]@[y] == dungeon_tile(
                width,
                height,
                old(rng)@,
                x,
                y,
            ) by {
                assert(on_grid(dungeon@, x, y));
            }
        }
    }
    (dungeon, room_params)
}

/// The largest number of draws that a tree rooted at `level` can take.
pub open spec fn max_tree_draws(level: int) -> nat
    decreases MAX_LEVEL + 1 - level,
{
    if level > MAX_LEVEL {
        0
    } else {
        2 + 2 * max_tree_draws(level + 1)
    }
}

/// The largest number of rooms that a tree rooted at `level` can have.
pub open spec fn max_rooms(level: int) -> nat
    decreases MAX_LEVEL + 1 - level,
{
    if level > MAX_LEVEL {
        0
    } else if level == MAX_LEVEL {
        1
    } else {
        2 * max_rooms(level + 1)
    }
}

/// A tree takes no more draws, and has no more rooms, than its level
/// allows.
pub proof fn lemma_bsp_tree_bounds(
    x: i32,
    y: i32,
    width: i32,
    height: i32,
    connect_to: Direction,
    level: i32,
    draws: Seq<u32>,
)
    ensures
        bsp_draws(x, y, width, height, level, draws) <= max_tree_draws(level as int),
        bsp_tree_of(x, y, width, height, connect_to, level, draws).room_count() <= max_rooms(level as int),
        level <= MAX_LEVEL ==> max_rooms(level as int) >= 1,
    decreases MAX_LEVEL + 1 - level,
{
    if level <= MAX_LEVEL {
        let coin = first_draw(draws);
        let roll = first_draw(rest_draws(draws, 1));
        let first = first_half(x, y, width, height, coin, roll);
        let second = second_half(x, y, width, height, coin, roll);
        let below = rest_draws(draws, 2);
        let used = bsp_draws(first.x, first.y, first.width, first.height, (level + 1) as i32, below);
        lemma_bsp_tree_bounds(
            first.x,
            first.y,
            first.width,
            first.height,
            first.connect_to,
            (level + 1) as i32,
            below,
        );
        lemma_bsp_tree_bounds(
            second.x,
            second.y,
            second.width,
            second.height,
            second.connect_to,
            (level + 1) as i32,
            rest_draws(below, used),
        );
    }
}

/// The number of draws that always suffices for a tree rooted at level 0.
pub const TREE_DRAWS: usize = 30;

/// The number of draws that always suffices for a dungeon.
pub const DUNGEON_DRAWS: usize = 38;

/// A dungeon never takes more than `DUNGEON_DRAWS` draws, and a tree rooted
/// at level 0 or deeper never more than `TREE_DRAWS`.
pub proof fn lemma_draws_suffice(x: i32, y: i32, width: i32, height: i32, level: i32, draws: Seq<u32>)
    ensures
        level >= 0 ==> bsp_draws(x, y, width, height, level, draws) <= TREE_DRAWS,
        dungeon_draws(width, height, draws) <= DUNGEON_DRAWS,
        dungeon_tree(width, height, draws).room_count() <= 8,
{
    reveal_with_fuel(max_tree_draws, 6);
    reveal_with_fuel(max_rooms, 6);
    lemma_bsp_tree_bounds(x, y, width, height, Direction::Nowhere, level, draws);
    lemma_bsp_tree_bounds(0, 0, width, height, Direction::Nowhere, 0, draws);
    if level >= 0 {
        lemma_max_tree_draws_falls(0, level as int);
    }
}

/// Deeper trees take fewer draws.
proof fn lemma_max_tree_draws_falls(shallow: int, deep: int)
    requires
        shallow <= deep,
    ensures
        max_tree_draws(deep) <= max_tree_draws(shallow),
    decreases deep - shallow,
{
    if shallow < deep {
        lemma_max_tree_draws_falls(shallow + 1, deep);
    }
}

/// Builds the partition tree of a rectangle with draws from the thread's
/// random generator. Every draw that the tree takes is a fresh one, unless
/// as many draws as `usize` can count were not enough.
pub fn generate_bsp_tree(x: i32, y: i32, width: i32, height: i32, connect_to: Direction, level: i32) -> (tree:
    BSPTree)
    requires
        splits(width, height, level) ==> x + width <= i32::MAX && y + height <= i32::MAX,
    ensures
        exists|draws: Seq<u32>|
            tree == bsp_tree_of(x, y, width, height, connect_to, level, draws) && (bsp_draws(
                x,
                y,
                width,
                height,
                level,
                draws,
            ) <= draws.len() || draws.len() == usize::MAX),
        tree is Nil <==> !splits(width, height, level),
        tree.is_paired(),
        0 <= x && 0 <= y ==> tree.fits(x + width, y + height) && tree.has_regular_rooms(),
{
    let mut source = RandomSource::new();
    let mut count: usize = TREE_DRAWS + 1;
    loop
        invariant
            splits(width, height, level) ==> x + width <= i32::MAX && y + height <= i32::MAX,
            source@.len() <= count,
            count >= TREE_DRAWS,
        decreases usize::MAX - count,
    {
        // A tree below level 0 can take more draws than a tree at level 0
        // ever does. It is built again from twice as many until it leaves
        // one over.
        source.refill(count);
        let mut probe = source.fork();
        let ghost draws = probe@;
        let tree = generate_bsp_tree_from(x, y, width, height, connect_to, level, &mut probe);
        if probe.remaining() > 0 || count == usize::MAX {
            proof {
                if 0 <= x && 0 <= y && splits(width, height, level) {
                    lemma_bsp_tree_shape(x, y, width, height, connect_to, level, draws, x + width, y + height);
                }
                assert(tree == bsp_tree_of(x, y, width, height, connect_to, level, draws) && (bsp_draws(
                    x,
                    y,
                    width,
                    height,
                    level,
                    draws,
                ) <= draws.len() || draws.len() == usize::MAX));
            }
            return tree;
        }
        count = if count <= usize::MAX / 2 { count * 2 } else { usize::MAX };
    }
}

/// No node of a tree that `bsp_tree_of` gives has exactly one `Nil` child.
pub proof fn lemma_bsp_tree_paired(
    x: i32,
    y: i32,
    width: i32,
    height: i32,
    connect_to: Direction,
    level: i32,
    draws: Seq<u32>,
)
    ensures
        bsp_tree_of(x, y, width, height, connect_to, level, draws).is_paired(),
    decreases MAX_LEVEL + 1 - level,
{
    if splits(width, height, level) {
        let coin = first_draw(draws);
        let roll = first_draw(rest_draws(draws, 1));
        let first = first_half(x, y, width, height, coin, roll);
        let second = second_half(x, y, width, height, coin, roll);
        let below = rest_draws(draws, 2);
        let used = bsp_draws(first.x, first.y, first.width, first.height, (level + 1) as i32, below);
        lemma_bsp_tree_paired(
            first.x,
            first.y,
            first.width,
            first.height,
            first.connect_to,
            (level + 1) as i32,
            below,
        );
        lemma_bsp_tree_paired(
            second.x,
            second.y,
            second.width,
            second.height,
            second.connect_to,
            (level + 1) as i32,
            rest_draws(below, used),
        );
    }
}

/// Generates a dungeon of the given size with draws from the thread's
/// random generator: the grid, indexed `[x][y]`, and the list of rooms.
pub fn generate_dungeon(width: i32, height: i32) -> (result: (Vec<Vec<i32>>, Vec<BSPNodeParams>))
    requires
        0 <= width,
        0 <= height,
    ensures
        exists|draws: Seq<u32>| is_dungeon_of(result.0@, result.1@, width, height, draws),
        is_grid(result.0@, width as int, height as int),
        is_binary(result.0@),
        result.1.len() <= 8,
        forall|i: int|
            0 <= i < result.1.len() ==> {
                let room = #[trigger] result.1[i];
                &&& room.is_regular_room()
                &&& room.fits(width as int, height as int)
                &&& room.connect_to == Direction::Nowhere
            },
{
    let mut rng = RandomSource::new();
    rng.refill(DUNGEON_DRAWS);
    proof {
        lemma_draws_suffice(0, 0, width, height, 0, rng@);
        lemma_dungeon_rooms(width, height, rng@);
    }
    generate_dungeon_from(width, height, &mut rng)
}

} // verus!
