//! Simulation core of a turn-based dungeon crawler: a dungeon generator
//! based on binary space partitioning, and the turn engine that moves the
//! player and the mobs over the generated map.

pub mod item;
pub mod player;
pub mod random;
pub mod grid;
pub mod map_generator;
pub mod static_map;
pub mod mob;
pub mod dynamic_map;
pub mod game_master;
pub mod combat;
pub mod mob_ai;
pub mod level_init;
pub mod turn;
pub mod queries;
pub mod text;
pub mod limits;
pub mod copies;

