//! Simulation core of a turn-based dungeon crawler: an entity store, a
//! tile map with procedural generation, and the fixed pipeline of systems
//! that turns player and monster intents into the next game state.
//!
//! Every state has a mathematical view ([`world::WorldView`],
//! [`map::MapView`], [`state::StateView`]), and every function says in its
//! contract what it does to that view.
//!
//! No function here panics. Where the order of the systems should have
//! put something into the world that is not there, the first such fault
//! is recorded in [`world::World::fault`] and the systems leave the world
//! as it is from then on; it is up to the caller to stop the game.
//!
//! What is in sight of a tile and which path leads from one tile to
//! another is asked of the caller, through the functions handed to
//! [`systems::run_systems`] and [`state::State::tick`]: the contracts hold
//! for whatever these answer. Random numbers are drawn from the generator
//! that the world holds, and the contracts hold for whatever is drawn.

use vstd::prelude::*;

pub mod components;
pub mod dice;
pub mod game_log;
pub mod gui;
pub mod map;
pub mod map_builders;
pub mod menu;
pub mod player;
pub mod random_table;
pub mod rect;
pub mod spawner;
pub mod state;
pub mod systems;
pub mod world;

pub use map::{new_map, xy_index, TileMap, TileType};
pub use rect::{Point, Rect};

verus! {

/// Width of every dungeon level, in tiles.
pub const MAP_WIDTH: i32 = 80;

/// Height of every dungeon level, in tiles.
pub const MAP_HEIGHT: i32 = 43;

/// Number of tiles of a level.
pub const MAP_COUNT: i32 = 3440;

/// Smallest column of the grid.
pub const MIN_X: i32 = 0;

/// Largest column of the grid.
pub const MAX_X: i32 = 79;

/// Smallest row of the grid.
pub const MIN_Y: i32 = 0;

/// Largest row of the grid.
pub const MAX_Y: i32 = 42;

/// The value of `v` brought into the range of `i32`.
pub open spec fn sat(v: int) -> int {
    if v < i32::MIN {
        i32::MIN as int
    } else if v > i32::MAX {
        i32::MAX as int
    } else {
        v
    }
}

/// Brings a wide intermediate result back into `i32`, saturating at the
/// limits of the type.
pub fn saturate(v: i128) -> (r: i32)
    ensures
        r == sat(v as int),
{
    if v < -2147483648i128 {
        i32::MIN
    } else if v > 2147483647i128 {
        i32::MAX
    } else {
        v as i32
    }
}

/// Saturating sum of two `i32` values.
pub fn sat_add(a: i32, b: i32) -> (r: i32)
    ensures
        r == sat(a + b),
{
    saturate(a as i128 + b as i128)
}

/// Saturating difference of two `i32` values.
pub fn sat_sub(a: i32, b: i32) -> (r: i32)
    ensures
        r == sat(a - b),
{
    saturate(a as i128 - b as i128)
}

} // verus!
