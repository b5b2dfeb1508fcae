//! Generating the levels of the dungeon.

use vstd::prelude::*;
use rltk::RandomNumberGenerator;
use crate::components::Position;
use crate::map::{MapView, TileMap, TileType};
use crate::world::World;

pub mod common;
pub mod reach;
pub mod simple_map;

use simple_map::SimpleMapBuilder;

verus! {

/// A way of making a level.
pub trait MapBuilder {
    /// Whether nothing was built yet.
    spec fn fresh(&self) -> bool;

    /// Whether the level is built.
    spec fn built(&self) -> bool;

    /// The level, once it is built.
    spec fn level(&self) -> MapView;

    /// Where the player starts, once the level is built.
    spec fn start(&self) -> Position;

    /// The grid after each step of the building so far.
    spec fn record(&self) -> Seq<Seq<TileType>>;

    /// Builds the level, drawing from `rng`.
    fn build_map(&mut self, rng: &mut RandomNumberGenerator)
        requires
            old(self).fresh(),
        ensures
            final(self).built(),
            final(self).level().wf(),
    ;

    /// Puts the inhabitants of the level into `ecs`, whose map is left as
    /// it is.
    fn spawn_entities(&mut self, ecs: &mut World)
        requires
            old(self).built(),
            old(ecs).wf(),
        ensures
            final(self).built(),
            final(self).level() == old(self).level(),
            final(self).start() == old(self).start(),
            final(ecs)@.map == old(ecs)@.map,
            final(ecs)@.fault == old(ecs)@.fault,
    ;

    /// A copy of the level.
    fn get_map(&mut self) -> (map: TileMap)
        requires
            old(self).built(),
        ensures
            map@ == old(self).level(),
            final(self).built(),
            final(self).level() == old(self).level(),
            final(self).start() == old(self).start(),
    ;

    /// Where the player starts.
    fn get_starting_position(&mut self) -> (start: Position)
        requires
            old(self).built(),
        ensures
            start == old(self).start(),
            final(self).built(),
            final(self).level() == old(self).level(),
            final(self).start() == old(self).start(),
    ;

    /// The grid after each step of the building.
    fn get_snapshot_history(&self) -> (history: Vec<Vec<TileType>>)
        ensures
            Seq::new(history@.len(), |k: int| history@[k]@) == self.record(),
    ;
}

/// The builder for a level at `depth`: there is one way of making
/// levels, rooms and corridors.
pub fn random_builder(depth: i32) -> (b: SimpleMapBuilder)
    requires
        crate::spawner::depth_in_range(depth as int),
    ensures
        b.fresh(),
        b.depth == depth,
{
    SimpleMapBuilder::new(depth)
}

} // verus!
