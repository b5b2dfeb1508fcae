//! The systems, and the order in which a turn runs them.

use vstd::prelude::*;
use crate::map::TileMap;
use crate::rect::Point;
use crate::state::RunState;
use crate::world::{World, WorldView};
use crate::MAP_COUNT;

pub mod damage_system;
pub mod duration_system;
pub mod hunger_system;
pub mod inventory_system;
pub mod item_use_system;
pub mod laws;
pub mod map_indexing_system;
pub mod melee_combat_system;
pub mod monster_ai_system;
pub mod particle_system;
pub mod status_effects_system;
pub mod trigger_system;
pub mod visibility_system;

use damage_system::{damage_result, DamageSystem};
use duration_system::{duration_result, DurationSystem};
use hunger_system::{hunger_upto, HungerSystem};
use inventory_system::{
    drop_result, pickup_result, remove_result, ItemCollectionSystem, ItemDropSystem,
    ItemRemoveSystem,
};
use item_use_system::{blasts_answered, use_result, ItemUseSystem};
use map_indexing_system::{index_result, MapIndexingSystem};
use melee_combat_system::{melee_result, MeleeCombatSystem};
use monster_ai_system::{ai_upto, paths_answered, MonsterAI, NavigationPath, PathView};
use particle_system::{spawn_result, ParticleSpawnSystem};
use status_effects_system::{status_result, StatusEffectsSystem};
use trigger_system::{trigger_result, TriggerSystem};
use visibility_system::{all_fair, see_upto, views_answered, VisibilitySystem};

verus! {

/// What the outside gave during one run of the systems: the field of view
/// of each entity that looked around, the dice thrown for what hides in
/// the player's sight, the path of each monster that walked, and the
/// blast of each item with an area of effect. Each is indexed by entity.
pub struct Outcomes {
    pub views: Seq<Seq<Point>>,
    pub rolls: Seq<Seq<Seq<i32>>>,
    pub paths: Seq<PathView>,
    pub blasts: Seq<Seq<Point>>,
}

/// The world after the visibility system, the first of a run.
pub open spec fn after_sight(w: WorldView, o: Outcomes) -> WorldView {
    see_upto(w, o.views, o.rolls, w.capacity())
}

/// The world after the monsters moved, which they do during their turn
/// only.
pub open spec fn after_ai(w: WorldView, o: Outcomes) -> WorldView {
    let a = after_sight(w, o);
    if a.run_state == RunState::MonsterTurn {
        ai_upto(a, o.paths, a.capacity())
    } else {
        a
    }
}

/// The world before the item use system: after visibility, monster AI,
/// triggers, map indexing, melee, damage, item collection and item drop,
/// in this order.
pub open spec fn before_use(w: WorldView, o: Outcomes) -> WorldView {
    drop_result(
        pickup_result(damage_result(melee_result(index_result(trigger_result(after_ai(w, o)))))),
    )
}

/// The world after one run of the systems: after what precedes the use of
/// items, then item use, item removal, durations, status effects,
/// particle spawning and hunger, in this order, and at last the deletion
/// of the entities that were marked. After a fault nothing is deleted.
pub open spec fn tick_result(w: WorldView, o: Outcomes) -> WorldView {
    let used = use_result(before_use(w, o), o.blasts);
    let spawned = spawn_result(status_result(duration_result(remove_result(used))));
    let fed = hunger_upto(spawned, spawned.capacity());
    if fed.fault.is_some() {
        fed
    } else {
        fed.maintained()
    }
}

/// Whether the outcomes are what the outside could give: one entry per
/// entity at the time of asking, dice from 1 to 24, and every field of
/// view, path and blast that was needed an answer of the function that
/// was asked.
pub open spec fn outcomes_given<
    V: Fn(&TileMap, Point, i32) -> Vec<Point>,
    P: Fn(&TileMap, usize, usize) -> NavigationPath,
>(fov: V, search: P, w: WorldView, o: Outcomes) -> bool {
    &&& o.views.len() == w.capacity()
    &&& o.rolls.len() == w.capacity()
    &&& all_fair(o.rolls)
    &&& views_answered(fov, w, o.views, o.rolls, w.capacity())
    &&& after_sight(w, o).run_state == RunState::MonsterTurn ==> o.paths.len() == after_sight(
        w,
        o,
    ).capacity() && paths_answered(search, after_sight(w, o), o.paths, after_sight(w, o).capacity())
    &&& o.blasts.len() == before_use(w, o).capacity()
    &&& blasts_answered(fov, before_use(w, o), o.blasts, before_use(w, o).capacity())
}

/// Runs every system once, in the fixed order of a turn, and then deletes
/// the entities that were marked for deletion. `fov` answers with the
/// tiles in sight of a point within a range; `search` answers with a path
/// between two tiles. The result is that of [`tick_result`] for the
/// outcomes that were given.
pub fn run_systems<
    V: Fn(&TileMap, Point, i32) -> Vec<Point>,
    P: Fn(&TileMap, usize, usize) -> NavigationPath,
>(world: &mut World, fov: &V, search: &P)
    requires
        old(world).wf(),
        forall|m: &TileMap, p: Point, r: i32| m.wf() ==> fov.requires((m, p, r)),
        forall|m: &TileMap, a: usize, b: usize|
            m.wf() && a < MAP_COUNT && b < MAP_COUNT ==> search.requires((m, a, b)),
    ensures
        final(world).wf(),
        exists|o: Outcomes|
            #[trigger] tick_result(old(world)@, o) == final(world)@ && outcomes_given(
                *fov,
                *search,
                old(world)@,
                o,
            ),
{
    let mut visibility = VisibilitySystem {  };
    visibility.run(world, fov);
    let ghost (views, rolls) = choose|views: Seq<Seq<Point>>, rolls: Seq<Seq<Seq<i32>>>|
        views.len() == old(world)@.capacity() && rolls.len() == old(world)@.capacity()
            && #[trigger] see_upto(old(world)@, views, rolls, old(world)@.capacity()) == world@
            && all_fair(rolls) && views_answered(*fov, old(world)@, views, rolls, old(world)@.capacity());
    let ghost seen = world@;

    let mut monster_ai = MonsterAI {  };
    monster_ai.run(world, search);
    let ghost paths = if seen.run_state == RunState::MonsterTurn {
        choose|paths: Seq<PathView>|
            paths.len() == seen.capacity() && #[trigger] ai_upto(seen, paths, seen.capacity())
                == world@ && paths_answered(*search, seen, paths, seen.capacity())
    } else {
        Seq::empty()
    };

    let mut triggers = TriggerSystem {  };
    triggers.run(world);

    let mut map_indexing = MapIndexingSystem {  };
    map_indexing.run(world);

    let mut melee_combat = MeleeCombatSystem {  };
    melee_combat.run(world);

    let mut damage = DamageSystem {  };
    damage.run(world);

    let mut item_collection = ItemCollectionSystem {  };
    item_collection.run(world);

    let mut item_drop = ItemDropSystem {  };
    item_drop.run(world);
    let ghost ready = world@;

    let mut use_items = ItemUseSystem {  };
    use_items.run(world, fov);
    let ghost blasts = choose|blasts: Seq<Seq<Point>>|
        blasts.len() == ready.capacity() && #[trigger] use_result(ready, blasts) == world@
            && blasts_answered(*fov, ready, blasts, ready.capacity());

    let mut remove_items = ItemRemoveSystem {  };
    remove_items.run(world);

    let mut durations = DurationSystem {  };
    durations.run(world);

    let mut status_effects = StatusEffectsSystem {  };
    status_effects.run(world);

    let mut particles = ParticleSpawnSystem {  };
    particles.run(world);

    let mut hunger = HungerSystem {  };
    hunger.run(world);

    if world.fault.is_none() {
        world.maintain();
    }
    proof {
        let o = Outcomes { views, rolls, paths, blasts };
        assert(after_sight(old(world)@, o) == seen);
        assert(before_use(old(world)@, o) == ready);
        assert(tick_result(old(world)@, o) == world@);
        assert(outcomes_given(*fov, *search, old(world)@, o));
    }
}

} // verus!
