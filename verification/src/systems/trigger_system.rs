//! Traps and other things that act on whoever steps on their tile.

use vstd::prelude::*;
use crate::components::{cp437, glyph, with_damage, SufferDamage, BLACK, ORANGE};
use crate::game_log::push_text;
use crate::systems::map_indexing_system::tile_of;
use crate::systems::particle_system::ParticleRequest;
use crate::rect::Point;
use crate::world::{Entity, Fault, World, WorldView};

verus! {

/// Microseconds for which the marker of a sprung trap is shown.
pub const TRAP_MARKER_LIFETIME: i64 = 200000;

/// What is logged when the thing called `name` is triggered.
pub open spec fn trigger_line(name: Seq<char>) -> Seq<char> {
    name + " triggers!"@
}

/// The marker shown where a trap hurts someone.
pub open spec fn trap_marker(x: i32, y: i32) -> ParticleRequest {
    ParticleRequest { x, y, fg: ORANGE, bg: BLACK, glyph: cp437('‼'), lifetime: TRAP_MARKER_LIFETIME }
}

/// The world after `mover` met `other` on its tile. Nothing happens unless
/// `other` is another entity with an entry trigger. Then the trigger is
/// logged under its name, if it has one; if it inflicts damage, a marker
/// is asked for where the mover stands and the damage is added to what the
/// mover has to suffer; it is no longer invisible; and one that acts only
/// once is marked for deletion. A trigger that acts only once and does
/// not exist is a fault.
pub open spec fn spring(w: WorldView, mover: int, other: Entity) -> WorldView {
    let trap = other.index as int;
    if w.fault.is_some() || mover == trap || !w.entry_triggers.contains_key(trap) {
        w
    } else {
        let named = if w.names.contains_key(trap) {
            w.say(trigger_line(w.names[trap]))
        } else {
            w
        };
        let hurt = if w.inflicts_damage.contains_key(trap) {
            WorldView {
                suffer_damage: with_damage(w.suffer_damage, mover, w.inflicts_damage[trap].damage),
                ..named.request(trap_marker(w.positions[mover].x, w.positions[mover].y))
            }
        } else {
            named
        };
        let shown = WorldView { invisible: w.invisible.remove(trap), ..hurt };
        if !w.single_activations.contains_key(trap) {
            shown
        } else if !w.is_alive(trap) {
            shown.fail(Fault::DeadEntity)
        } else {
            WorldView { doomed: w.doomed.push(other), ..shown }
        }
    }
}

/// The world after `mover` met the first `k` of `others`, in their order.
pub open spec fn spring_upto(w: WorldView, mover: int, others: Seq<Entity>, k: int) -> WorldView
    decreases k,
{
    if k <= 0 {
        w
    } else {
        spring(spring_upto(w, mover, others, k - 1), mover, others[k - 1])
    }
}

/// The world after the move of entity `i` was looked at: if it moved this
/// turn and has a position, it meets every occupant of its tile, in the
/// order of the content index. A position off the map is a fault.
pub open spec fn trigger_step(w: WorldView, i: int) -> WorldView {
    if w.fault.is_some() || !w.entity_moved.contains_key(i) || !w.positions.contains_key(i) {
        w
    } else {
        match tile_of(w, i) {
            None => w.fail(Fault::OutOfBounds),
            Some(idx) => spring_upto(
                w,
                i,
                w.map.content[idx as int],
                w.map.content[idx as int].len() as int,
            ),
        }
    }
}

/// The world after the moves of the entities with index below `n` were
/// looked at, in the order of their indices.
pub open spec fn trigger_upto(w: WorldView, n: int) -> WorldView
    decreases n,
{
    if n <= 0 {
        w
    } else {
        trigger_step(trigger_upto(w, n - 1), n - 1)
    }
}

/// The world after the trigger system ran: every move looked at and every
/// move marker consumed. After a fault the markers are kept.
pub open spec fn trigger_result(w: WorldView) -> WorldView {
    let s = trigger_upto(w, w.capacity());
    if s.fault.is_some() {
        s
    } else {
        WorldView { entity_moved: Map::empty(), ..s }
    }
}

/// Meeting the occupants of a tile changes neither the map, nor who
/// stands where, nor how many entities there are.
pub proof fn lemma_spring_frame(w: WorldView, mover: int, others: Seq<Entity>, k: int)
    ensures
        spring_upto(w, mover, others, k).map == w.map,
        spring_upto(w, mover, others, k).positions == w.positions,
        spring_upto(w, mover, others, k).alive == w.alive,
        spring_upto(w, mover, others, k).entity_moved == w.entity_moved,
    decreases k,
{
    if k > 0 {
        lemma_spring_frame(w, mover, others, k - 1);
    }
}

fn spring_one(world: &mut World, mover: Entity, other: Entity)
    requires
        old(world)@.positions.contains_key(mover.index as int),
    ensures
        final(world)@ == spring(old(world)@, mover.index as int, other),
{
    if world.fault.is_some() || mover.index == other.index || !world.entry_triggers.contains(other) {
        return ;
    }
    if let Some(name) = world.names.get(other) {
        let mut line = name.name.clone();
        push_text(&mut line, " triggers!");
        world.log.push(line);
    }
    if let Some(damage) = world.inflicts_damage.get(other) {
        if let Some(pos) = world.positions.get(mover) {
            world.particles.request(pos.x, pos.y, ORANGE, BLACK, glyph('‼'), TRAP_MARKER_LIFETIME);
        }
        SufferDamage::new_damage(&mut world.suffer_damage, mover, damage.damage);
    }
    world.invisible.remove(other);
    if world.single_activations.contains(other) {
        if world.is_alive(other) {
            world.doomed.push(other);
        } else {
            world.fail(Fault::DeadEntity);
        }
    }
}

fn trigger_one(world: &mut World, e: Entity)
    requires
        old(world).wf(),
    ensures
        final(world)@ == trigger_step(old(world)@, e.index as int),
        final(world).wf(),
{
    if world.fault.is_some() || !world.entity_moved.contains(e) {
        return ;
    }
    let pos = match world.positions.get(e) {
        Some(p) => *p,
        None => {
            return ;
        },
    };
    match world.map.checked_idx(Point { x: pos.x, y: pos.y }) {
        None => {
            world.fail(Fault::OutOfBounds);
        },
        Some(idx) => {
            let n: usize = world.map.tile_content[idx].len();
            let ghost others = world@.map.content[idx as int];
            let mut k: usize = 0;
            while k < n
                invariant
                    k <= n,
                    world.wf(),
                    idx < crate::MAP_COUNT,
                    world@.positions.contains_key(e.index as int),
                    others == old(world)@.map.content[idx as int],
                    n == others.len(),
                    world@.map == old(world)@.map,
                    world@.positions == old(world)@.positions,
                    world@ == spring_upto(old(world)@, e.index as int, others, k as int),
                decreases n - k,
            {
                let other = world.map.tile_content[idx][k];
                spring_one(world, e, other);
                proof {
                    lemma_spring_frame(old(world)@, e.index as int, others, k + 1);
                }
                k = k + 1;
            }
        },
    }
}

/// Lets the triggers act on the entities that moved.
pub struct TriggerSystem {}

impl TriggerSystem {
    /// Runs the system. See [`trigger_result`].
    pub fn run(&mut self, world: &mut World)
        requires
            old(world).wf(),
        ensures
            final(world)@ == trigger_result(old(world)@),
            final(world).wf(),
    {
        let n: usize = world.capacity();
        let mut i: usize = 0;
        while i < n
            invariant
                i <= n,
                n == old(world)@.capacity(),
                world.wf(),
                world@ == trigger_upto(old(world)@, i as int),
            decreases n - i,
        {
            trigger_one(world, Entity { index: i });
            i = i + 1;
        }
        if world.fault.is_none() {
            world.entity_moved.clear();
        }
    }
}

} // verus!
