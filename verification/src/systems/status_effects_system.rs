//! Turning the invisibility that was asked for into the status itself.

use vstd::prelude::*;
use crate::components::Invisible;
use crate::world::{Entity, Fault, World, WorldView};

verus! {

/// The world after the wish for invisibility that entity `i` holds was
/// granted: the entity named in the wish is invisible for the wished
/// number of turns. A wish for an entity that does not exist is a fault.
pub open spec fn status_step(w: WorldView, i: int) -> WorldView {
    if w.fault.is_some() || !w.wants_be_invisible.contains_key(i) {
        w
    } else {
        let wish = w.wants_be_invisible[i];
        if !w.is_alive(wish.entity.index as int) {
            w.fail(Fault::DeadEntity)
        } else {
            WorldView {
                invisible: w.invisible.insert(
                    wish.entity.index as int,
                    Invisible { turns: Some(wish.turns) },
                ),
                ..w
            }
        }
    }
}

/// The world after the wishes held by the entities with index below `n`
/// were granted, in the order of their indices.
pub open spec fn status_upto(w: WorldView, n: int) -> WorldView
    decreases n,
{
    if n <= 0 {
        w
    } else {
        status_step(status_upto(w, n - 1), n - 1)
    }
}

/// The world after the status effects system ran: every wish granted and
/// consumed. After a fault the wishes are kept.
pub open spec fn status_result(w: WorldView) -> WorldView {
    let s = status_upto(w, w.capacity());
    if s.fault.is_some() {
        s
    } else {
        WorldView { wants_be_invisible: Map::empty(), ..s }
    }
}

fn status_one(world: &mut World, e: Entity)
    ensures
        final(world)@ == status_step(old(world)@, e.index as int),
{
    if world.fault.is_some() {
        return ;
    }
    let wish = match world.wants_be_invisible.get(e) {
        Some(w) => *w,
        None => {
            return ;
        },
    };
    if !world.is_alive(wish.entity) {
        world.fail(Fault::DeadEntity);
    } else {
        world.invisible.insert(wish.entity, Invisible { turns: Some(wish.turns) });
    }
}

/// Grants `WantsBeInvisible`.
pub struct StatusEffectsSystem {}

impl StatusEffectsSystem {
    /// Runs the system. See [`status_result`].
    pub fn run(&mut self, world: &mut World)
        ensures
            final(world)@ == status_result(old(world)@),
            final(world)@.map == old(world)@.map,
    {
        let n: usize = world.capacity();
        let mut i: usize = 0;
        while i < n
            invariant
                i <= n,
                n == old(world)@.capacity(),
                world@.map == old(world)@.map,
                world@ == status_upto(old(world)@, i as int),
            decreases n - i,
        {
            status_one(world, Entity { index: i });
            i = i + 1;
        }
        if world.fault.is_none() {
            world.wants_be_invisible.clear();
        }
    }
}

} // verus!
