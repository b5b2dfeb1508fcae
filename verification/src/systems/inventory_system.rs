//! Picking items up, dropping them, taking them off, and using them.

use vstd::prelude::*;
use crate::components::{InInventory, Position};
use crate::game_log::{push_string, push_text};
use crate::world::{Entity, Fault, World, WorldView};

verus! {

/// What the player is told on picking up the item called `name`.
pub open spec fn pickup_line(name: Seq<char>) -> Seq<char> {
    "You pick up the "@ + name + "."@
}

/// What the player is told on dropping the item called `name`.
pub open spec fn drop_line(name: Seq<char>) -> Seq<char> {
    "You drop the "@ + name + "."@
}

/// What the player is told on taking off the item called `name`.
pub open spec fn remove_line(name: Seq<char>) -> Seq<char> {
    "You unequip the "@ + name
}

/// The world after the pickup that entity `i` asked for: the item leaves
/// the map and is in the inventory of the collector; a collecting player
/// is told. An item that does not exist, or one without a name that the
/// player collects, is a fault.
pub open spec fn pickup_step(w: WorldView, i: int) -> WorldView {
    if w.fault.is_some() || !w.wants_pickup.contains_key(i) {
        w
    } else {
        let pickup = w.wants_pickup[i];
        let item = pickup.item.index as int;
        let lifted = WorldView { positions: w.positions.remove(item), ..w };
        if !w.is_alive(item) {
            lifted.fail(Fault::DeadEntity)
        } else {
            let packed = WorldView {
                in_inventory: w.in_inventory.insert(item, InInventory { owner: pickup.collected_by }),
                ..lifted
            };
            if pickup.collected_by != w.player {
                packed
            } else if !w.names.contains_key(item) {
                packed.fail(Fault::MissingComponent)
            } else {
                packed.say(pickup_line(w.names[item]))
            }
        }
    }
}

/// The world after the pickups asked for by the entities with index below
/// `n`, in the order of their indices.
pub open spec fn pickup_upto(w: WorldView, n: int) -> WorldView
    decreases n,
{
    if n <= 0 {
        w
    } else {
        pickup_step(pickup_upto(w, n - 1), n - 1)
    }
}

/// The world after the item collection system ran: every pickup done and
/// every pickup intent consumed. After a fault the intents are kept.
pub open spec fn pickup_result(w: WorldView) -> WorldView {
    let s = pickup_upto(w, w.capacity());
    if s.fault.is_some() {
        s
    } else {
        WorldView { wants_pickup: Map::empty(), ..s }
    }
}

fn pickup_one(world: &mut World, e: Entity)
    ensures
        final(world)@ == pickup_step(old(world)@, e.index as int),
{
    if world.fault.is_some() {
        return ;
    }
    let pickup = match world.wants_pickup.get(e) {
        Some(p) => *p,
        None => {
            return ;
        },
    };
    world.positions.remove(pickup.item);
    if !world.is_alive(pickup.item) {
        world.fail(Fault::DeadEntity);
        return ;
    }
    world.in_inventory.insert(pickup.item, InInventory { owner: pickup.collected_by });
    if pickup.collected_by == world.player {
        match world.names.get(pickup.item) {
            None => {
                world.fail(Fault::MissingComponent);
            },
            Some(name) => {
                let mut line = String::from_str("You pick up the ");
                push_string(&mut line, &name.name);
                push_text(&mut line, ".");
                world.log.push(line);
            },
        }
    }
}

/// Carries out `WantsToPickupItem`.
pub struct ItemCollectionSystem {}

impl ItemCollectionSystem {
    /// Runs the system. See [`pickup_result`].
    pub fn run(&mut self, world: &mut World)
        ensures
            final(world)@ == pickup_result(old(world)@),
            final(world)@.map == old(world)@.map,
    {
        let n: usize = world.capacity();
        let mut i: usize = 0;
        while i < n
            invariant
                i <= n,
                n == old(world)@.capacity(),
                world@.map == old(world)@.map,
                world@ == pickup_upto(old(world)@, i as int),
            decreases n - i,
        {
            pickup_one(world, Entity { index: i });
            i = i + 1;
        }
        if world.fault.is_none() {
            world.wants_pickup.clear();
        }
    }
}

/// The world after the drop that entity `i` asked for: the item lies
/// where the dropper stands and is in no inventory; a dropping player is
/// told. A dropper without a position, an item that does not exist, or
/// one without a name that the player drops, is a fault.
pub open spec fn drop_step(w: WorldView, i: int) -> WorldView {
    if w.fault.is_some() || !w.wants_drop.contains_key(i) {
        w
    } else {
        let item = w.wants_drop[i].item.index as int;
        if !w.positions.contains_key(i) {
            w.fail(Fault::MissingComponent)
        } else if !w.is_alive(item) {
            w.fail(Fault::DeadEntity)
        } else {
            let dropped = WorldView {
                positions: w.positions.insert(
                    item,
                    Position { x: w.positions[i].x, y: w.positions[i].y },
                ),
                in_inventory: w.in_inventory.remove(item),
                ..w
            };
            if i != w.player.index {
                dropped
            } else if !w.names.contains_key(item) {
                dropped.fail(Fault::MissingComponent)
            } else {
                dropped.say(drop_line(w.names[item]))
            }
        }
    }
}

/// The world after the drops asked for by the entities with index below
/// `n`, in the order of their indices.
pub open spec fn drop_upto(w: WorldView, n: int) -> WorldView
    decreases n,
{
    if n <= 0 {
        w
    } else {
        drop_step(drop_upto(w, n - 1), n - 1)
    }
}

/// The world after the item drop system ran: every drop done and every
/// drop intent consumed. After a fault the intents are kept.
pub open spec fn drop_result(w: WorldView) -> WorldView {
    let s = drop_upto(w, w.capacity());
    if s.fault.is_some() {
        s
    } else {
        WorldView { wants_drop: Map::empty(), ..s }
    }
}

fn drop_one(world: &mut World, e: Entity)
    ensures
        final(world)@ == drop_step(old(world)@, e.index as int),
{
    if world.fault.is_some() {
        return ;
    }
    let item = match world.wants_drop.get(e) {
        Some(d) => d.item,
        None => {
            return ;
        },
    };
    let place = match world.positions.get(e) {
        Some(p) => Position { x: p.x, y: p.y },
        None => {
            world.fail(Fault::MissingComponent);
            return ;
        },
    };
    if !world.is_alive(item) {
        world.fail(Fault::DeadEntity);
        return ;
    }
    world.positions.insert(item, place);
    world.in_inventory.remove(item);
    if e.index == world.player.index {
        match world.names.get(item) {
            None => {
                world.fail(Fault::MissingComponent);
            },
            Some(name) => {
                let mut line = String::from_str("You drop the ");
                push_string(&mut line, &name.name);
                push_text(&mut line, ".");
                world.log.push(line);
            },
        }
    }
}

/// Carries out `WantsToDropItem`.
pub struct ItemDropSystem {}

impl ItemDropSystem {
    /// Runs the system. See [`drop_result`].
    pub fn run(&mut self, world: &mut World)
        ensures
            final(world)@ == drop_result(old(world)@),
            final(world)@.map == old(world)@.map,
    {
        let n: usize = world.capacity();
        let mut i: usize = 0;
        while i < n
            invariant
                i <= n,
                n == old(world)@.capacity(),
                world@.map == old(world)@.map,
                world@ == drop_upto(old(world)@, i as int),
            decreases n - i,
        {
            drop_one(world, Entity { index: i });
            i = i + 1;
        }
        if world.fault.is_none() {
            world.wants_drop.clear();
        }
    }
}

/// The world after entity `i` took off the item it asked to: the item is
/// worn by nobody and is in the inventory of `i`; the player is told if
/// the item has a name. An item that does not exist is a fault.
pub open spec fn remove_step(w: WorldView, i: int) -> WorldView {
    if w.fault.is_some() || !w.wants_remove.contains_key(i) {
        w
    } else {
        let item = w.wants_remove[i].item.index as int;
        let bare = WorldView { equipped: w.equipped.remove(item), ..w };
        if !w.is_alive(item) {
            bare.fail(Fault::DeadEntity)
        } else {
            let packed = WorldView {
                in_inventory: w.in_inventory.insert(
                    item,
                    InInventory { owner: Entity { index: i as usize } },
                ),
                ..bare
            };
            if i == w.player.index && w.names.contains_key(item) {
                packed.say(remove_line(w.names[item]))
            } else {
                packed
            }
        }
    }
}

/// The world after the entities with index below `n` took off what they
/// asked to, in the order of their indices.
pub open spec fn remove_upto(w: WorldView, n: int) -> WorldView
    decreases n,
{
    if n <= 0 {
        w
    } else {
        remove_step(remove_upto(w, n - 1), n - 1)
    }
}

/// The world after the item remove system ran: every item taken off and
/// every such intent consumed. After a fault the intents are kept.
pub open spec fn remove_result(w: WorldView) -> WorldView {
    let s = remove_upto(w, w.capacity());
    if s.fault.is_some() {
        s
    } else {
        WorldView { wants_remove: Map::empty(), ..s }
    }
}

fn remove_one(world: &mut World, e: Entity)
    ensures
        final(world)@ == remove_step(old(world)@, e.index as int),
{
    if world.fault.is_some() {
        return ;
    }
    let item = match world.wants_remove.get(e) {
        Some(r) => r.item,
        None => {
            return ;
        },
    };
    world.equipped.remove(item);
    if !world.is_alive(item) {
        world.fail(Fault::DeadEntity);
        return ;
    }
    world.in_inventory.insert(item, InInventory { owner: e });
    if e.index == world.player.index {
        if let Some(name) = world.names.get(item) {
            let mut line = String::from_str("You unequip the ");
            push_string(&mut line, &name.name);
            world.log.push(line);
        }
    }
}

/// Carries out `WantsToRemoveItem`.
pub struct ItemRemoveSystem {}

impl ItemRemoveSystem {
    /// Runs the system. See [`remove_result`].
    pub fn run(&mut self, world: &mut World)
        ensures
            final(world)@ == remove_result(old(world)@),
            final(world)@.map == old(world)@.map,
    {
        let n: usize = world.capacity();
        let mut i: usize = 0;
        while i < n
            invariant
                i <= n,
                n == old(world)@.capacity(),
                world@.map == old(world)@.map,
                world@ == remove_upto(old(world)@, i as int),
            decreases n - i,
        {
            remove_one(world, Entity { index: i });
            i = i + 1;
        }
        if world.fault.is_none() {
            world.wants_remove.clear();
        }
    }
}

} // verus!
