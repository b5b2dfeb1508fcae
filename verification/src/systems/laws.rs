//! What a run of the systems leaves behind: every intent is consumed in
//! the run in which it was announced.

use vstd::prelude::*;
use crate::components::EquipmentSlot;
use crate::rect::Point;
use crate::systems::damage_system::{damage_result, damage_upto};
use crate::systems::duration_system::duration_result;
use crate::systems::hunger_system::hunger_upto;
use crate::systems::inventory_system::{
    drop_result, drop_upto, pickup_result, pickup_upto, remove_result, remove_upto,
};
use crate::systems::item_use_system::{
    equip_cap, food_cap, harm_cap, harm_upto, heal_cap, heal_upto, hide_cap, hide_upto, map_cap,
    unequip_upto, use_aimed, use_apply, use_result, use_step, use_targets, use_upto,
};
use crate::systems::map_indexing_system::{index_result, index_start, index_upto};
use crate::systems::melee_combat_system::{melee_result, melee_upto};
use crate::systems::particle_system::{spawn_result, spawn_upto, ParticleRequest};
use crate::systems::status_effects_system::{status_result, status_upto};
use crate::systems::trigger_system::trigger_result;
use crate::systems::{after_ai, before_use, tick_result, Outcomes};
use crate::world::{Entity, WorldView};

verus! {

/// Whether `b` holds the same intents of the kinds that the systems before
/// item use consume: attacks, pickups, drops, and move markers.
pub open spec fn same_early_intents(a: WorldView, b: WorldView) -> bool {
    &&& a.wants_melee == b.wants_melee
    &&& a.wants_pickup == b.wants_pickup
    &&& a.wants_drop == b.wants_drop
    &&& a.entity_moved == b.entity_moved
}

/// Whether `b` holds the same intents as `a`, of every kind.
pub open spec fn same_intents(a: WorldView, b: WorldView) -> bool {
    &&& same_early_intents(a, b)
    &&& a.wants_use == b.wants_use
    &&& a.wants_remove == b.wants_remove
    &&& a.wants_be_invisible == b.wants_be_invisible
}

/// Whether no intent of any kind is pending, and no particle is asked
/// for.
pub open spec fn nothing_pending(w: WorldView) -> bool {
    &&& w.wants_melee == Map::<int, crate::components::WantsToMelee>::empty()
    &&& w.wants_pickup == Map::<int, crate::components::WantsToPickupItem>::empty()
    &&& w.wants_drop == Map::<int, crate::components::WantsToDropItem>::empty()
    &&& w.wants_use == Map::<int, crate::components::WantsToUseItem>::empty()
    &&& w.wants_remove == Map::<int, crate::components::WantsToRemoveItem>::empty()
    &&& w.wants_be_invisible == Map::<int, crate::components::WantsBeInvisible>::empty()
    &&& w.entity_moved == Map::<int, crate::components::EntityMoved>::empty()
    &&& w.particles == Seq::<ParticleRequest>::empty()
}

/// Map indexing touches no intent, and does nothing after a fault.
pub proof fn lemma_index_intents(w: WorldView, n: int)
    ensures
        same_intents(w, index_upto(w, n)),
        w.fault.is_some() ==> index_upto(w, n) == w,
    decreases n,
{
    if n > 0 {
        lemma_index_intents(w, n - 1);
    }
}

/// Melee touches no intent but the attacks, and does nothing after a
/// fault.
pub proof fn lemma_melee_intents(w: WorldView, n: int)
    ensures
        melee_upto(w, n).entity_moved == w.entity_moved,
        melee_upto(w, n).wants_pickup == w.wants_pickup,
        melee_upto(w, n).wants_drop == w.wants_drop,
        melee_upto(w, n).wants_use == w.wants_use,
        melee_upto(w, n).wants_remove == w.wants_remove,
        melee_upto(w, n).wants_be_invisible == w.wants_be_invisible,
        w.fault.is_some() ==> melee_upto(w, n) == w,
    decreases n,
{
    if n > 0 {
        lemma_melee_intents(w, n - 1);
    }
}

/// Damage touches no intent, and does nothing after a fault.
pub proof fn lemma_damage_intents(w: WorldView, n: int)
    ensures
        same_intents(w, damage_upto(w, n)),
        w.fault.is_some() ==> damage_upto(w, n) == w,
    decreases n,
{
    if n > 0 {
        lemma_damage_intents(w, n - 1);
    }
}

/// Item collection touches no intent but the pickups, and does nothing
/// after a fault.
pub proof fn lemma_pickup_intents(w: WorldView, n: int)
    ensures
        pickup_upto(w, n).entity_moved == w.entity_moved,
        pickup_upto(w, n).wants_melee == w.wants_melee,
        pickup_upto(w, n).wants_drop == w.wants_drop,
        pickup_upto(w, n).wants_use == w.wants_use,
        pickup_upto(w, n).wants_remove == w.wants_remove,
        pickup_upto(w, n).wants_be_invisible == w.wants_be_invisible,
        w.fault.is_some() ==> pickup_upto(w, n) == w,
    decreases n,
{
    if n > 0 {
        lemma_pickup_intents(w, n - 1);
    }
}

/// Item drop touches no intent but the drops, and does nothing after a
/// fault.
pub proof fn lemma_drop_intents(w: WorldView, n: int)
    ensures
        drop_upto(w, n).entity_moved == w.entity_moved,
        drop_upto(w, n).wants_melee == w.wants_melee,
        drop_upto(w, n).wants_pickup == w.wants_pickup,
        drop_upto(w, n).wants_use == w.wants_use,
        drop_upto(w, n).wants_remove == w.wants_remove,
        drop_upto(w, n).wants_be_invisible == w.wants_be_invisible,
        w.fault.is_some() ==> drop_upto(w, n) == w,
    decreases n,
{
    if n > 0 {
        lemma_drop_intents(w, n - 1);
    }
}

proof fn lemma_unequip_intents(w: WorldView, target: Entity, slot: EquipmentSlot, n: int)
    ensures
        same_early_intents(w, unequip_upto(w, target, slot, n)),
        unequip_upto(w, target, slot, n).wants_remove == w.wants_remove,
        unequip_upto(w, target, slot, n).fault == w.fault,
    decreases n,
{
    if n > 0 {
        lemma_unequip_intents(w, target, slot, n - 1);
    }
}

proof fn lemma_heal_intents(w: WorldView, user: int, item: int, targets: Seq<Entity>, k: int)
    ensures
        same_early_intents(w, heal_upto(w, user, item, targets, k)),
        heal_upto(w, user, item, targets, k).wants_remove == w.wants_remove,
        w.fault.is_some() ==> heal_upto(w, user, item, targets, k) == w,
    decreases k,
{
    if k > 0 {
        lemma_heal_intents(w, user, item, targets, k - 1);
    }
}

proof fn lemma_harm_intents(w: WorldView, user: int, item: int, targets: Seq<Entity>, k: int)
    ensures
        same_early_intents(w, harm_upto(w, user, item, targets, k)),
        harm_upto(w, user, item, targets, k).wants_remove == w.wants_remove,
        w.fault.is_some() ==> harm_upto(w, user, item, targets, k) == w,
    decreases k,
{
    if k > 0 {
        lemma_harm_intents(w, user, item, targets, k - 1);
    }
}

proof fn lemma_hide_intents(w: WorldView, user: int, item: int, targets: Seq<Entity>, k: int)
    ensures
        same_early_intents(w, hide_upto(w, user, item, targets, k)),
        hide_upto(w, user, item, targets, k).wants_remove == w.wants_remove,
        w.fault.is_some() ==> hide_upto(w, user, item, targets, k) == w,
    decreases k,
{
    if k > 0 {
        lemma_hide_intents(w, user, item, targets, k - 1);
    }
}

/// One use of an item touches no intent but the wish for invisibility.
pub proof fn lemma_use_step_intents(w: WorldView, i: int, blast: Seq<Point>)
    ensures
        same_early_intents(w, use_step(w, i, blast)),
        use_step(w, i, blast).wants_remove == w.wants_remove,
        use_step(w, i, blast).wants_use == w.wants_use,
        w.fault.is_some() ==> use_step(w, i, blast) == w,
{
    crate::systems::item_use_system::lemma_use_keeps_intents(w, i, blast);
    if w.fault.is_none() && w.wants_use.contains_key(i) && !w.active_cooldowns.contains_key(
        w.wants_use[i].item.index as int,
    ) {
        let u = w.wants_use[i];
        let item = u.item.index as int;
        let targets = use_targets(w, Entity { index: i as usize }, u, blast);
        let a = use_aimed(w, u, blast);
        let b = equip_cap(a, item, targets);
        if a.fault.is_none() && a.equippable.contains_key(item) && targets.len() > 0 {
            lemma_unequip_intents(a, targets[0], a.equippable[item].slot, a.capacity());
        }
        let c = food_cap(b, item, targets);
        let d = heal_cap(c, i, item, targets);
        lemma_heal_intents(c, i, item, targets, targets.len() as int);
        let e = map_cap(d, item);
        let f = harm_cap(e, i, item, targets);
        lemma_harm_intents(e, i, item, targets, targets.len() as int);
        let g = hide_cap(f, i, item, targets);
        lemma_hide_intents(f, i, item, targets, targets.len() as int);
        assert(g == use_apply(a, i, item, targets));
        assert(same_early_intents(w, g));
        assert(g.wants_remove == w.wants_remove);
    }
}

/// Item use touches no intent but the uses and the wishes for
/// invisibility, and does nothing after a fault.
pub proof fn lemma_use_intents(w: WorldView, blasts: Seq<Seq<Point>>, n: int)
    ensures
        same_early_intents(w, use_upto(w, blasts, n)),
        use_upto(w, blasts, n).wants_remove == w.wants_remove,
        use_upto(w, blasts, n).wants_use == w.wants_use,
        w.fault.is_some() ==> use_upto(w, blasts, n) == w,
    decreases n,
{
    if n > 0 {
        lemma_use_intents(w, blasts, n - 1);
        lemma_use_step_intents(use_upto(w, blasts, n - 1), n - 1, blasts[n - 1]);
    }
}

/// Item removal touches no intent but the removals, and does nothing after
/// a fault.
pub proof fn lemma_remove_intents(w: WorldView, n: int)
    ensures
        same_early_intents(w, remove_upto(w, n)),
        remove_upto(w, n).wants_use == w.wants_use,
        remove_upto(w, n).wants_be_invisible == w.wants_be_invisible,
        w.fault.is_some() ==> remove_upto(w, n) == w,
    decreases n,
{
    if n > 0 {
        lemma_remove_intents(w, n - 1);
    }
}

/// Status effects touch no intent but the wishes for invisibility, and do
/// nothing after a fault.
pub proof fn lemma_status_intents(w: WorldView, n: int)
    ensures
        same_early_intents(w, status_upto(w, n)),
        status_upto(w, n).wants_use == w.wants_use,
        status_upto(w, n).wants_remove == w.wants_remove,
        w.fault.is_some() ==> status_upto(w, n) == w,
    decreases n,
{
    if n > 0 {
        lemma_status_intents(w, n - 1);
    }
}

/// Making particles touches no intent and no fault.
pub proof fn lemma_spawn_intents(w: WorldView, requests: Seq<ParticleRequest>, n: int)
    ensures
        same_intents(w, spawn_upto(w, requests, n)),
        spawn_upto(w, requests, n).fault == w.fault,
    decreases n,
{
    if n > 0 {
        lemma_spawn_intents(w, requests, n - 1);
    }
}

/// Hunger touches no intent, asks for no particle, and does nothing after
/// a fault.
pub proof fn lemma_hunger_intents(w: WorldView, n: int)
    ensures
        same_intents(w, hunger_upto(w, n)),
        hunger_upto(w, n).particles == w.particles,
        w.fault.is_some() ==> hunger_upto(w, n) == w,
    decreases n,
{
    if n > 0 {
        lemma_hunger_intents(w, n - 1);
    }
}

/// Deleting entities leaves a world without pending intents without
/// pending intents.
pub proof fn lemma_reap_intents(w: WorldView, n: int)
    requires
        nothing_pending(w),
    ensures
        nothing_pending(w.reap(n)),
    decreases n,
{
    if n > 0 {
        lemma_reap_intents(w, n - 1);
        let before = w.reap(n - 1);
        let i = w.doomed[n - 1].index as int;
        let after = before.delete(i);
        assert(after.wants_melee =~= before.wants_melee);
        assert(after.wants_pickup =~= before.wants_pickup);
        assert(after.wants_drop =~= before.wants_drop);
        assert(after.wants_use =~= before.wants_use);
        assert(after.wants_remove =~= before.wants_remove);
        assert(after.wants_be_invisible =~= before.wants_be_invisible);
        assert(after.entity_moved =~= before.entity_moved);
    }
}

/// After a run of the systems that met no fault, no intent of any kind is
/// pending and no particle is asked for: what was announced before or
/// during the run has been consumed.
pub proof fn lemma_intents_are_consumed(w: WorldView, o: Outcomes)
    requires
        tick_result(w, o).fault.is_none(),
    ensures
        nothing_pending(tick_result(w, o)),
{
    let moved = after_ai(w, o);
    let sprung = trigger_result(moved);
    let indexed = index_result(sprung);
    let fought = melee_result(indexed);
    let hurt = damage_result(fought);
    let picked = pickup_result(hurt);
    let dropped = drop_result(picked);
    assert(dropped == before_use(w, o));
    let used = use_result(dropped, o.blasts);
    let bare = remove_result(used);
    let aged = duration_result(bare);
    let granted = status_result(aged);
    let spawned = spawn_result(granted);
    let fed = hunger_upto(spawned, spawned.capacity());
    // No fault at the end means no fault after any stage.
    lemma_hunger_intents(spawned, spawned.capacity());
    lemma_spawn_intents(granted, granted.particles, granted.particles.len() as int);
    lemma_status_intents(aged, aged.capacity());
    lemma_remove_intents(used, used.capacity());
    lemma_use_intents(dropped, o.blasts, dropped.capacity());
    lemma_drop_intents(picked, picked.capacity());
    lemma_pickup_intents(hurt, hurt.capacity());
    lemma_damage_intents(fought, fought.capacity());
    lemma_melee_intents(indexed, indexed.capacity());
    lemma_index_intents(index_start(sprung), sprung.capacity());
    assert(spawned.fault.is_none());
    assert(granted.fault.is_none());
    assert(aged.fault.is_none());
    assert(bare.fault.is_none());
    assert(used.fault.is_none());
    assert(dropped.fault.is_none());
    assert(picked.fault.is_none());
    assert(hurt.fault.is_none());
    assert(fought.fault.is_none());
    assert(indexed.fault.is_none());
    assert(sprung.fault.is_none());
    // Each kind of intent is cleared by its system and not announced again.
    assert(sprung.entity_moved == Map::<int, crate::components::EntityMoved>::empty());
    assert(fought.wants_melee == Map::<int, crate::components::WantsToMelee>::empty());
    assert(picked.wants_pickup == Map::<int, crate::components::WantsToPickupItem>::empty());
    assert(dropped.wants_drop == Map::<int, crate::components::WantsToDropItem>::empty());
    assert(used.wants_use == Map::<int, crate::components::WantsToUseItem>::empty());
    assert(bare.wants_remove == Map::<int, crate::components::WantsToRemoveItem>::empty());
    assert(granted.wants_be_invisible == Map::<int, crate::components::WantsBeInvisible>::empty());
    assert(spawned.particles == Seq::<ParticleRequest>::empty());
    assert(same_early_intents(fought, hurt));
    assert(nothing_pending(fed));
    lemma_reap_intents(
        WorldView { doomed: fed.doomed, ..fed },
        fed.doomed.len() as int,
    );
    assert(nothing_pending(fed.maintained()));
}

} // verus!
