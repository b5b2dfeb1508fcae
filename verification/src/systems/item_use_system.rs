//! Using an item: who is hit, and what each capability of the item does.

use vstd::prelude::*;
use crate::components::{
    cp437, glyph, with_damage, ActiveCooldown, CombatStats, Equipped, EquipmentSlot, HungerClock,
    InInventory, SufferDamage, WantsBeInvisible, WantsToUseItem, BLACK, GREEN, ORANGE, RED,
};
use crate::game_log::{decimal, push_decimal, push_string, push_text};
use crate::map::{index_of, point_index, TileMap};
use crate::rect::Point;
use crate::state::RunState;
use crate::systems::particle_system::ParticleRequest;
use crate::world::{Entity, Fault, World, WorldView};
use crate::{sat, sat_add, MAP_HEIGHT, MAP_WIDTH};

verus! {

/// Microseconds for which the markers of an item's effect are shown.
pub const EFFECT_MARKER_LIFETIME: i64 = 200000;

/// Whether `p` lies on the map and off its border.
pub open spec fn in_interior(p: Point) -> bool {
    0 < p.x < MAP_WIDTH - 1 && 0 < p.y < MAP_HEIGHT - 1
}

/// The marker shown on a tile of a blast.
pub open spec fn blast_marker(p: Point) -> ParticleRequest {
    ParticleRequest {
        x: p.x,
        y: p.y,
        fg: ORANGE,
        bg: BLACK,
        glyph: cp437('░'),
        lifetime: EFFECT_MARKER_LIFETIME,
    }
}

/// The marker shown where someone is healed.
pub open spec fn heal_marker(x: i32, y: i32) -> ParticleRequest {
    ParticleRequest { x, y, fg: GREEN, bg: BLACK, glyph: cp437('♥'), lifetime: EFFECT_MARKER_LIFETIME }
}

/// The marker shown where an item hurts someone.
pub open spec fn harm_marker(x: i32, y: i32) -> ParticleRequest {
    ParticleRequest { x, y, fg: RED, bg: BLACK, glyph: cp437('‼'), lifetime: EFFECT_MARKER_LIFETIME }
}

/// What the player is told on using an item that is on cooldown.
pub open spec fn cooldown_line(name: Seq<char>, turns: int) -> Seq<char> {
    "You cannot use "@ + name + ", it is on cooldown for "@ + decimal(turns) + " turns"@
}

/// What the player is told when an item gives way to another.
pub open spec fn unequip_line(name: Seq<char>) -> Seq<char> {
    "You unequip "@ + name + "."@
}

/// What the player is told on putting an item on.
pub open spec fn equip_line(name: Seq<char>) -> Seq<char> {
    "You equip "@ + name + "."@
}

/// What is logged when something is eaten.
pub open spec fn eat_line(name: Seq<char>) -> Seq<char> {
    "You eat the "@ + name + "."@
}

/// What the player is told on healing with an item.
pub open spec fn heal_line(name: Seq<char>, amount: int) -> Seq<char> {
    "You use the "@ + name + ", healing "@ + decimal(amount) + " hp."@
}

/// What the player is told on hurting a target with an item.
pub open spec fn harm_line(item: Seq<char>, target: Seq<char>, damage: int) -> Seq<char> {
    "You use "@ + item + " on "@ + target + ", inflicting "@ + decimal(damage) + " hp."@
}

/// What the player is told on turning invisible.
pub open spec fn hide_line(item: Seq<char>, turns: int) -> Seq<char> {
    "You use "@ + item + ", and become invisible for "@ + decimal(turns) + " turns."@
}

/// What is logged when the map is revealed.
pub open spec fn mapped_line() -> Seq<char> {
    "The map is revealed to you!"@
}

/// The occupants of the interior tiles among the first `k` of `tiles`, tile
/// by tile in the order of `tiles`.
pub open spec fn blast_targets(content: Seq<Seq<Entity>>, tiles: Seq<Point>, k: int) -> Seq<Entity>
    decreases k,
{
    if k <= 0 {
        Seq::empty()
    } else if in_interior(tiles[k - 1]) {
        blast_targets(content, tiles, k - 1) + content[index_of(
            tiles[k - 1].x as int,
            tiles[k - 1].y as int,
        )]
    } else {
        blast_targets(content, tiles, k - 1)
    }
}

/// One marker for each interior tile among the first `k` of `tiles`.
pub open spec fn blast_markers(tiles: Seq<Point>, k: int) -> Seq<ParticleRequest>
    decreases k,
{
    if k <= 0 {
        Seq::empty()
    } else if in_interior(tiles[k - 1]) {
        blast_markers(tiles, k - 1).push(blast_marker(tiles[k - 1]))
    } else {
        blast_markers(tiles, k - 1)
    }
}

/// Number of interior tiles among the first `k` of `tiles`.
pub open spec fn interior_count(tiles: Seq<Point>, k: int) -> int
    decreases k,
{
    if k <= 0 {
        0
    } else if in_interior(tiles[k - 1]) {
        interior_count(tiles, k - 1) + 1
    } else {
        interior_count(tiles, k - 1)
    }
}

/// A blast asks for as many markers as it has tiles off the border.
pub proof fn lemma_one_marker_per_blast_tile(tiles: Seq<Point>, k: int)
    ensures
        blast_markers(tiles, k).len() == interior_count(tiles, k),
    decreases k,
{
    if k > 0 {
        lemma_one_marker_per_blast_tile(tiles, k - 1);
    }
}

/// Whether the use needs the tiles of a blast: it is aimed and the item
/// has an area of effect.
pub open spec fn needs_blast(w: WorldView, u: WantsToUseItem) -> bool {
    u.target.is_some() && w.area_of_effect.contains_key(u.item.index as int)
}

/// Whom the use by `user` hits. Unaimed, the user. Aimed with an item
/// without area of effect, the occupants of the target tile. With area of
/// effect, the occupants of the interior tiles of `blast`.
pub open spec fn use_targets(w: WorldView, user: Entity, u: WantsToUseItem, blast: Seq<Point>) -> Seq<
    Entity,
> {
    match u.target {
        None => seq![user],
        Some(p) => if w.area_of_effect.contains_key(u.item.index as int) {
            blast_targets(w.map.content, blast, blast.len() as int)
        } else {
            match point_index(p) {
                Some(idx) => w.map.content[idx as int],
                None => Seq::empty(),
            }
        },
    }
}

/// The world after the targets were found: a blast asks for its markers,
/// and a single target tile off the map is a fault.
pub open spec fn use_aimed(w: WorldView, u: WantsToUseItem, blast: Seq<Point>) -> WorldView {
    match u.target {
        None => w,
        Some(p) => if w.area_of_effect.contains_key(u.item.index as int) {
            WorldView { particles: w.particles + blast_markers(blast, blast.len() as int), ..w }
        } else if point_index(p).is_none() {
            w.fail(Fault::OutOfBounds)
        } else {
            w
        },
    }
}

/// The world after item `j` was looked at while `target` equips into
/// `slot`: a named item that `target` wears in that slot goes back to the
/// inventory of `target`, of which a player is told.
pub open spec fn unequip_step(w: WorldView, target: Entity, slot: EquipmentSlot, j: int) -> WorldView {
    if w.equipped.contains_key(j) && w.names.contains_key(j) && w.equipped[j].owner == target
        && w.equipped[j].slot == slot {
        let told = if target == w.player {
            w.say(unequip_line(w.names[j]))
        } else {
            w
        };
        WorldView {
            equipped: w.equipped.remove(j),
            in_inventory: w.in_inventory.insert(j, InInventory { owner: target }),
            ..told
        }
    } else {
        w
    }
}

/// The world after the items with index below `n` were looked at while
/// `target` equips into `slot`, in the order of their indices.
pub open spec fn unequip_upto(w: WorldView, target: Entity, slot: EquipmentSlot, n: int) -> WorldView
    decreases n,
{
    if n <= 0 {
        w
    } else {
        unequip_step(unequip_upto(w, target, slot, n - 1), target, slot, n - 1)
    }
}

/// Equipping: the first target takes off what it wears in the slot of the
/// item and puts the item on; a player is told. No target is a fault, and
/// so is an item without a name that the player puts on.
pub open spec fn equip_cap(w: WorldView, item: int, targets: Seq<Entity>) -> WorldView {
    if w.fault.is_some() || !w.equippable.contains_key(item) {
        w
    } else if targets.len() == 0 {
        w.fail(Fault::NoTarget)
    } else {
        let slot = w.equippable[item].slot;
        let bare = unequip_upto(w, targets[0], slot, w.capacity());
        let worn = WorldView {
            equipped: bare.equipped.insert(item, Equipped { owner: targets[0], slot }),
            in_inventory: bare.in_inventory.remove(item),
            ..bare
        };
        if targets[0] != w.player {
            worn
        } else if !w.names.contains_key(item) {
            worn.fail(Fault::MissingComponent)
        } else {
            worn.say(equip_line(w.names[item]))
        }
    }
}

/// Eating: the nutrition of the item is added to the hunger clock of the
/// first target, if it has one, which is logged. No target is a fault, and
/// so is a meal without a name.
pub open spec fn food_cap(w: WorldView, item: int, targets: Seq<Entity>) -> WorldView {
    if w.fault.is_some() || !w.food.contains_key(item) {
        w
    } else if targets.len() == 0 {
        w.fail(Fault::NoTarget)
    } else if !w.hunger_clocks.contains_key(targets[0].index as int) {
        w
    } else {
        let t = targets[0].index as int;
        let clock = w.hunger_clocks[t];
        let fed = WorldView {
            hunger_clocks: w.hunger_clocks.insert(
                t,
                HungerClock {
                    total_nutrition: sat(clock.total_nutrition + w.food[item].nutrition) as i32,
                    ..clock
                },
            ),
            ..w
        };
        if !w.names.contains_key(item) {
            fed.fail(Fault::MissingComponent)
        } else {
            fed.say(eat_line(w.names[item]))
        }
    }
}

/// Hit points after healing by `amount`: no more than the maximum.
pub open spec fn healed(stats: CombatStats, amount: i32) -> CombatStats {
    CombatStats {
        hp: if sat(stats.hp + amount) < stats.max_hp {
            sat(stats.hp + amount) as i32
        } else {
            stats.max_hp
        },
        ..stats
    }
}

/// Healing one target: one with combat stats gains hit points, the using
/// player is told, and a marker is asked for where the target stands.
pub open spec fn heal_one(w: WorldView, user: int, item: int, target: Entity) -> WorldView {
    let t = target.index as int;
    if w.fault.is_some() || !w.combat_stats.contains_key(t) {
        w
    } else {
        let amount = w.provides_healing[item].heal_amount;
        let cured = WorldView {
            combat_stats: w.combat_stats.insert(t, healed(w.combat_stats[t], amount)),
            ..w
        };
        if user == w.player.index && !w.names.contains_key(item) {
            cured.fail(Fault::MissingComponent)
        } else {
            let told = if user == w.player.index {
                cured.say(heal_line(w.names[item], amount as int))
            } else {
                cured
            };
            if w.positions.contains_key(t) {
                told.request(heal_marker(w.positions[t].x, w.positions[t].y))
            } else {
                told
            }
        }
    }
}

/// The world after the first `k` of `targets` were healed, in their order.
pub open spec fn heal_upto(w: WorldView, user: int, item: int, targets: Seq<Entity>, k: int) -> WorldView
    decreases k,
{
    if k <= 0 {
        w
    } else {
        heal_one(heal_upto(w, user, item, targets, k - 1), user, item, targets[k - 1])
    }
}

/// Healing: every target in turn.
pub open spec fn heal_cap(w: WorldView, user: int, item: int, targets: Seq<Entity>) -> WorldView {
    if w.fault.is_some() || !w.provides_healing.contains_key(item) {
        w
    } else {
        heal_upto(w, user, item, targets, targets.len() as int)
    }
}

/// Magic mapping: the game turns to revealing the map row by row, which
/// is logged.
pub open spec fn map_cap(w: WorldView, item: int) -> WorldView {
    if w.fault.is_some() || !w.magic_mappers.contains_key(item) {
        w
    } else {
        WorldView { run_state: RunState::MagicMapReveal { row: 0 }, ..w.say(mapped_line()) }
    }
}

/// Hurting one target: the damage of the item is added to what it has to
/// suffer, the using player is told, and a marker is asked for where the
/// target stands. A target that does not exist is a fault, and so is a
/// target or an item without a name when the player is to be told.
pub open spec fn harm_one(w: WorldView, user: int, item: int, target: Entity) -> WorldView {
    let t = target.index as int;
    if w.fault.is_some() {
        w
    } else if !w.is_alive(t) {
        w.fail(Fault::DeadEntity)
    } else {
        let damage = w.inflicts_damage[item].damage;
        let hurt = WorldView { suffer_damage: with_damage(w.suffer_damage, t, damage), ..w };
        if user == w.player.index && (!w.names.contains_key(t) || !w.names.contains_key(item)) {
            hurt.fail(Fault::MissingComponent)
        } else {
            let told = if user == w.player.index {
                hurt.say(harm_line(w.names[item], w.names[t], damage as int))
            } else {
                hurt
            };
            if w.positions.contains_key(t) {
                told.request(harm_marker(w.positions[t].x, w.positions[t].y))
            } else {
                told
            }
        }
    }
}

/// The world after the first `k` of `targets` were hurt, in their order.
pub open spec fn harm_upto(w: WorldView, user: int, item: int, targets: Seq<Entity>, k: int) -> WorldView
    decreases k,
{
    if k <= 0 {
        w
    } else {
        harm_one(harm_upto(w, user, item, targets, k - 1), user, item, targets[k - 1])
    }
}

/// Damage: every target in turn.
pub open spec fn harm_cap(w: WorldView, user: int, item: int, targets: Seq<Entity>) -> WorldView {
    if w.fault.is_some() || !w.inflicts_damage.contains_key(item) {
        w
    } else {
        harm_upto(w, user, item, targets, targets.len() as int)
    }
}

/// Hiding one target: it gets the wish to be invisible for the turns of
/// the item, and the using player is told. A target that does not exist
/// is a fault, and so is an item without a name when the player is to be
/// told.
pub open spec fn hide_one(w: WorldView, user: int, item: int, target: Entity) -> WorldView {
    let t = target.index as int;
    if w.fault.is_some() {
        w
    } else if !w.is_alive(t) {
        w.fail(Fault::DeadEntity)
    } else {
        let turns = w.applies_invisibility[item].turns;
        let wished = WorldView {
            wants_be_invisible: w.wants_be_invisible.insert(
                t,
                WantsBeInvisible { entity: target, turns },
            ),
            ..w
        };
        if user != w.player.index {
            wished
        } else if !w.names.contains_key(item) {
            wished.fail(Fault::MissingComponent)
        } else {
            wished.say(hide_line(w.names[item], turns as int))
        }
    }
}

/// The world after the first `k` of `targets` were hidden, in their order.
pub open spec fn hide_upto(w: WorldView, user: int, item: int, targets: Seq<Entity>, k: int) -> WorldView
    decreases k,
{
    if k <= 0 {
        w
    } else {
        hide_one(hide_upto(w, user, item, targets, k - 1), user, item, targets[k - 1])
    }
}

/// Invisibility: every target in turn.
pub open spec fn hide_cap(w: WorldView, user: int, item: int, targets: Seq<Entity>) -> WorldView {
    if w.fault.is_some() || !w.applies_invisibility.contains_key(item) {
        w
    } else {
        hide_upto(w, user, item, targets, targets.len() as int)
    }
}

/// Whether one of the first `k` targets has combat stats.
pub open spec fn any_healed(w: WorldView, targets: Seq<Entity>, k: int) -> bool {
    exists|j: int| 0 <= j < k && #[trigger] w.combat_stats.contains_key(targets[j].index as int)
}

/// Whether the item counts as used: one of its capabilities took effect.
/// Equipping, eating and magic mapping always do; healing does if a
/// target has combat stats; damage and invisibility do if there is a
/// target.
pub open spec fn use_counts(w: WorldView, item: int, targets: Seq<Entity>) -> bool {
    ||| w.equippable.contains_key(item)
    ||| w.food.contains_key(item)
    ||| w.magic_mappers.contains_key(item)
    ||| w.provides_healing.contains_key(item) && any_healed(w, targets, targets.len() as int)
    ||| w.inflicts_damage.contains_key(item) && targets.len() > 0
    ||| w.applies_invisibility.contains_key(item) && targets.len() > 0
}

/// The world after every capability of the item acted, in the order
/// equipping, eating, healing, magic mapping, damage, invisibility.
pub open spec fn use_apply(w: WorldView, user: int, item: int, targets: Seq<Entity>) -> WorldView {
    hide_cap(
        harm_cap(
            map_cap(heal_cap(food_cap(equip_cap(w, item, targets), item, targets), user, item, targets), item),
            user,
            item,
            targets,
        ),
        user,
        item,
        targets,
    )
}

/// The end of a use that counts: a consumable item is marked for
/// deletion, and an item with a cooldown starts it.
pub open spec fn use_finish(w: WorldView, item: int, counts: bool) -> WorldView {
    if w.fault.is_some() || !counts {
        w
    } else {
        let spent = if !w.consumables.contains_key(item) {
            w
        } else if !w.is_alive(item) {
            w.fail(Fault::DeadEntity)
        } else {
            WorldView { doomed: w.doomed.push(Entity { index: item as usize }), ..w }
        };
        if spent.fault.is_some() || !w.cooldowns.contains_key(item) {
            spent
        } else {
            WorldView {
                active_cooldowns: w.active_cooldowns.insert(
                    item,
                    ActiveCooldown { turns_remaining: w.cooldowns[item].turns },
                ),
                ..spent
            }
        }
    }
}

/// The world after the item use that entity `i` asked for, where `blast`
/// are the tiles reached from the target if the item has an area of
/// effect. An item on cooldown is not used, of which the player is told.
pub open spec fn use_step(w: WorldView, i: int, blast: Seq<Point>) -> WorldView {
    if w.fault.is_some() || !w.wants_use.contains_key(i) {
        w
    } else {
        let u = w.wants_use[i];
        let item = u.item.index as int;
        if w.active_cooldowns.contains_key(item) {
            if i != w.player.index {
                w
            } else if !w.names.contains_key(item) {
                w.fail(Fault::MissingComponent)
            } else {
                w.say(cooldown_line(w.names[item], w.active_cooldowns[item].turns_remaining as int))
            }
        } else {
            let targets = use_targets(w, Entity { index: i as usize }, u, blast);
            use_finish(
                use_apply(use_aimed(w, u, blast), i, item, targets),
                item,
                use_counts(w, item, targets),
            )
        }
    }
}

fn copy_entities(v: &Vec<Entity>) -> (r: Vec<Entity>)
    ensures
        r@ == v@,
{
    let mut r: Vec<Entity> = Vec::new();
    let mut k: usize = 0;
    while k < v.len()
        invariant
            k <= v@.len(),
            r@ == v@.take(k as int),
        decreases v@.len() - k,
    {
        r.push(v[k]);
        assert(r@ =~= v@.take(k + 1));
        k = k + 1;
    }
    assert(v@.take(k as int) =~= v@);
    r
}

fn append_entities(r: &mut Vec<Entity>, v: &Vec<Entity>)
    ensures
        final(r)@ == old(r)@ + v@,
{
    let mut k: usize = 0;
    while k < v.len()
        invariant
            k <= v@.len(),
            r@ == old(r)@ + v@.take(k as int),
        decreases v@.len() - k,
    {
        r.push(v[k]);
        assert(r@ =~= old(r)@ + v@.take(k + 1));
        k = k + 1;
    }
    assert(v@.take(k as int) =~= v@);
}

fn blast(world: &mut World, tiles: &Vec<Point>) -> (targets: Vec<Entity>)
    requires
        old(world).wf(),
    ensures
        targets@ == blast_targets(old(world)@.map.content, tiles@, tiles@.len() as int),
        final(world)@ == (WorldView {
            particles: old(world)@.particles + blast_markers(tiles@, tiles@.len() as int),
            ..old(world)@
        }),
{
    let mut targets: Vec<Entity> = Vec::new();
    let mut k: usize = 0;
    assert(world@.particles =~= old(world)@.particles + blast_markers(tiles@, 0));
    while k < tiles.len()
        invariant
            k <= tiles@.len(),
            world.wf(),
            targets@ == blast_targets(old(world)@.map.content, tiles@, k as int),
            world@ == (WorldView {
                particles: old(world)@.particles + blast_markers(tiles@, k as int),
                ..old(world)@
            }),
        decreases tiles@.len() - k,
    {
        let p = tiles[k];
        if 0 < p.x && p.x < MAP_WIDTH - 1 && 0 < p.y && p.y < MAP_HEIGHT - 1 {
            let idx = world.map.xy_idx(p.x, p.y);
            append_entities(&mut targets, &world.map.tile_content[idx]);
            world.particles.request(p.x, p.y, ORANGE, BLACK, glyph('░'), EFFECT_MARKER_LIFETIME);
            assert(world@.particles =~= old(world)@.particles + blast_markers(tiles@, k + 1));
        }
        k = k + 1;
    }
    targets
}

fn resolve(world: &mut World, user: Entity, u: WantsToUseItem, tiles: &Vec<Point>) -> (targets: Vec<
    Entity,
>)
    requires
        old(world).wf(),
    ensures
        targets@ == use_targets(old(world)@, user, u, tiles@),
        final(world)@ == use_aimed(old(world)@, u, tiles@),
        final(world)@.map == old(world)@.map,
        final(world).wf(),
{
    match u.target {
        None => {
            let mut targets: Vec<Entity> = Vec::new();
            targets.push(user);
            targets
        },
        Some(p) => {
            if world.area_of_effect.contains(u.item) {
                blast(world, tiles)
            } else {
                match world.map.checked_idx(p) {
                    Some(idx) => copy_entities(&world.map.tile_content[idx]),
                    None => {
                        world.fail(Fault::OutOfBounds);
                        Vec::new()
                    },
                }
            }
        },
    }
}

fn unequip(world: &mut World, target: Entity, slot: EquipmentSlot)
    ensures
        final(world)@.map == old(world)@.map,
        final(world)@ == unequip_upto(old(world)@, target, slot, old(world)@.capacity()),
{
    let n: usize = world.capacity();
    let mut j: usize = 0;
    while j < n
        invariant
            j <= n,
            n == old(world)@.capacity(),
            world@.map == old(world)@.map,
            world@ == unequip_upto(old(world)@, target, slot, j as int),
        decreases n - j,
    {
        let e = Entity { index: j };
        let mut swap = false;
        if let Some(worn) = world.equipped.get(e) {
            if worn.owner == target && worn.slot == slot {
                if let Some(name) = world.names.get(e) {
                    swap = true;
                    if target == world.player {
                        let mut line = String::from_str("You unequip ");
                        push_string(&mut line, &name.name);
                        push_text(&mut line, ".");
                        world.log.push(line);
                    }
                }
            }
        }
        if swap {
            world.equipped.remove(e);
            world.in_inventory.insert(e, InInventory { owner: target });
        }
        j = j + 1;
    }
}

fn equip(world: &mut World, item: Entity, targets: &Vec<Entity>)
    ensures
        final(world)@.map == old(world)@.map,
        final(world)@ == equip_cap(old(world)@, item.index as int, targets@),
{
    if world.fault.is_some() {
        return ;
    }
    let slot = match world.equippable.get(item) {
        Some(can_equip) => can_equip.slot,
        None => {
            return ;
        },
    };
    if targets.len() == 0 {
        world.fail(Fault::NoTarget);
        return ;
    }
    let target = targets[0];
    let is_player = target == world.player;
    let name: Option<String> = match world.names.get(item) {
        Some(n) => Some(n.name.clone()),
        None => None,
    };
    unequip(world, target, slot);
    world.equipped.insert(item, Equipped { owner: target, slot });
    world.in_inventory.remove(item);
    if is_player {
        match name {
            None => {
                world.fail(Fault::MissingComponent);
            },
            Some(n) => {
                let mut line = String::from_str("You equip ");
                push_string(&mut line, &n);
                push_text(&mut line, ".");
                world.log.push(line);
            },
        }
    }
}

fn feed(world: &mut World, item: Entity, targets: &Vec<Entity>)
    ensures
        final(world)@.map == old(world)@.map,
        final(world)@ == food_cap(old(world)@, item.index as int, targets@),
{
    if world.fault.is_some() {
        return ;
    }
    let nutrition = match world.food.get(item) {
        Some(f) => f.nutrition,
        None => {
            return ;
        },
    };
    if targets.len() == 0 {
        world.fail(Fault::NoTarget);
        return ;
    }
    let target = targets[0];
    let mut ate = false;
    if let Some(clock) = world.hunger_clocks.get_mut(target) {
        clock.total_nutrition = sat_add(clock.total_nutrition, nutrition);
        ate = true;
    }
    if ate {
        match world.names.get(item) {
            None => {
                world.fail(Fault::MissingComponent);
            },
            Some(name) => {
                let mut line = String::from_str("You eat the ");
                push_string(&mut line, &name.name);
                push_text(&mut line, ".");
                world.log.push(line);
            },
        }
    }
}

fn heal_target(world: &mut World, user: Entity, item: Entity, target: Entity)
    requires
        old(world)@.provides_healing.contains_key(item.index as int),
    ensures
        final(world)@.map == old(world)@.map,
        final(world)@ == heal_one(old(world)@, user.index as int, item.index as int, target),
{
    if world.fault.is_some() {
        return ;
    }
    let amount = match world.provides_healing.get(item) {
        Some(h) => h.heal_amount,
        None => {
            return ;
        },
    };
    let mut cured = false;
    if let Some(stats) = world.combat_stats.get_mut(target) {
        let raised: i32 = sat_add(stats.hp, amount);
        stats.hp = if raised < stats.max_hp {
            raised
        } else {
            stats.max_hp
        };
        cured = true;
    }
    if !cured {
        return ;
    }
    if user.index == world.player.index {
        match world.names.get(item) {
            None => {
                world.fail(Fault::MissingComponent);
                return ;
            },
            Some(name) => {
                let mut line = String::from_str("You use the ");
                push_string(&mut line, &name.name);
                push_text(&mut line, ", healing ");
                push_decimal(&mut line, amount);
                push_text(&mut line, " hp.");
                world.log.push(line);
            },
        }
    }
    if let Some(pos) = world.positions.get(target) {
        world.particles.request(pos.x, pos.y, GREEN, BLACK, glyph('♥'), EFFECT_MARKER_LIFETIME);
    }
}

fn heal(world: &mut World, user: Entity, item: Entity, targets: &Vec<Entity>)
    ensures
        final(world)@.map == old(world)@.map,
        final(world)@ == heal_cap(old(world)@, user.index as int, item.index as int, targets@),
{
    if world.fault.is_some() || !world.provides_healing.contains(item) {
        return ;
    }
    let mut k: usize = 0;
    while k < targets.len()
        invariant
            k <= targets@.len(),
            world@.provides_healing.contains_key(item.index as int),
            world@.map == old(world)@.map,
            world@ == heal_upto(old(world)@, user.index as int, item.index as int, targets@, k as int),
        decreases targets@.len() - k,
    {
        heal_target(world, user, item, targets[k]);
        k = k + 1;
    }
}

fn chart(world: &mut World, item: Entity)
    ensures
        final(world)@.map == old(world)@.map,
        final(world)@ == map_cap(old(world)@, item.index as int),
{
    if world.fault.is_some() || !world.magic_mappers.contains(item) {
        return ;
    }
    world.log.say("The map is revealed to you!");
    world.run_state = RunState::MagicMapReveal { row: 0 };
}

fn harm_target(world: &mut World, user: Entity, item: Entity, target: Entity)
    requires
        old(world)@.inflicts_damage.contains_key(item.index as int),
    ensures
        final(world)@.map == old(world)@.map,
        final(world)@ == harm_one(old(world)@, user.index as int, item.index as int, target),
{
    if world.fault.is_some() {
        return ;
    }
    let damage = match world.inflicts_damage.get(item) {
        Some(d) => d.damage,
        None => {
            return ;
        },
    };
    if !world.is_alive(target) {
        world.fail(Fault::DeadEntity);
        return ;
    }
    SufferDamage::new_damage(&mut world.suffer_damage, target, damage);
    if user.index == world.player.index {
        let target_name: String = match world.names.get(target) {
            Some(n) => n.name.clone(),
            None => {
                world.fail(Fault::MissingComponent);
                return ;
            },
        };
        match world.names.get(item) {
            None => {
                world.fail(Fault::MissingComponent);
                return ;
            },
            Some(name) => {
                let mut line = String::from_str("You use ");
                push_string(&mut line, &name.name);
                push_text(&mut line, " on ");
                push_string(&mut line, &target_name);
                push_text(&mut line, ", inflicting ");
                push_decimal(&mut line, damage);
                push_text(&mut line, " hp.");
                world.log.push(line);
            },
        }
    }
    if let Some(pos) = world.positions.get(target) {
        world.particles.request(pos.x, pos.y, RED, BLACK, glyph('‼'), EFFECT_MARKER_LIFETIME);
    }
}

fn harm(world: &mut World, user: Entity, item: Entity, targets: &Vec<Entity>)
    ensures
        final(world)@.map == old(world)@.map,
        final(world)@ == harm_cap(old(world)@, user.index as int, item.index as int, targets@),
{
    if world.fault.is_some() || !world.inflicts_damage.contains(item) {
        return ;
    }
    let mut k: usize = 0;
    while k < targets.len()
        invariant
            k <= targets@.len(),
            world@.inflicts_damage.contains_key(item.index as int),
            world@.map == old(world)@.map,
            world@ == harm_upto(old(world)@, user.index as int, item.index as int, targets@, k as int),
        decreases targets@.len() - k,
    {
        harm_target(world, user, item, targets[k]);
        k = k + 1;
    }
}

fn hide_target(world: &mut World, user: Entity, item: Entity, target: Entity)
    requires
        old(world)@.applies_invisibility.contains_key(item.index as int),
    ensures
        final(world)@.map == old(world)@.map,
        final(world)@ == hide_one(old(world)@, user.index as int, item.index as int, target),
{
    if world.fault.is_some() {
        return ;
    }
    let turns = match world.applies_invisibility.get(item) {
        Some(a) => a.turns,
        None => {
            return ;
        },
    };
    if !world.is_alive(target) {
        world.fail(Fault::DeadEntity);
        return ;
    }
    world.wants_be_invisible.insert(target, WantsBeInvisible { entity: target, turns });
    if user.index == world.player.index {
        match world.names.get(item) {
            None => {
                world.fail(Fault::MissingComponent);
            },
            Some(name) => {
                let mut line = String::from_str("You use ");
                push_string(&mut line, &name.name);
                push_text(&mut line, ", and become invisible for ");
                push_decimal(&mut line, turns);
                push_text(&mut line, " turns.");
                world.log.push(line);
            },
        }
    }
}

fn veil(world: &mut World, user: Entity, item: Entity, targets: &Vec<Entity>)
    ensures
        final(world)@.map == old(world)@.map,
        final(world)@ == hide_cap(old(world)@, user.index as int, item.index as int, targets@),
{
    if world.fault.is_some() || !world.applies_invisibility.contains(item) {
        return ;
    }
    let mut k: usize = 0;
    while k < targets.len()
        invariant
            k <= targets@.len(),
            world@.applies_invisibility.contains_key(item.index as int),
            world@.map == old(world)@.map,
            world@ == hide_upto(old(world)@, user.index as int, item.index as int, targets@, k as int),
        decreases targets@.len() - k,
    {
        hide_target(world, user, item, targets[k]);
        k = k + 1;
    }
}

fn counts(world: &World, item: Entity, targets: &Vec<Entity>) -> (b: bool)
    ensures
        b == use_counts(world@, item.index as int, targets@),
{
    if world.equippable.contains(item) || world.food.contains(item) || world.magic_mappers.contains(
        item,
    ) {
        return true;
    }
    if (world.applies_invisibility.contains(item) || world.inflicts_damage.contains(item))
        && targets.len() > 0 {
        return true;
    }
    if world.provides_healing.contains(item) {
        let mut k: usize = 0;
        while k < targets.len()
            invariant
                k <= targets@.len(),
                world@.provides_healing.contains_key(item.index as int),
                !any_healed(world@, targets@, k as int),
            decreases targets@.len() - k,
        {
            if world.combat_stats.contains(targets[k]) {
                assert(world@.combat_stats.contains_key(targets@[k as int].index as int));
                assert(any_healed(world@, targets@, targets@.len() as int));
                return true;
            }
            k = k + 1;
        }
    }
    false
}

fn finish(world: &mut World, item: Entity, counted: bool)
    ensures
        final(world)@.map == old(world)@.map,
        final(world)@ == use_finish(old(world)@, item.index as int, counted),
{
    if world.fault.is_some() || !counted {
        return ;
    }
    let turns: Option<i32> = match world.cooldowns.get(item) {
        Some(c) => Some(c.turns),
        None => None,
    };
    if world.consumables.contains(item) {
        if world.is_alive(item) {
            world.doomed.push(item);
        } else {
            world.fail(Fault::DeadEntity);
            return ;
        }
    }
    if let Some(t) = turns {
        world.active_cooldowns.insert(item, ActiveCooldown { turns_remaining: t });
    }
}

/// Carries out the item use that `user` asked for, if any. `tiles` are the
/// tiles that a blast from the target reaches; they matter only for an
/// aimed item with an area of effect.
pub fn use_item(world: &mut World, user: Entity, tiles: &Vec<Point>)
    requires
        old(world).wf(),
    ensures
        final(world)@ == use_step(old(world)@, user.index as int, tiles@),
        final(world)@.map == old(world)@.map,
        final(world).wf(),
{
    if world.fault.is_some() {
        return ;
    }
    let u = match world.wants_use.get(user) {
        Some(u) => *u,
        None => {
            return ;
        },
    };
    if let Some(cooldown) = world.active_cooldowns.get(u.item) {
        if user.index == world.player.index {
            match world.names.get(u.item) {
                None => {
                    world.fail(Fault::MissingComponent);
                },
                Some(name) => {
                    let mut line = String::from_str("You cannot use ");
                    push_string(&mut line, &name.name);
                    push_text(&mut line, ", it is on cooldown for ");
                    push_decimal(&mut line, cooldown.turns_remaining);
                    push_text(&mut line, " turns");
                    world.log.push(line);
                },
            }
        }
        return ;
    }
    apply_use(world, user, u, tiles);
}

fn apply_use(world: &mut World, user: Entity, u: WantsToUseItem, tiles: &Vec<Point>)
    requires
        old(world).wf(),
    ensures
        final(world)@ == use_finish(
            use_apply(
                use_aimed(old(world)@, u, tiles@),
                user.index as int,
                u.item.index as int,
                use_targets(old(world)@, user, u, tiles@),
            ),
            u.item.index as int,
            use_counts(old(world)@, u.item.index as int, use_targets(old(world)@, user, u, tiles@)),
        ),
        final(world)@.map == old(world)@.map,
        final(world).wf(),
{
    let counted = counts_before(world, user, u, tiles);
    let targets = resolve(world, user, u, tiles);
    apply_caps(world, user, u.item, &targets);
    finish(world, u.item, counted);
}

fn apply_caps(world: &mut World, user: Entity, item: Entity, targets: &Vec<Entity>)
    ensures
        final(world)@.map == old(world)@.map,
        final(world)@ == use_apply(old(world)@, user.index as int, item.index as int, targets@),
{
    equip(world, item, targets);
    feed(world, item, targets);
    heal(world, user, item, targets);
    chart(world, item);
    harm(world, user, item, targets);
    veil(world, user, item, targets);
}

fn counts_before(world: &World, user: Entity, u: WantsToUseItem, tiles: &Vec<Point>) -> (b: bool)
    requires
        world.wf(),
    ensures
        b == use_counts(world@, u.item.index as int, use_targets(world@, user, u, tiles@)),
{
    match u.target {
        None => {
            let mut targets: Vec<Entity> = Vec::new();
            targets.push(user);
            counts(world, u.item, &targets)
        },
        Some(p) => {
            if world.area_of_effect.contains(u.item) {
                let targets = blast_occupants(world, tiles);
                counts(world, u.item, &targets)
            } else {
                match world.map.checked_idx(p) {
                    Some(idx) => counts(world, u.item, &world.map.tile_content[idx]),
                    None => {
                        let targets: Vec<Entity> = Vec::new();
                        counts(world, u.item, &targets)
                    },
                }
            }
        },
    }
}

fn blast_occupants(world: &World, tiles: &Vec<Point>) -> (targets: Vec<Entity>)
    requires
        world.wf(),
    ensures
        targets@ == blast_targets(world@.map.content, tiles@, tiles@.len() as int),
{
    let mut targets: Vec<Entity> = Vec::new();
    let mut k: usize = 0;
    while k < tiles.len()
        invariant
            k <= tiles@.len(),
            world.wf(),
            targets@ == blast_targets(world@.map.content, tiles@, k as int),
        decreases tiles@.len() - k,
    {
        let p = tiles[k];
        if 0 < p.x && p.x < MAP_WIDTH - 1 && 0 < p.y && p.y < MAP_HEIGHT - 1 {
            let idx = world.map.xy_idx(p.x, p.y);
            append_entities(&mut targets, &world.map.tile_content[idx]);
        }
        k = k + 1;
    }
    targets
}

/// The world after the item uses asked for by the entities with index
/// below `n`, in the order of their indices, where `blasts[i]` are the
/// tiles that a blast of entity `i` reaches.
pub open spec fn use_upto(w: WorldView, blasts: Seq<Seq<Point>>, n: int) -> WorldView
    decreases n,
{
    if n <= 0 {
        w
    } else {
        use_step(use_upto(w, blasts, n - 1), n - 1, blasts[n - 1])
    }
}

/// The world after the item use system ran with the given blasts: every
/// use carried out and every use intent consumed. After a fault the
/// intents are kept.
pub open spec fn use_result(w: WorldView, blasts: Seq<Seq<Point>>) -> WorldView {
    let s = use_upto(w, blasts, w.capacity());
    if s.fault.is_some() {
        s
    } else {
        WorldView { wants_use: Map::empty(), ..s }
    }
}

/// Only the blasts of the entities with index below `n` matter to what
/// these entities do.
pub proof fn lemma_use_prefix(w: WorldView, a: Seq<Seq<Point>>, b: Seq<Seq<Point>>, n: int)
    requires
        forall|k: int| 0 <= k < n ==> a[k] == b[k],
    ensures
        use_upto(w, a, n) == use_upto(w, b, n),
    decreases n,
{
    if n > 0 {
        lemma_use_prefix(w, a, b, n - 1);
    }
}

/// Using items changes neither the map nor the number of entities nor the
/// use intents.
pub proof fn lemma_use_keeps_intents(w: WorldView, i: int, blast: Seq<Point>)
    ensures
        use_step(w, i, blast).wants_use == w.wants_use,
        use_step(w, i, blast).alive == w.alive,
        use_step(w, i, blast).area_of_effect == w.area_of_effect,
{
    if w.fault.is_none() && w.wants_use.contains_key(i) && !w.active_cooldowns.contains_key(
        w.wants_use[i].item.index as int,
    ) {
        let u = w.wants_use[i];
        let item = u.item.index as int;
        let targets = use_targets(w, Entity { index: i as usize }, u, blast);
        let a = use_aimed(w, u, blast);
        let b = equip_cap(a, item, targets);
        if a.fault.is_none() && a.equippable.contains_key(item) && targets.len() > 0 {
            lemma_unequip_frame(a, targets[0], a.equippable[item].slot, a.capacity());
        }
        let c = food_cap(b, item, targets);
        let d = heal_cap(c, i, item, targets);
        lemma_heal_frame(c, i, item, targets, targets.len() as int);
        let e = map_cap(d, item);
        let f = harm_cap(e, i, item, targets);
        lemma_harm_frame(e, i, item, targets, targets.len() as int);
        lemma_hide_frame(f, i, item, targets, targets.len() as int);
    }
}

proof fn lemma_unequip_frame(w: WorldView, target: Entity, slot: EquipmentSlot, n: int)
    ensures
        unequip_upto(w, target, slot, n).wants_use == w.wants_use,
        unequip_upto(w, target, slot, n).alive == w.alive,
        unequip_upto(w, target, slot, n).area_of_effect == w.area_of_effect,
        unequip_upto(w, target, slot, n).fault == w.fault,
    decreases n,
{
    if n > 0 {
        lemma_unequip_frame(w, target, slot, n - 1);
    }
}

proof fn lemma_heal_frame(w: WorldView, user: int, item: int, targets: Seq<Entity>, k: int)
    ensures
        heal_upto(w, user, item, targets, k).wants_use == w.wants_use,
        heal_upto(w, user, item, targets, k).alive == w.alive,
        heal_upto(w, user, item, targets, k).area_of_effect == w.area_of_effect,
    decreases k,
{
    if k > 0 {
        lemma_heal_frame(w, user, item, targets, k - 1);
    }
}

proof fn lemma_harm_frame(w: WorldView, user: int, item: int, targets: Seq<Entity>, k: int)
    ensures
        harm_upto(w, user, item, targets, k).wants_use == w.wants_use,
        harm_upto(w, user, item, targets, k).alive == w.alive,
        harm_upto(w, user, item, targets, k).area_of_effect == w.area_of_effect,
    decreases k,
{
    if k > 0 {
        lemma_harm_frame(w, user, item, targets, k - 1);
    }
}

proof fn lemma_hide_frame(w: WorldView, user: int, item: int, targets: Seq<Entity>, k: int)
    ensures
        hide_upto(w, user, item, targets, k).wants_use == w.wants_use,
        hide_upto(w, user, item, targets, k).alive == w.alive,
        hide_upto(w, user, item, targets, k).area_of_effect == w.area_of_effect,
    decreases k,
{
    if k > 0 {
        lemma_hide_frame(w, user, item, targets, k - 1);
    }
}

/// Whether `tiles` is an answer that `fov` may give when asked for the
/// tiles within `radius` of `p` on a map with content `map`.
pub open spec fn answered<F: Fn(&TileMap, Point, i32) -> Vec<Point>>(
    fov: F,
    map: crate::map::MapView,
    p: Point,
    radius: i32,
    tiles: Seq<Point>,
) -> bool {
    exists|m: TileMap, v: Vec<Point>| m@ == map && v@ == tiles && call_ensures(fov, (&m, p, radius), v)
}

/// Whether every blast in `blasts` that a use needs is an answer of `fov`.
pub open spec fn blasts_answered<F: Fn(&TileMap, Point, i32) -> Vec<Point>>(
    fov: F,
    w: WorldView,
    blasts: Seq<Seq<Point>>,
    n: int,
) -> bool {
    forall|i: int|
        0 <= i < n && #[trigger] use_upto(w, blasts, i).fault.is_none() && w.wants_use.contains_key(i)
            && needs_blast(w, w.wants_use[i]) ==> answered(
            fov,
            w.map,
            w.wants_use[i].target.unwrap(),
            w.area_of_effect[w.wants_use[i].item.index as int].radius,
            blasts[i],
        )
}

/// Carries out `WantsToUseItem`.
pub struct ItemUseSystem {}

impl ItemUseSystem {
    /// Runs the system. `fov` is asked for the tiles within the radius of
    /// each aimed item with an area of effect. The result is that of
    /// [`use_result`] for the blasts that `fov` answered.
    pub fn run<F: Fn(&TileMap, Point, i32) -> Vec<Point>>(&mut self, world: &mut World, fov: F)
        requires
            old(world).wf(),
            forall|m: &TileMap, p: Point, r: i32| m.wf() ==> fov.requires((m, p, r)),
        ensures
            final(world).wf(),
            exists|blasts: Seq<Seq<Point>>|
                blasts.len() == old(world)@.capacity() && #[trigger] use_result(old(world)@, blasts)
                    == final(world)@ && blasts_answered(
                    fov,
                    old(world)@,
                    blasts,
                    old(world)@.capacity(),
                ),
    {
        let n: usize = world.capacity();
        let ghost mut blasts: Seq<Seq<Point>> = Seq::empty();
        let mut i: usize = 0;
        while i < n
            invariant
                i <= n,
                n == old(world)@.capacity(),
                world.wf(),
                blasts.len() == i,
                world@ == use_upto(old(world)@, blasts, i as int),
                world@.wants_use == old(world)@.wants_use,
                world@.area_of_effect == old(world)@.area_of_effect,
                world@.map == old(world)@.map,
                world@.alive == old(world)@.alive,
                blasts_answered(fov, old(world)@, blasts, i as int),
                forall|m: &TileMap, p: Point, r: i32| m.wf() ==> fov.requires((m, p, r)),
            decreases n - i,
        {
            let e = Entity { index: i };
            let ghost before = blasts;
            let ghost prev = world@;
            let mut tiles: Vec<Point> = Vec::new();
            if world.fault.is_none() {
                if let Some(u) = world.wants_use.get(e) {
                    if let Some(p) = u.target {
                        if let Some(area) = world.area_of_effect.get(u.item) {
                            tiles = fov(&world.map, p, area.radius);
                            assert(answered(fov, world@.map, p, area.radius, tiles@));
                        }
                    }
                }
            }
            use_item(world, e, &tiles);
            proof {
                blasts = before.push(tiles@);
                lemma_use_prefix(old(world)@, before, blasts, i as int);
                lemma_use_keeps_intents(prev, i as int, tiles@);
                assert forall|k: int|
                    0 <= k < i + 1 && #[trigger] use_upto(old(world)@, blasts, k).fault.is_none()
                        && old(world)@.wants_use.contains_key(k) && needs_blast(
                        old(world)@,
                        old(world)@.wants_use[k],
                    ) implies answered(
                    fov,
                    old(world)@.map,
                    old(world)@.wants_use[k].target.unwrap(),
                    old(world)@.area_of_effect[old(world)@.wants_use[k].item.index as int].radius,
                    blasts[k],
                ) by {
                    lemma_use_prefix(old(world)@, before, blasts, k);
                    if k < i {
                        assert(use_upto(old(world)@, before, k).fault.is_none());
                        assert(blasts[k] == before[k]);
                    }
                }
            }
            i = i + 1;
        }
        if world.fault.is_none() {
            world.wants_use.clear();
        }
        assert(use_result(old(world)@, blasts) == world@);
    }
}

} // verus!
