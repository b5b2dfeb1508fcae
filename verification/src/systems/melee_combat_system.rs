//! Resolving the attacks that were announced this turn.

use vstd::prelude::*;
use crate::components::{cp437, glyph, with_damage, SufferDamage, BLACK, ORANGE};
use crate::game_log::{decimal, push_decimal, push_string, push_text};
use crate::systems::particle_system::ParticleRequest;
use crate::world::{Entity, Fault, World, WorldView};
use crate::{sat, saturate};

verus! {

/// Microseconds for which the marker of a hit is shown.
pub const HIT_MARKER_LIFETIME: i64 = 130000;

/// Sum of the power bonuses of the items with index below `n` that
/// `owner` has equipped.
pub open spec fn power_bonus(w: WorldView, owner: int, n: int) -> int
    decreases n,
{
    if n <= 0 {
        0
    } else {
        power_bonus(w, owner, n - 1) + if w.melee_power_bonus.contains_key(n - 1)
            && w.equipped.contains_key(n - 1) && w.equipped[n - 1].owner.index == owner {
            w.melee_power_bonus[n - 1].power as int
        } else {
            0
        }
    }
}

/// Sum of the defense bonuses of the items with index below `n` that
/// `owner` has equipped.
pub open spec fn defense_bonus(w: WorldView, owner: int, n: int) -> int
    decreases n,
{
    if n <= 0 {
        0
    } else {
        defense_bonus(w, owner, n - 1) + if w.defense_bonus.contains_key(n - 1)
            && w.equipped.contains_key(n - 1) && w.equipped[n - 1].owner.index == owner {
            w.defense_bonus[n - 1].defense as int
        } else {
            0
        }
    }
}

/// Damage of one hit: the attacker's power with bonus, less the defender's
/// defense with bonus, but never less than nothing.
pub open spec fn melee_damage(power: int, power_bonus: int, defense: int, defense_bonus: int) -> int {
    let d = (power + power_bonus) - (defense + defense_bonus);
    if d < 0 {
        0
    } else {
        sat(d)
    }
}

/// A hit never heals, an attacker who is no stronger than the defence
/// does no damage, and more power or less defense never means less
/// damage.
pub proof fn lemma_melee_damage(p1: int, b1: int, d1: int, e1: int, p2: int, b2: int, d2: int, e2: int)
    ensures
        melee_damage(p1, b1, d1, e1) >= 0,
        p1 + b1 <= d1 + e1 ==> melee_damage(p1, b1, d1, e1) == 0,
        p1 + b1 <= p2 + b2 && d1 + e1 >= d2 + e2 ==> melee_damage(p1, b1, d1, e1) <= melee_damage(
            p2,
            b2,
            d2,
            e2,
        ),
{
}

/// The marker shown where a hit lands.
pub open spec fn hit_marker(x: i32, y: i32) -> ParticleRequest {
    ParticleRequest { x, y, fg: ORANGE, bg: BLACK, glyph: cp437('‼'), lifetime: HIT_MARKER_LIFETIME }
}

/// The line for an attacker who gives up invisibility by attacking.
pub open spec fn unveiled_line(name: Seq<char>) -> Seq<char> {
    name + " attacks, and loses invisibility"@
}

/// The line for a hit that does no damage.
pub open spec fn no_harm_line(name: Seq<char>, target: Seq<char>) -> Seq<char> {
    name + " is unable to hurt "@ + target
}

/// The line for a hit that does `damage`.
pub open spec fn hit_line(name: Seq<char>, target: Seq<char>, damage: int) -> Seq<char> {
    name + " hits "@ + target + ", for "@ + decimal(damage) + " hp."@
}

/// The world after the attack of entity `i` was resolved. Only an entity
/// with an attack intent, a name, combat stats and hit points left
/// attacks. An invisible attacker becomes visible, which is logged. A
/// marker is asked for where the target stands, and the damage, if the
/// target lives, is logged and added to what the target has to suffer. A
/// target without combat stats, or a living one without a name, is a
/// fault.
pub open spec fn melee_step(w: WorldView, i: int) -> WorldView {
    if w.fault.is_some() || !w.wants_melee.contains_key(i) || !w.names.contains_key(i)
        || !w.combat_stats.contains_key(i) {
        w
    } else {
        let name = w.names[i];
        let stats = w.combat_stats[i];
        let target = w.wants_melee[i].target.index as int;
        if stats.hp <= 0 {
            w
        } else {
            let w1 = if w.invisible.contains_key(i) {
                WorldView { invisible: w.invisible.remove(i), ..w }.say(unveiled_line(name))
            } else {
                w
            };
            let w2 = if w1.positions.contains_key(target) {
                w1.request(hit_marker(w1.positions[target].x, w1.positions[target].y))
            } else {
                w1
            };
            if !w2.combat_stats.contains_key(target) {
                w2.fail(Fault::MissingComponent)
            } else if w2.combat_stats[target].hp <= 0 {
                w2
            } else if !w2.names.contains_key(target) {
                w2.fail(Fault::MissingComponent)
            } else {
                let damage = melee_damage(
                    stats.power as int,
                    power_bonus(w2, i, w2.capacity()),
                    w2.combat_stats[target].defense as int,
                    defense_bonus(w2, target, w2.capacity()),
                );
                if damage == 0 {
                    w2.say(no_harm_line(name, w2.names[target]))
                } else {
                    WorldView {
                        suffer_damage: with_damage(w2.suffer_damage, target, damage as i32),
                        ..w2.say(hit_line(name, w2.names[target], damage))
                    }
                }
            }
        }
    }
}

/// The world after the attacks of the entities with index below `n` were
/// resolved, in the order of their indices.
pub open spec fn melee_upto(w: WorldView, n: int) -> WorldView
    decreases n,
{
    if n <= 0 {
        w
    } else {
        melee_step(melee_upto(w, n - 1), n - 1)
    }
}

/// The world after the melee system ran: every attack resolved and every
/// attack intent consumed. After a fault the intents are kept.
pub open spec fn melee_result(w: WorldView) -> WorldView {
    let m = melee_upto(w, w.capacity());
    if m.fault.is_some() {
        m
    } else {
        WorldView { wants_melee: Map::empty(), ..m }
    }
}

/// An attacker whose power with bonus does not exceed the defense with
/// bonus of a living, named target logs that it is unable to hurt it, and
/// the target has no more to suffer than before.
pub proof fn lemma_weak_attack_hurts_nobody(w: WorldView, i: int)
    requires
        w.fault.is_none(),
        w.wants_melee.contains_key(i),
        w.names.contains_key(i),
        w.combat_stats.contains_key(i),
        !w.invisible.contains_key(i),
        w.combat_stats[i].hp > 0,
        w.combat_stats.contains_key(w.wants_melee[i].target.index as int),
        w.names.contains_key(w.wants_melee[i].target.index as int),
        w.combat_stats[w.wants_melee[i].target.index as int].hp > 0,
        w.combat_stats[i].power + power_bonus(w, i, w.capacity()) <= w.combat_stats[w.wants_melee[i].target.index as int].defense
            + defense_bonus(w, w.wants_melee[i].target.index as int, w.capacity()),
    ensures
        melee_step(w, i).suffer_damage == w.suffer_damage,
        melee_step(w, i).combat_stats == w.combat_stats,
        melee_step(w, i).log == w.log.push(
            no_harm_line(w.names[i], w.names[w.wants_melee[i].target.index as int]),
        ),
{
    let target = w.wants_melee[i].target.index as int;
    let w2 = if w.positions.contains_key(target) {
        w.request(hit_marker(w.positions[target].x, w.positions[target].y))
    } else {
        w
    };
    lemma_bonus_frame(w, w2, i, w.capacity());
    lemma_bonus_frame(w, w2, target, w.capacity());
}

/// The bonuses depend on the equipment tables alone.
pub proof fn lemma_bonus_frame(a: WorldView, b: WorldView, owner: int, n: int)
    requires
        a.equipped == b.equipped,
        a.melee_power_bonus == b.melee_power_bonus,
        a.defense_bonus == b.defense_bonus,
    ensures
        power_bonus(a, owner, n) == power_bonus(b, owner, n),
        defense_bonus(a, owner, n) == defense_bonus(b, owner, n),
    decreases n,
{
    if n > 0 {
        lemma_bonus_frame(a, b, owner, n - 1);
    }
}

fn power_bonus_of(world: &World, owner: Entity) -> (sum: i128)
    ensures
        sum == power_bonus(world@, owner.index as int, world@.capacity()),
        -0x1_0000_0000_0000_0000_0000_0000 <= sum <= 0x1_0000_0000_0000_0000_0000_0000,
{
    let n: usize = world.capacity();
    let mut sum: i128 = 0;
    let mut k: usize = 0;
    while k < n
        invariant
            k <= n,
            n == world@.capacity(),
            sum == power_bonus(world@, owner.index as int, k as int),
            -2147483648 * k <= sum <= 2147483647 * k,
        decreases n - k,
    {
        let item = Entity { index: k };
        if let Some(bonus) = world.melee_power_bonus.get(item) {
            if let Some(worn) = world.equipped.get(item) {
                if worn.owner == owner {
                    sum = sum + bonus.power as i128;
                }
            }
        }
        k = k + 1;
    }
    sum
}

fn defense_bonus_of(world: &World, owner: Entity) -> (sum: i128)
    ensures
        sum == defense_bonus(world@, owner.index as int, world@.capacity()),
        -0x1_0000_0000_0000_0000_0000_0000 <= sum <= 0x1_0000_0000_0000_0000_0000_0000,
{
    let n: usize = world.capacity();
    let mut sum: i128 = 0;
    let mut k: usize = 0;
    while k < n
        invariant
            k <= n,
            n == world@.capacity(),
            sum == defense_bonus(world@, owner.index as int, k as int),
            -2147483648 * k <= sum <= 2147483647 * k,
        decreases n - k,
    {
        let item = Entity { index: k };
        if let Some(bonus) = world.defense_bonus.get(item) {
            if let Some(worn) = world.equipped.get(item) {
                if worn.owner == owner {
                    sum = sum + bonus.defense as i128;
                }
            }
        }
        k = k + 1;
    }
    sum
}

/// Computes the damage of one hit.
pub fn compute_melee_damage(power: i32, power_bonus: i128, defense: i32, defense_bonus: i128) -> (d: i32)
    requires
        -0x1_0000_0000_0000_0000_0000_0000 <= power_bonus <= 0x1_0000_0000_0000_0000_0000_0000,
        -0x1_0000_0000_0000_0000_0000_0000 <= defense_bonus <= 0x1_0000_0000_0000_0000_0000_0000,
    ensures
        d == melee_damage(power as int, power_bonus as int, defense as int, defense_bonus as int),
{
    let d: i128 = (power as i128 + power_bonus) - (defense as i128 + defense_bonus);
    if d < 0 {
        0
    } else {
        saturate(d)
    }
}

fn melee_one(world: &mut World, e: Entity)
    ensures
        final(world)@ == melee_step(old(world)@, e.index as int),
{
    if world.fault.is_some() {
        return ;
    }
    let target = match world.wants_melee.get(e) {
        Some(intent) => intent.target,
        None => {
            return ;
        },
    };
    let name: String = match world.names.get(e) {
        Some(n) => n.name.clone(),
        None => {
            return ;
        },
    };
    let stats = match world.combat_stats.get(e) {
        Some(s) => *s,
        None => {
            return ;
        },
    };
    if stats.hp > 0 {
        if world.invisible.contains(e) {
            world.invisible.remove(e);
            let mut line = name.clone();
            push_text(&mut line, " attacks, and loses invisibility");
            world.log.push(line);
        }
        let offensive_bonus = power_bonus_of(world, e);
        if let Some(pos) = world.positions.get(target) {
            world.particles.request(pos.x, pos.y, ORANGE, BLACK, glyph('‼'), HIT_MARKER_LIFETIME);
        }
        let target_stats = match world.combat_stats.get(target) {
            Some(s) => *s,
            None => {
                world.fail(Fault::MissingComponent);
                return ;
            },
        };
        if target_stats.hp > 0 {
            let target_name: String = match world.names.get(target) {
                Some(n) => n.name.clone(),
                None => {
                    world.fail(Fault::MissingComponent);
                    return ;
                },
            };
            let defensive_bonus = defense_bonus_of(world, target);
            let damage = compute_melee_damage(
                stats.power,
                offensive_bonus,
                target_stats.defense,
                defensive_bonus,
            );
            proof {
                let w = old(world)@;
                let i = e.index as int;
                let w1 = if w.invisible.contains_key(i) {
                    WorldView { invisible: w.invisible.remove(i), ..w }.say(unveiled_line(name@))
                } else {
                    w
                };
                let w2 = if w1.positions.contains_key(target.index as int) {
                    w1.request(
                        hit_marker(
                            w1.positions[target.index as int].x,
                            w1.positions[target.index as int].y,
                        ),
                    )
                } else {
                    w1
                };
                lemma_bonus_frame(w1, w2, i, w.capacity());
                assert(world@ =~= w2);
            }
            let mut line = name.clone();
            if damage == 0 {
                push_text(&mut line, " is unable to hurt ");
                push_string(&mut line, &target_name);
                world.log.push(line);
            } else {
                push_text(&mut line, " hits ");
                push_string(&mut line, &target_name);
                push_text(&mut line, ", for ");
                push_decimal(&mut line, damage);
                push_text(&mut line, " hp.");
                world.log.push(line);
                SufferDamage::new_damage(&mut world.suffer_damage, target, damage);
            }
        }
    }
}

/// Resolves the attacks announced by `WantsToMelee`.
pub struct MeleeCombatSystem {}

impl MeleeCombatSystem {
    /// Runs the system. See [`melee_result`].
    pub fn run(&mut self, world: &mut World)
        ensures
            final(world)@ == melee_result(old(world)@),
            final(world)@.map == old(world)@.map,
    {
        let n: usize = world.capacity();
        let mut i: usize = 0;
        while i < n
            invariant
                i <= n,
                n == old(world)@.capacity(),
                world@.map == old(world)@.map,
                world@ == melee_upto(old(world)@, i as int),
            decreases n - i,
        {
            melee_one(world, Entity { index: i });
            i = i + 1;
        }
        if world.fault.is_none() {
            world.wants_melee.clear();
        }
    }
}

} // verus!
