//! Applying the damage that was dealt during a turn, and removing the dead.

use vstd::prelude::*;
use crate::components::{with_damage, CombatStats};
use crate::game_log::push_text;
use crate::map::{point_index, MapView};
use crate::rect::Point;
use crate::world::{Entity, Fault, World, WorldView};
use crate::{sat, saturate};

verus! {

/// Sum of the hits in `hits`.
pub open spec fn total(hits: Seq<i32>) -> int
    decreases hits.len(),
{
    if hits.len() == 0 {
        0
    } else {
        total(hits.drop_last()) + hits.last()
    }
}

/// Adds up the hits in `hits`.
pub fn total_of(hits: &Vec<i32>) -> (sum: i128)
    ensures
        sum == total(hits@),
        -0x1_0000_0000_0000_0000_0000_0000 <= sum <= 0x1_0000_0000_0000_0000_0000_0000,
{
    let mut sum: i128 = 0;
    let mut k: usize = 0;
    while k < hits.len()
        invariant
            k <= hits@.len(),
            sum == total(hits@.take(k as int)),
            -2147483648 * k <= sum <= 2147483647 * k,
        decreases hits@.len() - k,
    {
        assert(hits@.take(k + 1).drop_last() =~= hits@.take(k as int));
        sum = sum + hits[k] as i128;
        k = k + 1;
    }
    assert(hits@.take(k as int) =~= hits@);
    sum
}

/// The world after the damage of entity `i` was applied: if it has both
/// hit points and pending damage, the sum of the damage is taken from its
/// hit points, and the tile it stands on, if any, gets a bloodstain. A
/// position off the map is a fault.
pub open spec fn damage_step(w: WorldView, i: int) -> WorldView {
    if w.fault.is_some() || !w.combat_stats.contains_key(i) || !w.suffer_damage.contains_key(i) {
        w
    } else {
        let s = w.combat_stats[i];
        let hp = sat(s.hp - total(w.suffer_damage[i])) as i32;
        let hurt = WorldView { combat_stats: w.combat_stats.insert(i, CombatStats { hp, ..s }), ..w };
        if !w.positions.contains_key(i) {
            hurt
        } else {
            match point_index(Point { x: w.positions[i].x, y: w.positions[i].y }) {
                Some(idx) => WorldView {
                    map: MapView { bloodstains: w.map.bloodstains.insert(idx), ..w.map },
                    ..hurt
                },
                None => hurt.fail(Fault::OutOfBounds),
            }
        }
    }
}

/// The world after the damage of the entities with index below `n` was
/// applied, in the order of their indices.
pub open spec fn damage_upto(w: WorldView, n: int) -> WorldView
    decreases n,
{
    if n <= 0 {
        w
    } else {
        damage_step(damage_upto(w, n - 1), n - 1)
    }
}

/// The world after the damage system ran: all pending damage applied and
/// then forgotten. After a fault the pending damage is kept.
pub open spec fn damage_result(w: WorldView) -> WorldView {
    let d = damage_upto(w, w.capacity());
    if d.fault.is_some() {
        d
    } else {
        WorldView { suffer_damage: Map::empty(), ..d }
    }
}

/// Hits on one defender accumulate: after two hits of `a` and `b` the
/// defender has both to suffer, and the damage system takes their sum
/// from its hit points in one step.
pub proof fn lemma_hits_accumulate(w: WorldView, i: int, a: i32, b: i32)
    requires
        w.fault.is_none(),
        w.combat_stats.contains_key(i),
        !w.suffer_damage.contains_key(i),
    ensures
        with_damage(with_damage(w.suffer_damage, i, a), i, b)[i] == seq![a, b],
        damage_step(
            WorldView { suffer_damage: with_damage(with_damage(w.suffer_damage, i, a), i, b), ..w },
            i,
        ).combat_stats[i].hp == sat(w.combat_stats[i].hp - (a + b)),
{
    let hits = with_damage(with_damage(w.suffer_damage, i, a), i, b)[i];
    assert(hits =~= seq![a, b]);
    assert(hits.drop_last() =~= seq![a]);
    assert(hits.drop_last().drop_last() =~= Seq::<i32>::empty());
    assert(total(hits.drop_last()) == a) by {
        assert(total(hits.drop_last().drop_last()) == 0);
    }
    assert(total(hits) == a + b);
}

/// Subtracts the damage that accumulated during the turn.
pub struct DamageSystem {}

impl DamageSystem {
    /// Runs the system. See [`damage_result`].
    pub fn run(&mut self, world: &mut World)
        requires
            old(world).wf(),
        ensures
            final(world)@ == damage_result(old(world)@),
            final(world).wf(),
    {
        let n: usize = world.capacity();
        let mut i: usize = 0;
        while i < n
            invariant
                i <= n,
                n == old(world)@.capacity(),
                world.wf(),
                world@ == damage_upto(old(world)@, i as int),
            decreases n - i,
        {
            let ghost prev = world@;
            let e = Entity { index: i };
            if world.fault.is_none() {
                if let Some(damage) = world.suffer_damage.get(e) {
                    let sum: i128 = total_of(&damage.amount);
                    let mut hit = false;
                    if let Some(stats) = world.combat_stats.get_mut(e) {
                        stats.hp = saturate(stats.hp as i128 - sum);
                        hit = true;
                    }
                    if hit {
                        if let Some(pos) = world.positions.get(e) {
                            match world.map.checked_idx(Point { x: pos.x, y: pos.y }) {
                                Some(idx) => {
                                    world.map.bloodstains.insert(idx);
                                },
                                None => {
                                    world.fail(Fault::OutOfBounds);
                                },
                            }
                        }
                    }
                }
            }
            assert(world@ =~= damage_step(prev, i as int));
            i = i + 1;
        }
        if world.fault.is_none() {
            world.suffer_damage.clear();
        }
    }
}

/// Whether entity `i` exists and has less than one hit point.
pub open spec fn dying(w: WorldView, i: int) -> bool {
    w.is_alive(i) && w.combat_stats.contains_key(i) && w.combat_stats[i].hp < 1
}

/// Whether a dying entity is a player.
pub open spec fn player_dying(w: WorldView) -> bool {
    exists|i: int| 0 <= i < w.capacity() && #[trigger] dying(w, i) && w.players.contains_key(i)
}

/// The line that reports the death of the entity called `name`.
pub open spec fn death_notice(name: Seq<char>) -> Seq<char> {
    name + " is dead."@
}

/// The world after entity `i` was buried: if it is dying, its death is
/// logged under its name, if it has one, and it is deleted.
pub open spec fn bury_step(w: WorldView, i: int) -> WorldView {
    if !dying(w, i) {
        w
    } else if w.names.contains_key(i) {
        w.say(death_notice(w.names[i])).delete(i)
    } else {
        w.delete(i)
    }
}

/// The world after the dying among the entities with index below `n` were
/// buried, in the order of their indices.
pub open spec fn bury_upto(w: WorldView, n: int) -> WorldView
    decreases n,
{
    if n <= 0 {
        w
    } else {
        bury_step(bury_upto(w, n - 1), n - 1)
    }
}

fn player_is_dying(world: &World) -> (b: bool)
    ensures
        b == player_dying(world@),
{
    let n: usize = world.capacity();
    let mut i: usize = 0;
    while i < n
        invariant
            i <= n,
            n == world@.capacity(),
            forall|j: int| 0 <= j < i ==> !(#[trigger] dying(world@, j) && world@.players.contains_key(j)),
        decreases n - i,
    {
        let e = Entity { index: i };
        if world.is_alive(e) && world.players.contains(e) {
            if let Some(stats) = world.combat_stats.get(e) {
                if stats.hp < 1 {
                    assert(dying(world@, i as int));
                    return true;
                }
            }
        }
        i = i + 1;
    }
    false
}

/// Removes the entities that have less than one hit point. If a player is
/// among them, nothing is removed and the result is `Some(true)`: ending
/// the game is up to the caller. Otherwise each of them is deleted at once,
/// after a line in the log for those that have a name, and the result is
/// `None`.
pub fn delete_the_dead(world: &mut World) -> (r: Option<bool>)
    ensures
        player_dying(old(world)@) ==> r == Some(true) && final(world)@ == old(world)@,
        !player_dying(old(world)@) ==> r.is_none() && final(world)@ == bury_upto(
            old(world)@,
            old(world)@.capacity(),
        ),
        old(world).wf() ==> final(world).wf(),
{
    if player_is_dying(world) {
        return Some(true);
    }
    let n: usize = world.capacity();
    let mut i: usize = 0;
    while i < n
        invariant
            i <= n,
            n == old(world)@.capacity(),
            n == world@.capacity(),
            world@ == bury_upto(old(world)@, i as int),
            old(world).wf() ==> world.wf(),
        decreases n - i,
    {
        let ghost prev = world@;
        let e = Entity { index: i };
        let mut dead = false;
        if world.is_alive(e) {
            if let Some(stats) = world.combat_stats.get(e) {
                dead = stats.hp < 1;
            }
        }
        if dead {
            if let Some(name) = world.names.get(e) {
                let mut line = name.name.clone();
                push_text(&mut line, " is dead.");
                world.log.push(line);
            }
            world.delete_entity(e);
        }
        assert(world@ =~= bury_step(prev, i as int));
        i = i + 1;
    }
    None
}

} // verus!
