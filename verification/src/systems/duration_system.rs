//! Counting down the effects that last a number of turns.

use vstd::prelude::*;
use crate::components::{ActiveCooldown, Confusion, Invisible};
use crate::sat;
use crate::sat_sub;
use crate::state::RunState;
use crate::world::{Entity, World, WorldView};

verus! {

/// Invisibility one turn later: a counted one has a turn less, and ends
/// when no turn is left; an uncounted one stays.
pub open spec fn invisible_after(v: Invisible) -> Option<Invisible> {
    match v.turns {
        Some(t) => if sat(t - 1) < 1 {
            None
        } else {
            Some(Invisible { turns: Some(sat(t - 1) as i32) })
        },
        None => Some(v),
    }
}

/// A cooldown one turn later.
pub open spec fn cooldown_after(c: ActiveCooldown) -> Option<ActiveCooldown> {
    if sat(c.turns_remaining - 1) < 1 {
        None
    } else {
        Some(ActiveCooldown { turns_remaining: sat(c.turns_remaining - 1) as i32 })
    }
}

/// Confusion one turn later.
pub open spec fn confusion_after(c: Confusion) -> Option<Confusion> {
    if sat(c.turns - 1) < 1 {
        None
    } else {
        Some(Confusion { turns: sat(c.turns - 1) as i32 })
    }
}

/// The invisibility table after the entities with index below `n` were
/// counted down.
pub open spec fn invisible_upto(t: Map<int, Invisible>, n: int) -> Map<int, Invisible> {
    Map::new(
        |i: int| t.contains_key(i) && (0 <= i < n ==> invisible_after(t[i]).is_some()),
        |i: int| if 0 <= i < n { invisible_after(t[i]).unwrap() } else { t[i] },
    )
}

/// The cooldown table after the entities with index below `n` were counted
/// down.
pub open spec fn cooldown_upto(t: Map<int, ActiveCooldown>, n: int) -> Map<int, ActiveCooldown> {
    Map::new(
        |i: int| t.contains_key(i) && (0 <= i < n ==> cooldown_after(t[i]).is_some()),
        |i: int| if 0 <= i < n { cooldown_after(t[i]).unwrap() } else { t[i] },
    )
}

/// The confusion table after the entities with index below `n` were
/// counted down.
pub open spec fn confusion_upto(t: Map<int, Confusion>, n: int) -> Map<int, Confusion> {
    Map::new(
        |i: int| t.contains_key(i) && (0 <= i < n ==> confusion_after(t[i]).is_some()),
        |i: int| if 0 <= i < n { confusion_after(t[i]).unwrap() } else { t[i] },
    )
}

/// The world after the duration system ran. Outside the monsters' turn, and
/// after a fault, nothing changes. Otherwise every counted invisibility,
/// every active cooldown and every confusion has a turn less, and those
/// with no turn left are gone.
pub open spec fn duration_result(w: WorldView) -> WorldView {
    if w.fault.is_some() || w.run_state != RunState::MonsterTurn {
        w
    } else {
        WorldView {
            invisible: invisible_upto(w.invisible, w.capacity()),
            active_cooldowns: cooldown_upto(w.active_cooldowns, w.capacity()),
            confusion: confusion_upto(w.confusion, w.capacity()),
            ..w
        }
    }
}

/// Counts down `Invisible`, `ActiveCooldown` and `Confusion`.
pub struct DurationSystem {}

impl DurationSystem {
    /// Runs the system. See [`duration_result`].
    pub fn run(&mut self, world: &mut World)
        ensures
            final(world)@ == duration_result(old(world)@),
            final(world)@.map == old(world)@.map,
    {
        if world.fault.is_some() {
            return ;
        }
        match world.run_state {
            RunState::MonsterTurn => {},
            _ => {
                return ;
            },
        }
        let n: usize = world.capacity();
        let mut i: usize = 0;
        assert(invisible_upto(world@.invisible, 0) =~= world@.invisible);
        while i < n
            invariant
                i <= n,
                n == old(world)@.capacity(),
                world@ == (WorldView {
                    invisible: invisible_upto(old(world)@.invisible, i as int),
                    ..old(world)@
                }),
            decreases n - i,
        {
            let e = Entity { index: i };
            let mut ended = false;
            if let Some(invisible) = world.invisible.get_mut(e) {
                if let Some(t) = invisible.turns {
                    let left: i32 = sat_sub(t, 1);
                    invisible.turns = Some(left);
                    ended = left < 1;
                }
            }
            if ended {
                world.invisible.remove(e);
            }
            assert(world@.invisible =~= invisible_upto(old(world)@.invisible, i + 1));
            i = i + 1;
        }
        i = 0;
        assert(cooldown_upto(world@.active_cooldowns, 0) =~= world@.active_cooldowns);
        while i < n
            invariant
                i <= n,
                n == old(world)@.capacity(),
                world@ == (WorldView {
                    invisible: invisible_upto(old(world)@.invisible, n as int),
                    active_cooldowns: cooldown_upto(old(world)@.active_cooldowns, i as int),
                    ..old(world)@
                }),
            decreases n - i,
        {
            let e = Entity { index: i };
            let mut ended = false;
            if let Some(cooldown) = world.active_cooldowns.get_mut(e) {
                let left: i32 = sat_sub(cooldown.turns_remaining, 1);
                cooldown.turns_remaining = left;
                ended = left < 1;
            }
            if ended {
                world.active_cooldowns.remove(e);
            }
            assert(world@.active_cooldowns =~= cooldown_upto(old(world)@.active_cooldowns, i + 1));
            i = i + 1;
        }
        i = 0;
        assert(confusion_upto(world@.confusion, 0) =~= world@.confusion);
        while i < n
            invariant
                i <= n,
                n == old(world)@.capacity(),
                world@ == (WorldView {
                    invisible: invisible_upto(old(world)@.invisible, n as int),
                    active_cooldowns: cooldown_upto(old(world)@.active_cooldowns, n as int),
                    confusion: confusion_upto(old(world)@.confusion, i as int),
                    ..old(world)@
                }),
            decreases n - i,
        {
            let e = Entity { index: i };
            let mut ended = false;
            if let Some(confused) = world.confusion.get_mut(e) {
                let left: i32 = sat_sub(confused.turns, 1);
                confused.turns = left;
                ended = left < 1;
            }
            if ended {
                world.confusion.remove(e);
            }
            assert(world@.confusion =~= confusion_upto(old(world)@.confusion, i + 1));
            i = i + 1;
        }
    }
}

} // verus!
