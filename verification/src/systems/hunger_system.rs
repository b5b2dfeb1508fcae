//! The hunger clock: nutrition runs down turn by turn, and who starves is
//! hurt.

use vstd::prelude::*;
use crate::components::{with_damage, HungerClock, HungerState, SufferDamage};
use crate::state::RunState;
use crate::world::{Entity, World, WorldView};
use crate::{sat, sat_sub};

verus! {

/// The most nutrition that a clock holds; at this level one is well fed.
pub const WELL_FED_NUTRITION: i32 = 650;

/// Below this one is no longer well fed.
pub const NORMAL_NUTRITION: i32 = 600;

/// Below this one is hungry.
pub const HUNGRY_NUTRITION: i32 = 400;

/// Below this hunger hurts.
pub const STARVING_NUTRITION: i32 = 200;

/// The band of the hunger clock that `nutrition` falls in: well fed from
/// 650, normal from 600, hungry from 400, starving below.
pub open spec fn hunger_band(nutrition: int) -> HungerState {
    if nutrition >= WELL_FED_NUTRITION {
        HungerState::WellFed
    } else if nutrition >= NORMAL_NUTRITION {
        HungerState::Normal
    } else if nutrition >= HUNGRY_NUTRITION {
        HungerState::Hungry
    } else {
        HungerState::Starving
    }
}

/// How bad a hunger state is: 0 for well fed up to 3 for starving.
pub open spec fn severity(state: HungerState) -> int {
    match state {
        HungerState::WellFed => 0,
        HungerState::Normal => 1,
        HungerState::Hungry => 2,
        HungerState::Starving => 3,
    }
}

/// Less nutrition never means a milder band.
pub proof fn lemma_band_monotonic(a: int, b: int)
    requires
        a <= b,
    ensures
        severity(hunger_band(a)) >= severity(hunger_band(b)),
{
}

/// What the player is told on entering `state`.
pub open spec fn band_line(state: HungerState) -> Seq<char> {
    match state {
        HungerState::WellFed => "You are well fed!"@,
        HungerState::Normal => "You are not hungry."@,
        HungerState::Hungry => "You are hungry."@,
        HungerState::Starving => "You are starving! Eat something!"@,
    }
}

/// What the player is told when hunger hurts.
pub open spec fn pangs_line() -> Seq<char> {
    "Your hunger pangs are getting painful! You suffer 1 damage."@
}

/// Nutrition after one turn: one less, and no more than a clock holds.
pub open spec fn nutrition_after(nutrition: int) -> int {
    if sat(nutrition - 1) > WELL_FED_NUTRITION {
        WELL_FED_NUTRITION as int
    } else {
        sat(nutrition - 1)
    }
}

/// Whether the clock of entity `i` runs in this phase: the player's during
/// the player's turn, everyone else's during the monsters' turn.
pub open spec fn clock_runs(w: WorldView, i: int) -> bool {
    match w.run_state {
        RunState::PlayerTurn => i == w.player.index,
        RunState::MonsterTurn => i != w.player.index,
        _ => false,
    }
}

/// The world after the hunger clock of entity `i` ran for one turn. The
/// clock loses one point of nutrition and moves to the band of what is
/// left; the player is told when the band changes. With less than 200
/// points left the entity suffers 1 damage, of which the player is told.
pub open spec fn hunger_step(w: WorldView, i: int) -> WorldView {
    if w.fault.is_some() || !w.hunger_clocks.contains_key(i) || !clock_runs(w, i) {
        w
    } else {
        let clock = w.hunger_clocks[i];
        let left = nutrition_after(clock.total_nutrition as int);
        let band = hunger_band(left);
        let ticked = WorldView {
            hunger_clocks: w.hunger_clocks.insert(
                i,
                HungerClock { state: band, total_nutrition: left as i32 },
            ),
            ..w
        };
        let told = if band != clock.state && i == w.player.index {
            ticked.say(band_line(band))
        } else {
            ticked
        };
        if left < STARVING_NUTRITION {
            let pained = if i == w.player.index {
                told.say(pangs_line())
            } else {
                told
            };
            WorldView { suffer_damage: with_damage(told.suffer_damage, i, 1), ..pained }
        } else {
            told
        }
    }
}

/// The world after the clocks of the entities with index below `n` ran, in
/// the order of their indices.
pub open spec fn hunger_upto(w: WorldView, n: int) -> WorldView
    decreases n,
{
    if n <= 0 {
        w
    } else {
        hunger_step(hunger_upto(w, n - 1), n - 1)
    }
}

/// A clock that holds more than it can keep is cut to 650 and is well fed;
/// a player who was well fed before is told nothing.
pub proof fn lemma_full_clock_stays_well_fed(w: WorldView, i: int)
    requires
        w.fault.is_none(),
        w.hunger_clocks.contains_key(i),
        clock_runs(w, i),
        w.hunger_clocks[i].total_nutrition > WELL_FED_NUTRITION,
    ensures
        hunger_step(w, i).hunger_clocks[i].total_nutrition == WELL_FED_NUTRITION,
        hunger_step(w, i).hunger_clocks[i].state == HungerState::WellFed,
        w.hunger_clocks[i].state == HungerState::WellFed ==> hunger_step(w, i).log == w.log,
        hunger_step(w, i).suffer_damage == w.suffer_damage,
{
}

/// The player is told of starving on the turn on which nutrition falls
/// below 400, and not again on later turns while it stays at 200 or more.
pub proof fn lemma_starving_is_told_once(w: WorldView)
    requires
        w.fault.is_none(),
        w.run_state == RunState::PlayerTurn,
        w.hunger_clocks.contains_key(w.player.index as int),
    ensures
        ({
            let i = w.player.index as int;
            let clock = w.hunger_clocks[i];
            &&& clock.total_nutrition == HUNGRY_NUTRITION && clock.state == HungerState::Hungry
                ==> hunger_step(w, i).log == w.log.push(band_line(HungerState::Starving))
                && hunger_step(w, i).hunger_clocks[i].state == HungerState::Starving
            &&& STARVING_NUTRITION < clock.total_nutrition < HUNGRY_NUTRITION && clock.state
                == HungerState::Starving ==> hunger_step(w, i).log == w.log
        }),
{
}

/// A clock that ends the turn with less than 200 points adds exactly one
/// hit of 1 to what its owner has to suffer; any other clock adds none.
pub proof fn lemma_hunger_hurts_by_one(w: WorldView, i: int)
    requires
        w.fault.is_none(),
        w.hunger_clocks.contains_key(i),
        clock_runs(w, i),
    ensures
        w.hunger_clocks[i].total_nutrition <= STARVING_NUTRITION ==> hunger_step(w, i).suffer_damage
            == with_damage(w.suffer_damage, i, 1),
        w.hunger_clocks[i].total_nutrition > STARVING_NUTRITION ==> hunger_step(w, i).suffer_damage
            == w.suffer_damage,
{
}

/// Classifies `nutrition`.
pub fn band_of(nutrition: i32) -> (band: HungerState)
    ensures
        band == hunger_band(nutrition as int),
{
    if nutrition >= WELL_FED_NUTRITION {
        HungerState::WellFed
    } else if nutrition >= NORMAL_NUTRITION {
        HungerState::Normal
    } else if nutrition >= HUNGRY_NUTRITION {
        HungerState::Hungry
    } else {
        HungerState::Starving
    }
}

fn hunger_one(world: &mut World, e: Entity)
    ensures
        final(world)@ == hunger_step(old(world)@, e.index as int),
{
    if world.fault.is_some() {
        return ;
    }
    let is_player = e.index == world.player.index;
    let proceed = match world.run_state {
        RunState::PlayerTurn => is_player,
        RunState::MonsterTurn => !is_player,
        _ => false,
    };
    if !proceed {
        return ;
    }
    let before = match world.hunger_clocks.get(e) {
        Some(clock) => *clock,
        None => {
            return ;
        },
    };
    let mut left: i32 = sat_sub(before.total_nutrition, 1);
    if left > WELL_FED_NUTRITION {
        left = WELL_FED_NUTRITION;
    }
    let band = band_of(left);
    world.hunger_clocks.insert(e, HungerClock { state: band, total_nutrition: left });
    if band != before.state && is_player {
        match band {
            HungerState::WellFed => world.log.say("You are well fed!"),
            HungerState::Normal => world.log.say("You are not hungry."),
            HungerState::Hungry => world.log.say("You are hungry."),
            HungerState::Starving => world.log.say("You are starving! Eat something!"),
        }
    }
    if left < STARVING_NUTRITION {
        if is_player {
            world.log.say("Your hunger pangs are getting painful! You suffer 1 damage.");
        }
        SufferDamage::new_damage(&mut world.suffer_damage, e, 1);
    }
}

/// Runs the hunger clocks.
pub struct HungerSystem {}

impl HungerSystem {
    /// Runs the system. See [`hunger_step`].
    pub fn run(&mut self, world: &mut World)
        ensures
            final(world)@ == hunger_upto(old(world)@, old(world)@.capacity()),
            final(world)@.map == old(world)@.map,
    {
        let n: usize = world.capacity();
        let mut i: usize = 0;
        while i < n
            invariant
                i <= n,
                n == old(world)@.capacity(),
                world@.map == old(world)@.map,
                world@ == hunger_upto(old(world)@, i as int),
            decreases n - i,
        {
            hunger_one(world, Entity { index: i });
            i = i + 1;
        }
    }
}

} // verus!
