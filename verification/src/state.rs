//! The phases of a game and the moves between them.

use vstd::prelude::*;
use crate::components::{
    CombatStats, InInventory, Position, ViewshedView, WantsToDropItem, WantsToRemoveItem,
    WantsToUseItem,
};
use crate::gui::{
    aim, backpack, drop_item_menu, menu_choice, outfit, ranged_target, remove_item_menu,
    show_dead_screen, show_inventory, ItemMenuResult,
};
use crate::map::{blank, MapView, TileMap, TileType};
use crate::map_builders::common::row;
use crate::map_builders::simple_map::{rock, SimpleMapBuilder};
use crate::map_builders::{random_builder, MapBuilder};
use crate::menu::{main_menu, menu_move, MainMenuResult};
use crate::player::{on_stairs, phase_after, player_input, world_after, Key};
use crate::rect::{half, halve, Point};
use rltk::RandomNumberGenerator;
use crate::gui::create_character;
use crate::spawner::{
    confusion_wand, depth_in_range, invisibility_timer, player, same, spawn_all,
    with_confusion_wand, with_invisibility_timer, with_player,
};
use crate::systems::damage_system::{bury_upto, delete_the_dead, player_dying};
use crate::systems::monster_ai_system::NavigationPath;
use crate::systems::particle_system::{cull_dead_particles, cull_upto, lemma_cull_capacity, sat64};
use crate::systems::{outcomes_given, run_systems, tick_result, Outcomes};
use crate::world::{Entity, Fault, World, WorldView};
use crate::{MAP_COUNT, MAP_HEIGHT, MAP_WIDTH};

verus! {

/// The entries of the main menu.
#[derive(Clone, Copy, PartialEq, Eq, Debug, Structural)]
pub enum MainMenuSelection {
    NewGame,
    LoadGame,
    Quit,
}

/// The phase that the game is in.
#[derive(Clone, Copy, PartialEq, Eq, Debug, Structural)]
pub enum RunState {
    AwaitingInput,
    PreRun,
    PlayerTurn,
    MonsterTurn,
    ShowInventory,
    ShowRemoveItem,
    ShowDropItem,
    ShowTargeting { range: i32, item: Entity },
    MainMenu { menu_selection: MainMenuSelection },
    SaveGame,
    Dead,
    CharacterCreation,
    NextLevel,
    MagicMapReveal { row: i32 },
    MapGeneration,
}

/// Microseconds for which each step of the making of a level is shown.
pub const MAPGEN_STEP: i64 = 300000;

/// What the outside world did since the last frame.
#[derive(Clone, Copy, PartialEq, Eq, Debug, Structural)]
pub struct FrameInput {
    /// The key that was pressed, if any.
    pub key: Option<Key>,
    /// The place in the alphabet of the letter that was pressed, counting
    /// from 0; -1 if no letter was pressed.
    pub selection: i32,
    /// The tile under the cursor.
    pub mouse: Point,
    pub left_click: bool,
    /// Microseconds since the last frame.
    pub frame_time_us: i64,
    /// Whether a saved game exists.
    pub save_exists: bool,
}

/// What the caller has to do after a frame, since it cannot be done here.
#[derive(Clone, Copy, PartialEq, Eq, Debug, Structural)]
pub enum Effect {
    Nothing,
    /// Delete the saved game: a new game has begun.
    DeleteSave,
    /// Replace the world by the saved one, then delete the saved game.
    LoadGame,
    /// Save the world.
    SaveGame,
    /// Leave the program.
    Quit,
}

/// A game: the world and the state of the show of how a level is made.
pub struct State {
    pub ecs: World,
    /// The phase that follows the show.
    pub mapgen_next_state: Option<RunState>,
    /// The grid after each step of the making of the level.
    pub mapgen_history: Vec<Vec<TileType>>,
    /// The step that is shown.
    pub mapgen_index: usize,
    /// Microseconds for which it has been shown.
    pub mapgen_timer: i64,
}

/// The mathematical content of a [`State`].
pub struct StateView {
    pub ecs: WorldView,
    pub next: Option<RunState>,
    pub history: Seq<Seq<TileType>>,
    pub index: int,
    pub timer: int,
}

impl View for State {
    type V = StateView;

    open spec fn view(&self) -> StateView {
        StateView {
            ecs: self.ecs@,
            next: self.mapgen_next_state,
            history: Seq::new(self.mapgen_history@.len(), |k: int| self.mapgen_history@[k]@),
            index: self.mapgen_index as int,
            timer: self.mapgen_timer as int,
        }
    }
}

/// The world after the player was put on the start of a level: the world
/// remembers the place, the player stands there if it has a position,
/// and its viewshed, if it has one, is dirty.
pub open spec fn settle(w: WorldView, start: Position) -> WorldView {
    let p = w.player.index as int;
    WorldView {
        player_pos: Point { x: start.x, y: start.y },
        positions: if w.positions.contains_key(p) {
            w.positions.insert(p, Position { x: start.x, y: start.y })
        } else {
            w.positions
        },
        viewsheds: if w.viewsheds.contains_key(p) {
            w.viewsheds.insert(p, ViewshedView { dirty: true, ..w.viewsheds[p] })
        } else {
            w.viewsheds
        },
        ..w
    }
}

/// Whether `after` is `w` with a new level at `depth`, made in the steps
/// of `history`: some finished level of rooms and corridors is its map,
/// `history` is the record of its digging, its rooms but the first are
/// filled, and the player is put on its start.
pub open spec fn generated(
    w: WorldView,
    depth: int,
    after: WorldView,
    history: Seq<Seq<TileType>>,
) -> bool {
    exists|b: SimpleMapBuilder, picks: Seq<(usize, Seq<char>)>|
        b.finished() && b.depth == depth && b.steps() == history && #[trigger] settle(
            spawn_all(WorldView { map: b.map@, ..w }, picks, picks.len() as int),
            b.starting_position,
        ) == after
}

/// Whether entity `i` stays when the player goes down: the player, and
/// what it carries or wears.
pub open spec fn stays(w: WorldView, i: int) -> bool {
    ||| w.players.contains_key(i)
    ||| w.in_inventory.contains_key(i) && w.in_inventory[i].owner == w.player
    ||| w.equipped.contains_key(i) && w.equipped[i].owner == w.player
}

/// The entities with index below `n` that exist and do not stay, in the
/// order of their indices.
pub open spec fn leavers(w: WorldView, n: int) -> Seq<Entity>
    decreases n,
{
    if n <= 0 {
        Seq::empty()
    } else if w.is_alive(n - 1) && !stays(w, n - 1) {
        leavers(w, n - 1).push(Entity { index: (n - 1) as usize })
    } else {
        leavers(w, n - 1)
    }
}

/// The world after the first `k` of `gone` were deleted.
pub open spec fn without(w: WorldView, gone: Seq<Entity>, k: int) -> WorldView
    decreases k,
{
    if k <= 0 {
        w
    } else {
        without(w, gone, k - 1).delete(gone[k - 1].index as int)
    }
}

/// What the player is told on the way down.
pub open spec fn descent_line() -> Seq<char> {
    "You descend to the next level, and take a moment to heal."@
}

/// What the log of a new game starts with.
pub open spec fn welcome_line() -> Seq<char> {
    "Welcome to Rusty Roguelike"@
}

/// The world after the player arrived on a new level: it is told so, and
/// has at least half of its hit points.
pub open spec fn arrived(w: WorldView) -> WorldView {
    let p = w.player.index as int;
    let told = w.say(descent_line());
    if w.combat_stats.contains_key(p) {
        let stats = w.combat_stats[p];
        WorldView {
            combat_stats: w.combat_stats.insert(
                p,
                CombatStats {
                    hp: if stats.hp < half(stats.max_hp as int) {
                        half(stats.max_hp as int) as i32
                    } else {
                        stats.hp
                    },
                    ..stats
                },
            ),
            ..told
        }
    } else {
        told
    }
}

/// Whether `after` is `w` one level deeper, the new level made in the
/// steps of `history`: whoever does not stay is
/// deleted, a new level is made at the next depth, and the player
/// arrives.
pub open spec fn descended(w: WorldView, after: WorldView, history: Seq<Seq<TileType>>) -> bool {
    exists|made: WorldView|
        #[trigger] generated(
            without(w, leavers(w, w.capacity()), leavers(w, w.capacity()).len() as int),
            w.map.depth + 1,
            made,
            history,
        ) && after == arrived(made)
}

/// The world without any of its entities but with a new player, at
/// `(0, 0)`.
pub open spec fn reset(w: WorldView) -> WorldView {
    WorldView {
        player: Entity { index: w.capacity() as usize },
        ..with_player(w.purge(w.capacity()), 0, 0)
    }
}

/// The world with what a new game starts with, before its first level is
/// made: a new player, solid rock at depth 1, the log with the welcome
/// alone, and no particle asked for.
pub open spec fn furnished(w: WorldView) -> WorldView {
    WorldView {
        map: blank(rock(), Seq::empty(), 1),
        player: Entity { index: w.capacity() as usize },
        player_pos: Point { x: 0, y: 0 },
        run_state: RunState::MapGeneration,
        log: seq![welcome_line()],
        particles: Seq::empty(),
        ..with_player(w, 0, 0)
    }
}

/// The world as a new game finds it before its first level is made: as
/// [`furnished`], and without any of the entities that it had.
pub open spec fn fresh(w: WorldView) -> WorldView {
    furnished(w.purge(w.capacity()))
}

impl State {
    /// The map has its size, and its depth and the next are depths at
    /// which levels can be made.
    pub open spec fn wf(&self) -> bool {
        &&& self.ecs.wf()
        &&& depth_in_range(self.ecs@.map.depth)
        &&& depth_in_range(self.ecs@.map.depth + 1)
    }

    /// A game as the program starts with it: a new world with a player
    /// and a first level, in the show of how the level was made, after
    /// which the main menu follows.
    pub fn new(rng: RandomNumberGenerator) -> (s: State)
        ensures
            s.ecs.wf(),
            s@.ecs.map.depth == 1,
            s@.ecs.run_state == RunState::MapGeneration,
            s@.next == Some(RunState::MainMenu { menu_selection: MainMenuSelection::NewGame }),
            s@.index == 0,
            s@.timer == 0,
            exists|w: WorldView|
                w.no_components() && w.alive.len() == 0 && #[trigger] generated(
                    furnished(w),
                    1,
                    s@.ecs,
                    s@.history,
                ),
    {
        let mut s = State {
            ecs: World::new(rng),
            mapgen_next_state: Some(RunState::MainMenu { menu_selection: MainMenuSelection::NewGame }),
            mapgen_history: Vec::new(),
            mapgen_index: 0,
            mapgen_timer: 0,
        };
        let ghost empty = s@.ecs;
        s.add_new_world_details();
        proof {
            let f = furnished(empty);
            let (b, picks) = choose|b: SimpleMapBuilder, picks: Seq<(usize, Seq<char>)>|
                b.finished() && b.depth == 1 && b.steps() == s@.history && #[trigger] settle(
                    spawn_all(WorldView { map: b.map@, ..f }, picks, picks.len() as int),
                    b.starting_position,
                ) == s@.ecs;
            crate::spawner::lemma_spawn_frame(WorldView { map: b.map@, ..f }, picks, picks.len() as int);
        }
        s
    }

    /// Runs the systems once. See [`run_systems`].
    pub fn run_systems<
        V: Fn(&TileMap, Point, i32) -> Vec<Point>,
        P: Fn(&TileMap, usize, usize) -> NavigationPath,
    >(&mut self, fov: &V, search: &P)
        requires
            old(self).ecs.wf(),
            forall|m: &TileMap, p: Point, r: i32| m.wf() ==> fov.requires((m, p, r)),
            forall|m: &TileMap, a: usize, b: usize|
                m.wf() && a < MAP_COUNT && b < MAP_COUNT ==> search.requires((m, a, b)),
        ensures
            final(self).ecs.wf(),
            final(self)@ == (StateView { ecs: final(self)@.ecs, ..old(self)@ }),
            exists|o: Outcomes|
                #[trigger] tick_result(old(self)@.ecs, o) == final(self)@.ecs && outcomes_given(
                    *fov,
                    *search,
                    old(self)@.ecs,
                    o,
                ),
    {
        run_systems(&mut self.ecs, fov, search);
    }

    /// Makes a new level at `new_depth` and puts the player on its start.
    /// The show of how the level was made starts over.
    pub fn generate_world_map(&mut self, new_depth: i32)
        requires
            old(self).ecs.wf(),
            depth_in_range(new_depth as int),
        ensures
            final(self).ecs.wf(),
            final(self)@.ecs.map.depth == new_depth,
            generated(old(self)@.ecs, new_depth as int, final(self)@.ecs, final(self)@.history),
            final(self)@.next == old(self)@.next,
            final(self)@.index == 0,
            final(self)@.timer == 0,
    {
        self.mapgen_index = 0;
        self.mapgen_timer = 0;
        let mut builder = random_builder(new_depth);
        builder.build_map(&mut self.ecs.rng);
        self.mapgen_history = builder.get_snapshot_history();
        self.ecs.map = builder.get_map();
        let start = builder.get_starting_position();
        let ghost mapped = self.ecs@;
        builder.spawn_entities(&mut self.ecs);
        let ghost picks = choose|picks: Seq<(usize, Seq<char>)>|
            #[trigger] spawn_all(mapped, picks, picks.len() as int) == self.ecs@;
        let ghost filled = self.ecs@;
        self.ecs.player_pos = Point { x: start.x, y: start.y };
        let player = self.ecs.player;
        if let Some(pos) = self.ecs.positions.get_mut(player) {
            pos.x = start.x;
            pos.y = start.y;
        }
        if let Some(vs) = self.ecs.viewsheds.get_mut(player) {
            vs.dirty = true;
        }
        proof {
            crate::spawner::lemma_spawn_frame(mapped, picks, picks.len() as int);
            assert(self.ecs@ =~= settle(filled, start));
            assert(settle(
                spawn_all(
                    WorldView { map: builder.map@, ..old(self)@.ecs },
                    picks,
                    picks.len() as int,
                ),
                builder.starting_position,
            ) == self.ecs@);
        }
    }

    /// The entities that do not go down with the player: all but the
    /// player and what it carries or wears.
    pub fn entities_to_remove_on_level_change(&self) -> (to_delete: Vec<Entity>)
        ensures
            to_delete@ == leavers(self@.ecs, self@.ecs.capacity()),
    {
        let n: usize = self.ecs.capacity();
        let mut to_delete: Vec<Entity> = Vec::new();
        let mut i: usize = 0;
        while i < n
            invariant
                i <= n,
                n == self@.ecs.capacity(),
                to_delete@ == leavers(self@.ecs, i as int),
            decreases n - i,
        {
            let entity = Entity { index: i };
            if self.ecs.is_alive(entity) {
                let mut should_delete = true;
                if self.ecs.players.contains(entity) {
                    should_delete = false;
                }
                if let Some(bp) = self.ecs.in_inventory.get(entity) {
                    if bp.owner == self.ecs.player {
                        should_delete = false;
                    }
                }
                if let Some(bp) = self.ecs.equipped.get(entity) {
                    if bp.owner == self.ecs.player {
                        should_delete = false;
                    }
                }
                if should_delete {
                    to_delete.push(entity);
                }
            }
            i = i + 1;
        }
        to_delete
    }

    /// Takes the player one level down. See [`descended`].
    pub fn goto_next_level(&mut self)
        requires
            old(self).wf(),
        ensures
            final(self).ecs.wf(),
            final(self)@.ecs.map.depth == old(self)@.ecs.map.depth + 1,
            descended(old(self)@.ecs, final(self)@.ecs, final(self)@.history),
            final(self)@.next == old(self)@.next,
            final(self)@.index == 0,
            final(self)@.timer == 0,
    {
        let to_delete = self.entities_to_remove_on_level_change();
        let mut k: usize = 0;
        while k < to_delete.len()
            invariant
                k <= to_delete@.len(),
                self.wf(),
                self@.ecs.map == old(self)@.ecs.map,
                self@.next == old(self)@.next,
                self@.ecs == without(old(self)@.ecs, to_delete@, k as int),
            decreases to_delete@.len() - k,
        {
            self.ecs.delete_entity(to_delete[k]);
            k = k + 1;
        }
        let current_depth: i32 = self.ecs.map.depth;
        self.generate_world_map(current_depth + 1);
        let ghost made = self@.ecs;
        self.ecs.log.say("You descend to the next level, and take a moment to heal.");
        let player = self.ecs.player;
        if let Some(player_health) = self.ecs.combat_stats.get_mut(player) {
            let floor: i32 = halve(player_health.max_hp as i64);
            if player_health.hp < floor {
                player_health.hp = floor;
            }
        }
        assert(self@.ecs =~= arrived(made));
    }

    /// Starts over after the player died: every entity is deleted, a new
    /// player is made, and so is a first level.
    pub fn game_over_cleanup(&mut self)
        requires
            old(self).ecs.wf(),
        ensures
            final(self).ecs.wf(),
            final(self)@.ecs.map.depth == 1,
            generated(reset(old(self)@.ecs), 1, final(self)@.ecs, final(self)@.history),
            final(self)@.next == old(self)@.next,
            final(self)@.index == 0,
            final(self)@.timer == 0,
    {
        self.ecs.delete_all();
        let player_entity = player(&mut self.ecs, 0, 0);
        self.ecs.player = player_entity;
        self.generate_world_map(1);
    }

    /// Puts into the world what a new game starts with, and makes the
    /// first level.
    pub fn add_new_world_details(&mut self)
        ensures
            final(self).ecs.wf(),
            final(self)@.ecs.map.depth == 1,
            generated(furnished(old(self)@.ecs), 1, final(self)@.ecs, final(self)@.history),
            final(self)@.next == old(self)@.next,
            final(self)@.index == 0,
            final(self)@.timer == 0,
    {
        self.ecs.map = TileMap::new(1);
        assert(self.ecs@.map.tiles =~= rock());
        self.ecs.player_pos = Point { x: 0, y: 0 };
        let player_entity = player(&mut self.ecs, 0, 0);
        self.ecs.player = player_entity;
        self.ecs.run_state = RunState::MapGeneration;
        self.ecs.log.entries.clear();
        self.ecs.log.say("Welcome to Rusty Roguelike");
        self.ecs.particles.requests.clear();
        assert(self.ecs@.log =~= seq![welcome_line()]);
        assert(self.ecs@ =~= furnished(old(self)@.ecs));
        self.generate_world_map(1);
    }

    /// Begins a new game: every entity is deleted, and the world is set
    /// up anew. The caller has to delete the saved game.
    pub fn new_game(&mut self)
        requires
            old(self).ecs.wf(),
        ensures
            final(self).ecs.wf(),
            final(self)@.ecs.map.depth == 1,
            generated(fresh(old(self)@.ecs), 1, final(self)@.ecs, final(self)@.history),
            final(self)@.next == old(self)@.next,
            final(self)@.index == 0,
            final(self)@.timer == 0,
    {
        self.ecs.delete_all();
        self.add_new_world_details();
    }
}

/// Whether the dead are looked for in this phase: in all but the main
/// menu and the making of a character.
pub open spec fn in_play(phase: RunState) -> bool {
    match phase {
        RunState::MainMenu { .. } => false,
        RunState::CharacterCreation => false,
        _ => true,
    }
}

/// The world at the start of a frame, after the particles aged by
/// `elapsed` microseconds and, while in play and unless the player is
/// dying, the dead were removed.
pub open spec fn frame_start(w: WorldView, elapsed: i64) -> WorldView {
    let culled = cull_upto(w, w.capacity(), elapsed);
    if in_play(w.run_state) && !player_dying(culled) {
        bury_upto(culled, culled.capacity())
    } else {
        culled
    }
}

/// The phase that a frame acts in: that of the world, or the player's
/// death if the player is dying while in play.
pub open spec fn frame_phase(w: WorldView, elapsed: i64) -> RunState {
    if in_play(w.run_state) && player_dying(cull_upto(w, w.capacity(), elapsed)) {
        RunState::Dead
    } else {
        w.run_state
    }
}

/// The state after one frame of the show of how the level was made: the
/// step that is shown has been shown for `elapsed` microseconds more;
/// after more than 300 milliseconds the next step is shown, and after the
/// last step the phase that was to follow begins. No such phase is a
/// fault.
pub open spec fn shown(s: StateView, elapsed: i64) -> (StateView, RunState) {
    let timer = sat64(s.timer + elapsed);
    if timer <= MAPGEN_STEP {
        (StateView { timer, ..s }, RunState::MapGeneration)
    } else {
        let index = if s.index < usize::MAX {
            s.index + 1
        } else {
            s.index
        };
        let turned = StateView { timer: 0, index, ..s };
        if index < s.history.len() {
            (turned, RunState::MapGeneration)
        } else {
            match s.next {
                Some(next) => (turned, next),
                None => (
                    StateView { ecs: s.ecs.fail(Fault::MissingComponent), ..turned },
                    RunState::MapGeneration,
                ),
            }
        }
    }
}

/// The world after row `y` of the map was revealed by magic, and the
/// phase that follows: the next row, or the monsters' turn after the last
/// row. A row off the map is a fault.
pub open spec fn revealed_row(w: WorldView, y: i32) -> (WorldView, RunState) {
    if y < 0 || y >= MAP_HEIGHT {
        (w.fail(Fault::OutOfBounds), RunState::MagicMapReveal { row: y })
    } else {
        (
            WorldView {
                map: MapView {
                    revealed: Seq::new(
                        w.map.revealed.len(),
                        |t: int| w.map.revealed[t] || row(t) == y,
                    ),
                    ..w.map
                },
                ..w
            },
            if y == MAP_HEIGHT - 1 {
                RunState::MonsterTurn
            } else {
                RunState::MagicMapReveal { row: (y + 1) as i32 }
            },
        )
    }
}

/// The world after the player announced an intent by way of a menu: the
/// intent is `intent` applied to the world. A player that does not exist
/// is a fault.
pub open spec fn announced(w: WorldView, intent: WorldView) -> WorldView {
    if w.is_alive(w.player.index as int) {
        intent
    } else {
        w.fail(Fault::DeadEntity)
    }
}

/// The world and the phase after the cursor was read while an item is
/// aimed.
pub open spec fn targeted(w: WorldView, range: i32, item: Entity, input: FrameInput) -> (
    WorldView,
    RunState,
) {
    let (result, target) = aim(w, range as int, input.mouse, input.left_click);
    match result {
        ItemMenuResult::Cancel => (w, RunState::AwaitingInput),
        ItemMenuResult::NoResponse => (w, RunState::ShowTargeting { range, item }),
        ItemMenuResult::Selected => (
            announced(
                w,
                WorldView {
                    wants_use: w.wants_use.insert(
                        w.player.index as int,
                        WantsToUseItem { item, target },
                    ),
                    ..w
                },
            ),
            RunState::PlayerTurn,
        ),
    }
}

/// The world and the phase after a key was read in the menu of items to
/// drop.
pub open spec fn drop_chosen(w: WorldView, input: FrameInput) -> (WorldView, RunState) {
    let (result, item) = menu_choice(backpack(w, w.capacity()), input.key, input.selection as int);
    match result {
        ItemMenuResult::Cancel => (w, RunState::AwaitingInput),
        ItemMenuResult::NoResponse => (w, RunState::ShowDropItem),
        ItemMenuResult::Selected => (
            announced(
                w,
                WorldView {
                    wants_drop: w.wants_drop.insert(
                        w.player.index as int,
                        WantsToDropItem { item: item.unwrap() },
                    ),
                    ..w
                },
            ),
            RunState::PlayerTurn,
        ),
    }
}

/// The world and the phase after a key was read in the menu of items to
/// take off.
pub open spec fn remove_chosen(w: WorldView, input: FrameInput) -> (WorldView, RunState) {
    let (result, item) = menu_choice(outfit(w, w.capacity()), input.key, input.selection as int);
    match result {
        ItemMenuResult::Cancel => (w, RunState::AwaitingInput),
        ItemMenuResult::NoResponse => (w, RunState::ShowRemoveItem),
        ItemMenuResult::Selected => (
            announced(
                w,
                WorldView {
                    wants_remove: w.wants_remove.insert(
                        w.player.index as int,
                        WantsToRemoveItem { item: item.unwrap() },
                    ),
                    ..w
                },
            ),
            RunState::PlayerTurn,
        ),
    }
}

/// The world and the phase after a key was read in the inventory: an item
/// with a range is aimed next, any other is used at once.
pub open spec fn use_chosen(w: WorldView, input: FrameInput) -> (WorldView, RunState) {
    let (result, item) = menu_choice(backpack(w, w.capacity()), input.key, input.selection as int);
    match result {
        ItemMenuResult::Cancel => (w, RunState::AwaitingInput),
        ItemMenuResult::NoResponse => (w, RunState::ShowInventory),
        ItemMenuResult::Selected => if w.ranged.contains_key(item.unwrap().index as int) {
            (
                w,
                RunState::ShowTargeting {
                    range: w.ranged[item.unwrap().index as int].range,
                    item: item.unwrap(),
                },
            )
        } else {
            (
                announced(
                    w,
                    WorldView {
                        wants_use: w.wants_use.insert(
                            w.player.index as int,
                            WantsToUseItem { item: item.unwrap(), target: None },
                        ),
                        ..w
                    },
                ),
                RunState::PlayerTurn,
            )
        },
    }
}

/// The world with the item that the player starts with: the first key
/// gives the invisibility timer, the second the confusion wand, and the
/// item is in the inventory of the player. Any other key gives nothing.
pub open spec fn equipped_for_start(w: WorldView, key: Option<Key>) -> (WorldView, RunState) {
    match key {
        Some(Key::Key1) => (
            WorldView {
                in_inventory: w.in_inventory.insert(w.capacity(), InInventory { owner: w.player }),
                ..with_invisibility_timer(w)
            },
            RunState::PreRun,
        ),
        Some(Key::Key2) => (
            WorldView {
                in_inventory: w.in_inventory.insert(w.capacity(), InInventory { owner: w.player }),
                ..with_confusion_wand(w)
            },
            RunState::PreRun,
        ),
        _ => (w, RunState::CharacterCreation),
    }
}

/// A frame of the show of how the level was made. See [`shown`].
pub open spec fn step_show(s: StateView, input: FrameInput, after: StateView, next: RunState, effect: Effect) -> bool {
    (after, next) == shown(s, input.frame_time_us) && effect == Effect::Nothing
}

/// A frame after the player's death: the Return key starts over with a
/// new player and a new first level, and leads to the main menu; without
/// it nothing happens.
pub open spec fn step_dead(s: StateView, input: FrameInput, after: StateView, next: RunState, effect: Effect) -> bool {
    effect == Effect::Nothing && if input.key == Some(Key::Return) {
        &&& generated(reset(s.ecs), 1, after.ecs, after.history)
        &&& after == (StateView { ecs: after.ecs, index: 0, timer: 0, history: after.history, ..s })
        &&& next == (RunState::MainMenu { menu_selection: MainMenuSelection::NewGame })
    } else {
        after == s && next == RunState::Dead
    }
}

/// A frame of the magic that reveals the map. See [`revealed_row`].
pub open spec fn step_reveal(s: StateView, y: i32, after: StateView, next: RunState, effect: Effect) -> bool {
    effect == Effect::Nothing && after == (StateView { ecs: revealed_row(s.ecs, y).0, ..s }) && next
        == revealed_row(s.ecs, y).1
}

/// The frame that takes the player down, after which the systems run
/// before anything else. See [`descended`]. A depth beyond which no
/// level can be made is a fault.
pub open spec fn step_descend(s: StateView, after: StateView, next: RunState, effect: Effect) -> bool {
    effect == Effect::Nothing && if depth_in_range(s.ecs.map.depth) && depth_in_range(
        s.ecs.map.depth + 1,
    ) {
        &&& descended(s.ecs, after.ecs, after.history)
        &&& after == (StateView { ecs: after.ecs, index: 0, timer: 0, history: after.history, ..s })
        &&& next == RunState::PreRun
    } else {
        after == (StateView { ecs: s.ecs.fail(Fault::OutOfBounds), ..s }) && next
            == RunState::NextLevel
    }
}

/// A frame in the main menu with `selection` highlighted. Moving the
/// highlight changes nothing else. Choosing a new game sets the world up
/// anew, leads to the making of a character and leaves the deletion of
/// the saved game to the caller; choosing to load or to quit leaves that
/// to the caller.
pub open spec fn step_menu(
    s: StateView,
    selection: MainMenuSelection,
    input: FrameInput,
    after: StateView,
    next: RunState,
    effect: Effect,
) -> bool {
    match menu_move(selection, input.key, input.save_exists) {
        MainMenuResult::NoSelection { selected } => after == s && effect == Effect::Nothing && next
            == (RunState::MainMenu { menu_selection: selected }),
        MainMenuResult::Selected { selected } => match selected {
            MainMenuSelection::NewGame => {
                &&& generated(fresh(s.ecs), 1, after.ecs, after.history)
                &&& after == (StateView {
                    ecs: after.ecs,
                    index: 0,
                    timer: 0,
                    history: after.history,
                    ..s
                })
                &&& next == RunState::CharacterCreation
                &&& effect == Effect::DeleteSave
            },
            MainMenuSelection::LoadGame => after == s && next == RunState::AwaitingInput && effect
                == Effect::LoadGame,
            MainMenuSelection::Quit => after == s && next == (RunState::MainMenu {
                menu_selection: selection,
            }) && effect == Effect::Quit,
        },
    }
}

/// A frame in which the systems run. See [`tick_result`].
pub open spec fn step_systems<
    V: Fn(&TileMap, Point, i32) -> Vec<Point>,
    P: Fn(&TileMap, usize, usize) -> NavigationPath,
>(s: StateView, fov: V, search: P, after: StateView, effect: Effect) -> bool {
    effect == Effect::Nothing && after == (StateView { ecs: after.ecs, ..s }) && exists|o: Outcomes|
        #[trigger] tick_result(s.ecs, o) == after.ecs && outcomes_given(fov, search, s.ecs, o)
}

/// The phase after the systems ran in the player's turn: the revealing of
/// the map if an item asked for it, else the monsters' turn.
pub open spec fn after_player_turn(w: WorldView) -> RunState {
    match w.run_state {
        RunState::MagicMapReveal { .. } => RunState::MagicMapReveal { row: 0 },
        _ => RunState::MonsterTurn,
    }
}

/// Whether one frame in `phase` may lead from `s` to `after`, with the
/// phase `next` to follow and `effect` left to the caller.
pub open spec fn stepped<
    V: Fn(&TileMap, Point, i32) -> Vec<Point>,
    P: Fn(&TileMap, usize, usize) -> NavigationPath,
>(
    s: StateView,
    phase: RunState,
    input: FrameInput,
    fov: V,
    search: P,
    after: StateView,
    next: RunState,
    effect: Effect,
) -> bool {
    match phase {
        RunState::MapGeneration => step_show(s, input, after, next, effect),
        RunState::Dead => step_dead(s, input, after, next, effect),
        RunState::MagicMapReveal { row } => step_reveal(s, row, after, next, effect),
        RunState::NextLevel => step_descend(s, after, next, effect),
        RunState::MainMenu { menu_selection } => step_menu(
            s,
            menu_selection,
            input,
            after,
            next,
            effect,
        ),
        RunState::CharacterCreation => effect == Effect::Nothing && after == (StateView {
            ecs: equipped_for_start(s.ecs, input.key).0,
            ..s
        }) && next == equipped_for_start(s.ecs, input.key).1,
        RunState::SaveGame => after == s && effect == Effect::SaveGame && next == (
        RunState::MainMenu { menu_selection: MainMenuSelection::LoadGame }),
        RunState::PreRun => step_systems(s, fov, search, after, effect) && next
            == RunState::AwaitingInput,
        RunState::PlayerTurn => step_systems(s, fov, search, after, effect) && next
            == after_player_turn(after.ecs),
        RunState::MonsterTurn => step_systems(s, fov, search, after, effect) && next
            == RunState::AwaitingInput,
        RunState::AwaitingInput => effect == Effect::Nothing && after == (StateView {
            ecs: world_after(s.ecs, input.key),
            ..s
        }) && next == phase_after(input.key, on_stairs(s.ecs)),
        RunState::ShowTargeting { range, item } => effect == Effect::Nothing && after == (StateView {
            ecs: targeted(s.ecs, range, item, input).0,
            ..s
        }) && next == targeted(s.ecs, range, item, input).1,
        RunState::ShowDropItem => effect == Effect::Nothing && after == (StateView {
            ecs: drop_chosen(s.ecs, input).0,
            ..s
        }) && next == drop_chosen(s.ecs, input).1,
        RunState::ShowRemoveItem => effect == Effect::Nothing && after == (StateView {
            ecs: remove_chosen(s.ecs, input).0,
            ..s
        }) && next == remove_chosen(s.ecs, input).1,
        RunState::ShowInventory => effect == Effect::Nothing && after == (StateView {
            ecs: use_chosen(s.ecs, input).0,
            ..s
        }) && next == use_chosen(s.ecs, input).1,
    }
}

/// Whether one frame may lead from `s` to `after`, with `effect` left to
/// the caller: the frame starts as [`frame_start`] tells, acts in the
/// phase that [`frame_phase`] tells, and ends with the world in the phase
/// that follows.
pub open spec fn ticked<
    V: Fn(&TileMap, Point, i32) -> Vec<Point>,
    P: Fn(&TileMap, usize, usize) -> NavigationPath,
>(s: StateView, input: FrameInput, fov: V, search: P, after: StateView, effect: Effect) -> bool {
    exists|mid: StateView, next: RunState|
        #[trigger] stepped(
            StateView { ecs: frame_start(s.ecs, input.frame_time_us), ..s },
            frame_phase(s.ecs, input.frame_time_us),
            input,
            fov,
            search,
            mid,
            next,
            effect,
        ) && after == (StateView { ecs: WorldView { run_state: next, ..mid.ecs }, ..mid })
}

impl State {
    fn show_step(&mut self, elapsed: i64) -> (next: RunState)
        ensures
            (final(self)@, next) == shown(old(self)@, elapsed),
            final(self)@.ecs.map == old(self)@.ecs.map,
    {
        let wide: i128 = self.mapgen_timer as i128 + elapsed as i128;
        let timer: i64 = if wide < -9223372036854775808i128 {
            i64::MIN
        } else if wide > 9223372036854775807i128 {
            i64::MAX
        } else {
            wide as i64
        };
        self.mapgen_timer = timer;
        if timer <= MAPGEN_STEP {
            return RunState::MapGeneration;
        }
        self.mapgen_timer = 0;
        if self.mapgen_index < usize::MAX {
            self.mapgen_index = self.mapgen_index + 1;
        }
        if self.mapgen_index < self.mapgen_history.len() {
            return RunState::MapGeneration;
        }
        match self.mapgen_next_state {
            Some(next) => next,
            None => {
                self.ecs.fail(Fault::MissingComponent);
                RunState::MapGeneration
            },
        }
    }

    fn reveal_row(&mut self, y: i32) -> (next: RunState)
        requires
            old(self).ecs.wf(),
        ensures
            final(self).ecs.wf(),
            final(self)@ == (StateView { ecs: revealed_row(old(self)@.ecs, y).0, ..old(self)@ }),
            next == revealed_row(old(self)@.ecs, y).1,
    {
        if y < 0 || y >= MAP_HEIGHT {
            self.ecs.fail(Fault::OutOfBounds);
            return RunState::MagicMapReveal { row: y };
        }
        let mut x: i32 = 0;
        while x < MAP_WIDTH
            invariant
                0 <= x <= MAP_WIDTH,
                0 <= y < MAP_HEIGHT,
                self.ecs.wf(),
                self@ == (StateView {
                    ecs: WorldView {
                        map: MapView { revealed: self@.ecs.map.revealed, ..old(self)@.ecs.map },
                        ..old(self)@.ecs
                    },
                    ..old(self)@
                }),
                forall|t: int|
                    0 <= t < MAP_COUNT ==> #[trigger] self@.ecs.map.revealed[t] == (old(
                        self,
                    )@.ecs.map.revealed[t] || (row(t) == y && crate::map_builders::common::col(t) < x)),
            decreases MAP_WIDTH - x,
        {
            let idx = self.ecs.map.xy_idx(x, y);
            self.ecs.map.revealed_tiles[idx] = true;
            assert(row(idx as int) == y && crate::map_builders::common::col(idx as int) == x);
            assert forall|t: int| 0 <= t < MAP_COUNT && row(t) == y && crate::map_builders::common::col(
                t,
            ) == x implies t == idx by {}
            x = x + 1;
        }
        assert(self@.ecs.map.revealed =~= revealed_row(old(self)@.ecs, y).0.map.revealed);
        if y == MAP_HEIGHT - 1 {
            RunState::MonsterTurn
        } else {
            RunState::MagicMapReveal { row: y + 1 }
        }
    }

    fn aim_item(&mut self, range: i32, item: Entity, input: &FrameInput) -> (next: RunState)
        ensures
            final(self)@ == (StateView {
                ecs: targeted(old(self)@.ecs, range, item, *input).0,
                ..old(self)@
            }),
            next == targeted(old(self)@.ecs, range, item, *input).1,
            final(self)@.ecs.map == old(self)@.ecs.map,
    {
        let (result, target) = ranged_target(&self.ecs, range, input.mouse, input.left_click);
        match result {
            ItemMenuResult::Cancel => RunState::AwaitingInput,
            ItemMenuResult::NoResponse => RunState::ShowTargeting { range, item },
            ItemMenuResult::Selected => {
                let player = self.ecs.player;
                if self.ecs.is_alive(player) {
                    self.ecs.wants_use.insert(player, WantsToUseItem { item, target });
                } else {
                    self.ecs.fail(Fault::DeadEntity);
                }
                RunState::PlayerTurn
            },
        }
    }

    fn choose_drop(&mut self, input: &FrameInput) -> (next: RunState)
        ensures
            final(self)@ == (StateView { ecs: drop_chosen(old(self)@.ecs, *input).0, ..old(self)@ }),
            next == drop_chosen(old(self)@.ecs, *input).1,
            final(self)@.ecs.map == old(self)@.ecs.map,
    {
        let (result, chosen) = drop_item_menu(&self.ecs, input.key, input.selection);
        match result {
            ItemMenuResult::Cancel => RunState::AwaitingInput,
            ItemMenuResult::NoResponse => RunState::ShowDropItem,
            ItemMenuResult::Selected => {
                let player = self.ecs.player;
                if let Some(item) = chosen {
                    if self.ecs.is_alive(player) {
                        self.ecs.wants_drop.insert(player, WantsToDropItem { item });
                    } else {
                        self.ecs.fail(Fault::DeadEntity);
                    }
                }
                RunState::PlayerTurn
            },
        }
    }

    fn choose_remove(&mut self, input: &FrameInput) -> (next: RunState)
        ensures
            final(self)@ == (StateView { ecs: remove_chosen(old(self)@.ecs, *input).0, ..old(self)@ }),
            next == remove_chosen(old(self)@.ecs, *input).1,
            final(self)@.ecs.map == old(self)@.ecs.map,
    {
        let (result, chosen) = remove_item_menu(&self.ecs, input.key, input.selection);
        match result {
            ItemMenuResult::Cancel => RunState::AwaitingInput,
            ItemMenuResult::NoResponse => RunState::ShowRemoveItem,
            ItemMenuResult::Selected => {
                let player = self.ecs.player;
                if let Some(item) = chosen {
                    if self.ecs.is_alive(player) {
                        self.ecs.wants_remove.insert(player, WantsToRemoveItem { item });
                    } else {
                        self.ecs.fail(Fault::DeadEntity);
                    }
                }
                RunState::PlayerTurn
            },
        }
    }

    fn choose_use(&mut self, input: &FrameInput) -> (next: RunState)
        ensures
            final(self)@ == (StateView { ecs: use_chosen(old(self)@.ecs, *input).0, ..old(self)@ }),
            next == use_chosen(old(self)@.ecs, *input).1,
            final(self)@.ecs.map == old(self)@.ecs.map,
    {
        let (result, chosen) = show_inventory(&self.ecs, input.key, input.selection);
        match result {
            ItemMenuResult::Cancel => RunState::AwaitingInput,
            ItemMenuResult::NoResponse => RunState::ShowInventory,
            ItemMenuResult::Selected => {
                let player = self.ecs.player;
                match chosen {
                    None => RunState::PlayerTurn,
                    Some(item) => {
                        let reach: Option<i32> = match self.ecs.ranged.get(item) {
                            Some(r) => Some(r.range),
                            None => None,
                        };
                        match reach {
                            Some(range) => RunState::ShowTargeting { range, item },
                            None => {
                                if self.ecs.is_alive(player) {
                                    self.ecs.wants_use.insert(
                                        player,
                                        WantsToUseItem { item, target: None },
                                    );
                                } else {
                                    self.ecs.fail(Fault::DeadEntity);
                                }
                                RunState::PlayerTurn
                            },
                        }
                    },
                }
            },
        }
    }

    fn equip_for_start(&mut self, key: Option<Key>) -> (next: RunState)
        ensures
            final(self)@ == (StateView {
                ecs: equipped_for_start(old(self)@.ecs, key).0,
                ..old(self)@
            }),
            next == equipped_for_start(old(self)@.ecs, key).1,
            final(self)@.ecs.map == old(self)@.ecs.map,
    {
        let mut items: Vec<String> = Vec::new();
        items.push(String::from_str("Invisibility Timer"));
        items.push(String::from_str("Confusion Wand"));
        proof {
            reveal_strlit("Invisibility Timer");
            reveal_strlit("Confusion Wand");
            assert("Invisibility Timer"@.len() != "Confusion Wand"@.len());
        }
        let selected_item = create_character(key, &items);
        let mut item_to_add: Option<Entity> = None;
        match selected_item {
            None => {},
            Some(item_name) => {
                if same(&item_name, "Invisibility Timer") {
                    item_to_add = Some(invisibility_timer(&mut self.ecs));
                } else if same(&item_name, "Confusion Wand") {
                    item_to_add = Some(confusion_wand(&mut self.ecs));
                }
            },
        }
        match item_to_add {
            None => RunState::CharacterCreation,
            Some(item) => {
                let owner = self.ecs.player;
                self.ecs.in_inventory.insert(item, InInventory { owner });
                RunState::PreRun
            },
        }
    }

    fn after_death(&mut self, input: &FrameInput) -> (r: (RunState, Effect))
        requires
            old(self).ecs.wf(),
        ensures
            final(self).ecs.wf(),
            step_dead(old(self)@, *input, final(self)@, r.0, r.1),
    {
        match show_dead_screen(input.key) {
            None => (RunState::Dead, Effect::Nothing),
            Some(_) => {
                self.game_over_cleanup();
                (RunState::MainMenu { menu_selection: MainMenuSelection::NewGame }, Effect::Nothing)
            },
        }
    }

    fn descend(&mut self) -> (r: (RunState, Effect))
        requires
            old(self).ecs.wf(),
        ensures
            final(self).ecs.wf(),
            step_descend(old(self)@, final(self)@, r.0, r.1),
    {
        let depth: i32 = self.ecs.map.depth;
        if -2147483647 <= depth && depth < 429496720 {
            self.goto_next_level();
            (RunState::PreRun, Effect::Nothing)
        } else {
            self.ecs.fail(Fault::OutOfBounds);
            (RunState::NextLevel, Effect::Nothing)
        }
    }

    fn in_menu(&mut self, selection: MainMenuSelection, input: &FrameInput) -> (r: (RunState, Effect))
        requires
            old(self).ecs.wf(),
        ensures
            final(self).ecs.wf(),
            step_menu(old(self)@, selection, *input, final(self)@, r.0, r.1),
    {
        match main_menu(selection, input.key, input.save_exists) {
            MainMenuResult::NoSelection { selected } => (
                RunState::MainMenu { menu_selection: selected },
                Effect::Nothing,
            ),
            MainMenuResult::Selected { selected } => match selected {
                MainMenuSelection::NewGame => {
                    self.new_game();
                    (RunState::CharacterCreation, Effect::DeleteSave)
                },
                MainMenuSelection::LoadGame => (RunState::AwaitingInput, Effect::LoadGame),
                MainMenuSelection::Quit => (
                    RunState::MainMenu { menu_selection: selection },
                    Effect::Quit,
                ),
            },
        }
    }

    fn turn<
        V: Fn(&TileMap, Point, i32) -> Vec<Point>,
        P: Fn(&TileMap, usize, usize) -> NavigationPath,
    >(&mut self, fov: &V, search: &P) -> (effect: Effect)
        requires
            old(self).ecs.wf(),
            forall|m: &TileMap, p: Point, r: i32| m.wf() ==> fov.requires((m, p, r)),
            forall|m: &TileMap, a: usize, b: usize|
                m.wf() && a < MAP_COUNT && b < MAP_COUNT ==> search.requires((m, a, b)),
        ensures
            final(self).ecs.wf(),
            step_systems(old(self)@, *fov, *search, final(self)@, effect),
    {
        self.run_systems(fov, search);
        Effect::Nothing
    }

    fn advance<
        V: Fn(&TileMap, Point, i32) -> Vec<Point>,
        P: Fn(&TileMap, usize, usize) -> NavigationPath,
    >(&mut self, phase: RunState, input: &FrameInput, fov: &V, search: &P) -> (r: (RunState, Effect))
        requires
            old(self).ecs.wf(),
            forall|m: &TileMap, p: Point, r: i32| m.wf() ==> fov.requires((m, p, r)),
            forall|m: &TileMap, a: usize, b: usize|
                m.wf() && a < MAP_COUNT && b < MAP_COUNT ==> search.requires((m, a, b)),
        ensures
            final(self).ecs.wf(),
            stepped(old(self)@, phase, *input, *fov, *search, final(self)@, r.0, r.1),
    {
        match phase {
            RunState::MapGeneration => (self.show_step(input.frame_time_us), Effect::Nothing),
            RunState::Dead => self.after_death(input),
            RunState::MagicMapReveal { row } => (self.reveal_row(row), Effect::Nothing),
            RunState::NextLevel => self.descend(),
            RunState::MainMenu { menu_selection } => self.in_menu(menu_selection, input),
            RunState::CharacterCreation => (self.equip_for_start(input.key), Effect::Nothing),
            RunState::SaveGame => (
                RunState::MainMenu { menu_selection: MainMenuSelection::LoadGame },
                Effect::SaveGame,
            ),
            RunState::PreRun => {
                let effect = self.turn(fov, search);
                (RunState::AwaitingInput, effect)
            },
            RunState::PlayerTurn => {
                let effect = self.turn(fov, search);
                match self.ecs.run_state {
                    RunState::MagicMapReveal { .. } => (RunState::MagicMapReveal { row: 0 }, effect),
                    _ => (RunState::MonsterTurn, effect),
                }
            },
            RunState::MonsterTurn => {
                let effect = self.turn(fov, search);
                (RunState::AwaitingInput, effect)
            },
            RunState::AwaitingInput => (player_input(&mut self.ecs, input.key), Effect::Nothing),
            RunState::ShowTargeting { range, item } => (
                self.aim_item(range, item, input),
                Effect::Nothing,
            ),
            RunState::ShowDropItem => (self.choose_drop(input), Effect::Nothing),
            RunState::ShowRemoveItem => (self.choose_remove(input), Effect::Nothing),
            RunState::ShowInventory => (self.choose_use(input), Effect::Nothing),
        }
    }

    /// Plays one frame: the particles age and the dead are removed; then
    /// the game does what its phase asks for, which may be reading the
    /// input, running the systems or making a level; and the world is
    /// left in the phase that follows. `fov` and `search` are asked as in
    /// [`run_systems`]. See [`ticked`] for what may come of it.
    pub fn tick<
        V: Fn(&TileMap, Point, i32) -> Vec<Point>,
        P: Fn(&TileMap, usize, usize) -> NavigationPath,
    >(&mut self, input: &FrameInput, fov: &V, search: &P) -> (effect: Effect)
        requires
            old(self).ecs.wf(),
            forall|m: &TileMap, p: Point, r: i32| m.wf() ==> fov.requires((m, p, r)),
            forall|m: &TileMap, a: usize, b: usize|
                m.wf() && a < MAP_COUNT && b < MAP_COUNT ==> search.requires((m, a, b)),
        ensures
            final(self).ecs.wf(),
            ticked(old(self)@, *input, *fov, *search, final(self)@, effect),
    {
        let mut run_state = self.ecs.run_state;
        cull_dead_particles(&mut self.ecs, input.frame_time_us);
        proof {
            lemma_cull_capacity(old(self)@.ecs, old(self)@.ecs.capacity(), input.frame_time_us);
        }
        match run_state {
            RunState::MainMenu { .. } => {},
            RunState::CharacterCreation => {},
            _ => {
                match delete_the_dead(&mut self.ecs) {
                    None => {},
                    Some(_) => {
                        run_state = RunState::Dead;
                    },
                }
            },
        }
        let ghost started = self@;
        let (next, effect) = self.advance(run_state, input, fov, search);
        let ghost mid = self@;
        self.ecs.run_state = next;
        proof {
            lemma_cull_keeps_phase(old(self)@.ecs, old(self)@.ecs.capacity(), input.frame_time_us);
            assert(started == (StateView {
                ecs: frame_start(old(self)@.ecs, input.frame_time_us),
                ..old(self)@
            }));
            assert(stepped(started, run_state, *input, *fov, *search, mid, next, effect));
        }
        effect
    }
}

/// Aging particles does not change the phase.
pub proof fn lemma_cull_keeps_phase(w: WorldView, n: int, elapsed: i64)
    ensures
        cull_upto(w, n, elapsed).run_state == w.run_state,
    decreases n,
{
    if n > 0 {
        lemma_cull_keeps_phase(w, n - 1, elapsed);
    }
}

} // verus!
