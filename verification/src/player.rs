//! What the player's commands do to the world.

use vstd::prelude::*;
use crate::components::{
    CombatStats, EntityMoved, HungerState, Position, ViewshedView, WantsToMelee, WantsToPickupItem,
};
use crate::map::{point_index, TileType};
use crate::rect::Point;
use crate::state::RunState;
use crate::world::{Entity, Fault, World, WorldView};
use crate::{sat, sat_add, MAP_COUNT};

verus! {

/// The keys that the game knows.
#[derive(Clone, Copy, PartialEq, Eq, Debug, Structural)]
pub enum Key {
    G,
    I,
    D,
    R,
    H,
    J,
    K,
    L,
    Y,
    U,
    B,
    N,
    Left,
    Right,
    Up,
    Down,
    Numpad1,
    Numpad2,
    Numpad3,
    Numpad4,
    Numpad5,
    Numpad6,
    Numpad7,
    Numpad8,
    Numpad9,
    Key1,
    Key2,
    Key3,
    Key4,
    Key5,
    Key6,
    Key7,
    Key8,
    Key9,
    Space,
    Period,
    Escape,
    Return,
    Other,
}

/// What a key asks the player's character to do.
#[derive(Clone, Copy, PartialEq, Eq, Debug, Structural)]
pub enum Command {
    Move { dx: i32, dy: i32 },
    PickUp,
    Inventory,
    DropMenu,
    RemoveMenu,
    Descend,
    SkipTurn,
    Save,
}

/// The command that `key` stands for, if any.
pub open spec fn command_of(key: Key) -> Option<Command> {
    match key {
        Key::G => Some(Command::PickUp),
        Key::I => Some(Command::Inventory),
        Key::D => Some(Command::DropMenu),
        Key::Escape => Some(Command::Save),
        Key::Period => Some(Command::Descend),
        Key::R => Some(Command::RemoveMenu),
        Key::Space | Key::Numpad5 => Some(Command::SkipTurn),
        Key::Left | Key::Numpad4 | Key::H => Some(Command::Move { dx: -1i32, dy: 0 }),
        Key::Right | Key::Numpad6 | Key::L => Some(Command::Move { dx: 1, dy: 0 }),
        Key::Up | Key::Numpad8 | Key::K => Some(Command::Move { dx: 0, dy: -1i32 }),
        Key::Down | Key::Numpad2 | Key::J => Some(Command::Move { dx: 0, dy: 1 }),
        Key::Numpad9 | Key::U => Some(Command::Move { dx: 1, dy: -1i32 }),
        Key::Numpad7 | Key::Y => Some(Command::Move { dx: -1i32, dy: -1i32 }),
        Key::Numpad3 | Key::N => Some(Command::Move { dx: 1, dy: 1 }),
        Key::Numpad1 | Key::B => Some(Command::Move { dx: -1i32, dy: 1 }),
        _ => None,
    }
}

/// Reads a key as a command.
pub fn decode(key: Key) -> (c: Option<Command>)
    ensures
        c == command_of(key),
{
    match key {
        Key::G => Some(Command::PickUp),
        Key::I => Some(Command::Inventory),
        Key::D => Some(Command::DropMenu),
        Key::Escape => Some(Command::Save),
        Key::Period => Some(Command::Descend),
        Key::R => Some(Command::RemoveMenu),
        Key::Space | Key::Numpad5 => Some(Command::SkipTurn),
        Key::Left | Key::Numpad4 | Key::H => Some(Command::Move { dx: -1, dy: 0 }),
        Key::Right | Key::Numpad6 | Key::L => Some(Command::Move { dx: 1, dy: 0 }),
        Key::Up | Key::Numpad8 | Key::K => Some(Command::Move { dx: 0, dy: -1 }),
        Key::Down | Key::Numpad2 | Key::J => Some(Command::Move { dx: 0, dy: 1 }),
        Key::Numpad9 | Key::U => Some(Command::Move { dx: 1, dy: -1 }),
        Key::Numpad7 | Key::Y => Some(Command::Move { dx: -1, dy: -1 }),
        Key::Numpad3 | Key::N => Some(Command::Move { dx: 1, dy: 1 }),
        Key::Numpad1 | Key::B => Some(Command::Move { dx: -1, dy: 1 }),
        _ => None,
    }
}

/// The first of the first `k` of `occupants` that has combat stats.
pub open spec fn first_fighter(w: WorldView, occupants: Seq<Entity>, k: int) -> Option<Entity>
    decreases k,
{
    if k <= 0 {
        None
    } else {
        match first_fighter(w, occupants, k - 1) {
            Some(e) => Some(e),
            None => if w.combat_stats.contains_key(occupants[k - 1].index as int) {
                Some(occupants[k - 1])
            } else {
                None
            },
        }
    }
}

/// Whether entity `i` is a player that can be moved: it has a position
/// and a viewshed.
pub open spec fn movable(w: WorldView, i: int) -> bool {
    w.players.contains_key(i) && w.positions.contains_key(i) && w.viewsheds.contains_key(i)
}

/// Where entity `i` wants to go.
pub open spec fn destination(w: WorldView, i: int, dx: i32, dy: i32) -> Point {
    Point { x: sat(w.positions[i].x + dx) as i32, y: sat(w.positions[i].y + dy) as i32 }
}

/// The world after the players with index from `i` on tried to move by
/// `(dx, dy)`, in the order of their indices. A player whose destination
/// holds someone with combat stats announces an attack on the first such
/// occupant instead, and then no further player moves. A player whose
/// destination is not blocked steps there: its viewshed is dirty, it is
/// marked as moved, and the world remembers where it stands. A
/// destination off the map is a fault.
pub open spec fn move_from(w: WorldView, i: int, dx: i32, dy: i32) -> WorldView
    decreases w.capacity() - i,
{
    if i < 0 || i >= w.capacity() || w.fault.is_some() {
        w
    } else if !movable(w, i) {
        move_from(w, i + 1, dx, dy)
    } else {
        match point_index(destination(w, i, dx, dy)) {
            None => w.fail(Fault::OutOfBounds),
            Some(idx) => match first_fighter(
                w,
                w.map.content[idx as int],
                w.map.content[idx as int].len() as int,
            ) {
                Some(target) => WorldView {
                    wants_melee: w.wants_melee.insert(i, WantsToMelee { target }),
                    ..w
                },
                None => if w.map.blocked[idx as int] {
                    move_from(w, i + 1, dx, dy)
                } else {
                    move_from(step_to(w, i, destination(w, i, dx, dy)), i + 1, dx, dy)
                },
            },
        }
    }
}

/// The world after player `i` stepped to `p`.
pub open spec fn step_to(w: WorldView, i: int, p: Point) -> WorldView {
    WorldView {
        positions: w.positions.insert(i, Position { x: p.x, y: p.y }),
        viewsheds: w.viewsheds.insert(i, ViewshedView { dirty: true, ..w.viewsheds[i] }),
        player_pos: p,
        entity_moved: w.entity_moved.insert(i, EntityMoved {  }),
        ..w
    }
}

/// Moves the player by `(delta_x, delta_y)`, or has it attack who stands
/// in the way.
pub fn try_move_player(delta_x: i32, delta_y: i32, world: &mut World)
    requires
        old(world).wf(),
    ensures
        final(world)@ == move_from(old(world)@, 0, delta_x, delta_y),
        final(world).wf(),
{
    let n: usize = world.capacity();
    let mut i: usize = 0;
    while i < n
        invariant
            i <= n,
            n == world@.capacity(),
            world.wf(),
            move_from(world@, i as int, delta_x, delta_y) == move_from(old(world)@, 0, delta_x, delta_y),
        decreases n - i,
    {
        if world.fault.is_some() {
            return ;
        }
        let e = Entity { index: i };
        let ghost prev = world@;
        let mut place: Option<Point> = None;
        if world.players.contains(e) && world.viewsheds.contains(e) {
            if let Some(pos) = world.positions.get(e) {
                place = Some(Point { x: sat_add(pos.x, delta_x), y: sat_add(pos.y, delta_y) });
            }
        }
        if let Some(to) = place {
            match world.map.checked_idx(to) {
                None => {
                    world.fail(Fault::OutOfBounds);
                    return ;
                },
                Some(idx) => {
                    let ghost occupants = world@.map.content[idx as int];
                    let count: usize = world.map.tile_content[idx].len();
                    let mut k: usize = 0;
                    while k < count
                        invariant
                            k <= count,
                            idx < MAP_COUNT,
                            world.wf(),
                            count == occupants.len(),
                            occupants == world@.map.content[idx as int],
                            first_fighter(world@, occupants, k as int).is_none(),
                            world@ == prev,
                            i < n,
                            n == prev.capacity(),
                            prev.fault.is_none(),
                            movable(prev, i as int),
                            e.index == i,
                            point_index(destination(prev, i as int, delta_x, delta_y)) == Some(idx),
                            move_from(prev, i as int, delta_x, delta_y) == move_from(
                                old(world)@,
                                0,
                                delta_x,
                                delta_y,
                            ),
                        decreases count - k,
                    {
                        let target = world.map.tile_content[idx][k];
                        if world.combat_stats.contains(target) {
                            assert(first_fighter(world@, occupants, k + 1) == Some(target));
                            proof {
                                lemma_first_fighter_stays(world@, occupants, k + 1, count as int);
                            }
                            world.wants_melee.insert(e, WantsToMelee { target });
                            return ;
                        }
                        k = k + 1;
                    }
                    if !world.map.blocked[idx] {
                        world.positions.insert(e, Position { x: to.x, y: to.y });
                        if let Some(viewshed) = world.viewsheds.get_mut(e) {
                            viewshed.dirty = true;
                        }
                        world.player_pos = to;
                        world.entity_moved.insert(e, EntityMoved {  });
                    }
                },
            }
        }
        i = i + 1;
    }
}

/// Once a fighter is found among the first `k` occupants, it is the first
/// fighter among any more of them.
pub proof fn lemma_first_fighter_stays(w: WorldView, occupants: Seq<Entity>, k: int, n: int)
    requires
        0 <= k <= n,
        first_fighter(w, occupants, k).is_some(),
    ensures
        first_fighter(w, occupants, n) == first_fighter(w, occupants, k),
    decreases n - k,
{
    if k < n {
        lemma_first_fighter_stays(w, occupants, k, n - 1);
    }
}

/// What the player is told when there are no stairs.
pub open spec fn no_stairs_line() -> Seq<char> {
    "There is no way down from here."@
}

/// Whether the player stands on stairs that lead down.
pub open spec fn on_stairs(w: WorldView) -> bool {
    point_index(w.player_pos).is_some() && w.map.tiles[point_index(w.player_pos).unwrap() as int]
        == TileType::DownStairs
}

/// Whether the player may go down: it stands on the stairs. If not, the
/// player is told so. A player off the map is a fault.
pub fn try_next_level(world: &mut World) -> (down: bool)
    requires
        old(world).wf(),
    ensures
        down == on_stairs(old(world)@),
        final(world)@ == if point_index(old(world)@.player_pos).is_none() {
            old(world)@.fail(Fault::OutOfBounds)
        } else if down {
            old(world)@
        } else {
            old(world)@.say(no_stairs_line())
        },
{
    match world.map.checked_idx(world.player_pos) {
        None => {
            world.fail(Fault::OutOfBounds);
            false
        },
        Some(idx) => {
            if world.map.tiles[idx] == TileType::DownStairs {
                true
            } else {
                world.log.say("There is no way down from here.");
                false
            }
        },
    }
}

/// Whether one of the first `k` of `occupants` is a monster.
pub open spec fn monster_among(w: WorldView, occupants: Seq<Entity>, k: int) -> bool {
    exists|j: int| 0 <= j < k && #[trigger] w.monsters.contains_key(occupants[j].index as int)
}

/// Whether a monster stands on one of the first `k` of `tiles`.
pub open spec fn monster_on(w: WorldView, tiles: Seq<Point>, k: int) -> bool {
    exists|t: int|
        0 <= t < k && point_index(tiles[t]).is_some() && #[trigger] monster_among(
            w,
            w.map.content[point_index(tiles[t]).unwrap() as int],
            w.map.content[point_index(tiles[t]).unwrap() as int].len() as int,
        )
}

/// Whether one of the first `k` of `tiles` lies off the map.
pub open spec fn stray_tile(tiles: Seq<Point>, k: int) -> bool {
    exists|t: int| 0 <= t < k && #[trigger] point_index(tiles[t]).is_none()
}

/// Whether hunger keeps the player from resting.
pub open spec fn too_hungry(w: WorldView) -> bool {
    w.hunger_clocks.contains_key(w.player.index as int) && (w.hunger_clocks[w.player.index as int].state
        == HungerState::Hungry || w.hunger_clocks[w.player.index as int].state
        == HungerState::Starving)
}

/// The world after the player skipped a turn: with no monster in sight
/// and the player neither hungry nor starving, the player regains one hit
/// point, up to the maximum. A player without a viewshed, a viewshed with
/// a tile off the map, and a resting player without combat stats are
/// faults.
pub open spec fn skipped(w: WorldView) -> WorldView {
    let p = w.player.index as int;
    if !w.viewsheds.contains_key(p) {
        w.fail(Fault::MissingComponent)
    } else {
        let tiles = w.viewsheds[p].visible_tiles;
        if stray_tile(tiles, tiles.len() as int) {
            w.fail(Fault::OutOfBounds)
        } else if monster_on(w, tiles, tiles.len() as int) || too_hungry(w) {
            w
        } else if !w.combat_stats.contains_key(p) {
            w.fail(Fault::MissingComponent)
        } else {
            let stats = w.combat_stats[p];
            WorldView {
                combat_stats: w.combat_stats.insert(
                    p,
                    CombatStats {
                        hp: if sat(stats.hp + 1) < stats.max_hp {
                            sat(stats.hp + 1) as i32
                        } else {
                            stats.max_hp
                        },
                        ..stats
                    },
                ),
                ..w
            }
        }
    }
}

fn monster_here(world: &World, idx: usize) -> (b: bool)
    requires
        world.wf(),
        idx < MAP_COUNT,
    ensures
        b == monster_among(
            world@,
            world@.map.content[idx as int],
            world@.map.content[idx as int].len() as int,
        ),
{
    let mut j: usize = 0;
    while j < world.map.tile_content[idx].len()
        invariant
            world.wf(),
            idx < MAP_COUNT,
            j <= world@.map.content[idx as int].len(),
            !monster_among(world@, world@.map.content[idx as int], j as int),
        decreases world@.map.content[idx as int].len() - j,
    {
        if world.monsters.contains(world.map.tile_content[idx][j]) {
            assert(world@.monsters.contains_key(world@.map.content[idx as int][j as int].index as int));
            return true;
        }
        j = j + 1;
    }
    false
}

/// The player rests for a turn. See [`skipped`].
pub fn skip_turn(world: &mut World) -> (next: RunState)
    requires
        old(world).wf(),
    ensures
        next == RunState::PlayerTurn,
        final(world)@ == skipped(old(world)@),
        final(world).wf(),
{
    let player = world.player;
    let mut can_heal = true;
    let mut stray = false;
    match world.viewsheds.get(player) {
        None => {
            world.fail(Fault::MissingComponent);
            return RunState::PlayerTurn;
        },
        Some(viewshed) => {
            let mut t: usize = 0;
            while t < viewshed.visible_tiles.len()
                invariant
                    world.wf(),
                    t <= viewshed.visible_tiles@.len(),
                    stray == stray_tile(viewshed.visible_tiles@, t as int),
                    can_heal == !monster_on(world@, viewshed.visible_tiles@, t as int),
                decreases viewshed.visible_tiles@.len() - t,
            {
                match world.map.checked_idx(viewshed.visible_tiles[t]) {
                    None => {
                        assert(point_index(viewshed.visible_tiles@[t as int]).is_none());
                        stray = true;
                    },
                    Some(idx) => {
                        if monster_here(world, idx) {
                            assert(monster_among(
                                world@,
                                world@.map.content[point_index(viewshed.visible_tiles@[t as int]).unwrap() as int],
                                world@.map.content[point_index(
                                    viewshed.visible_tiles@[t as int],
                                ).unwrap() as int].len() as int,
                            ));
                            can_heal = false;
                        }
                    },
                }
                t = t + 1;
            }
        },
    }
    if stray {
        world.fail(Fault::OutOfBounds);
        return RunState::PlayerTurn;
    }
    if let Some(clock) = world.hunger_clocks.get(player) {
        match clock.state {
            HungerState::Hungry => {
                can_heal = false;
            },
            HungerState::Starving => {
                can_heal = false;
            },
            _ => {},
        }
    }
    if can_heal {
        let mut found = false;
        if let Some(stats) = world.combat_stats.get_mut(player) {
            let raised: i32 = sat_add(stats.hp, 1);
            stats.hp = if raised < stats.max_hp {
                raised
            } else {
                stats.max_hp
            };
            found = true;
        }
        if !found {
            world.fail(Fault::MissingComponent);
        }
    }
    RunState::PlayerTurn
}

/// The item with the highest index below `n` that lies at `p`.
pub open spec fn item_at(w: WorldView, p: Point, n: int) -> Option<Entity>
    decreases n,
{
    if n <= 0 {
        None
    } else if w.items.contains_key(n - 1) && w.positions.contains_key(n - 1) && w.positions[n - 1].x
        == p.x && w.positions[n - 1].y == p.y {
        Some(Entity { index: (n - 1) as usize })
    } else {
        item_at(w, p, n - 1)
    }
}

/// What the player is told when nothing lies at its feet.
pub open spec fn nothing_here_line() -> Seq<char> {
    "There is nothing here to pick up."@
}

/// The world after the player reached for an item: it wants to pick up the
/// item at its feet, the one made last if there are several; with none
/// there it is told so. A player that does not exist is a fault.
pub open spec fn reached(w: WorldView) -> WorldView {
    match item_at(w, w.player_pos, w.capacity()) {
        None => w.say(nothing_here_line()),
        Some(item) => if !w.is_alive(w.player.index as int) {
            w.fail(Fault::DeadEntity)
        } else {
            WorldView {
                wants_pickup: w.wants_pickup.insert(
                    w.player.index as int,
                    WantsToPickupItem { collected_by: w.player, item },
                ),
                ..w
            }
        },
    }
}

/// The player reaches for what lies at its feet. See [`reached`].
pub fn get_item(world: &mut World)
    ensures
        final(world)@ == reached(old(world)@),
        final(world)@.map == old(world)@.map,
{
    let n: usize = world.capacity();
    let mut target_item: Option<Entity> = None;
    let mut i: usize = 0;
    while i < n
        invariant
            i <= n,
            n == world@.capacity(),
            world@ == old(world)@,
            target_item == item_at(world@, world@.player_pos, i as int),
        decreases n - i,
    {
        let e = Entity { index: i };
        if world.items.contains(e) {
            if let Some(position) = world.positions.get(e) {
                if position.x == world.player_pos.x && position.y == world.player_pos.y {
                    target_item = Some(e);
                }
            }
        }
        i = i + 1;
    }
    match target_item {
        None => {
            world.log.say("There is nothing here to pick up.");
        },
        Some(item) => {
            if !world.is_alive(world.player) {
                world.fail(Fault::DeadEntity);
            } else {
                let player = world.player;
                world.wants_pickup.insert(player, WantsToPickupItem { collected_by: player, item });
            }
        },
    }
}

/// The phase that follows a key press, given the phase that carrying out
/// its command led to.
pub open spec fn phase_after(key: Option<Key>, down: bool) -> RunState {
    match key {
        None => RunState::AwaitingInput,
        Some(k) => match command_of(k) {
            None => RunState::AwaitingInput,
            Some(Command::Inventory) => RunState::ShowInventory,
            Some(Command::DropMenu) => RunState::ShowDropItem,
            Some(Command::RemoveMenu) => RunState::ShowRemoveItem,
            Some(Command::Save) => RunState::SaveGame,
            Some(Command::Descend) => if down {
                RunState::NextLevel
            } else {
                RunState::PlayerTurn
            },
            Some(_) => RunState::PlayerTurn,
        },
    }
}

/// The world after the command of a key press was carried out.
pub open spec fn world_after(w: WorldView, key: Option<Key>) -> WorldView {
    match key {
        None => w,
        Some(k) => match command_of(k) {
            Some(Command::PickUp) => reached(w),
            Some(Command::SkipTurn) => skipped(w),
            Some(Command::Move { dx, dy }) => move_from(w, 0, dx, dy),
            Some(Command::Descend) => if point_index(w.player_pos).is_none() {
                w.fail(Fault::OutOfBounds)
            } else if on_stairs(w) {
                w
            } else {
                w.say(no_stairs_line())
            },
            _ => w,
        },
    }
}

/// Carries out the command of a key press and says which phase follows:
/// the player's turn after a move, a rest, a reach for an item or a
/// failed descent; the next level after a descent; the menu or the saving
/// that was asked for; and awaiting input again if no key or a key
/// without meaning was pressed.
pub fn player_input(world: &mut World, key: Option<Key>) -> (next: RunState)
    requires
        old(world).wf(),
    ensures
        next == phase_after(key, on_stairs(old(world)@)),
        final(world)@ == world_after(old(world)@, key),
        final(world).wf(),
{
    let command = match key {
        None => {
            return RunState::AwaitingInput;
        },
        Some(k) => decode(k),
    };
    match command {
        None => RunState::AwaitingInput,
        Some(Command::PickUp) => {
            get_item(world);
            RunState::PlayerTurn
        },
        Some(Command::Inventory) => RunState::ShowInventory,
        Some(Command::DropMenu) => RunState::ShowDropItem,
        Some(Command::RemoveMenu) => RunState::ShowRemoveItem,
        Some(Command::Save) => RunState::SaveGame,
        Some(Command::Descend) => {
            if try_next_level(world) {
                RunState::NextLevel
            } else {
                RunState::PlayerTurn
            }
        },
        Some(Command::SkipTurn) => skip_turn(world),
        Some(Command::Move { dx, dy }) => {
            try_move_player(dx, dy, world);
            RunState::PlayerTurn
        },
    }
}

} // verus!
