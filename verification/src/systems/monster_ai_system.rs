//! What the monsters do on their turn: attack the player when next to
//! it, walk towards it when they see it.

use vstd::prelude::*;
use crate::components::{
    cp437, glyph, Monster, Position, ViewshedView, WantsToMelee, BLACK, GREY, YELLOW,
};
use crate::map::{index_point, point_index, MapView, TileMap};
use crate::rect::{contains_point, Point};
use crate::state::RunState;
use crate::systems::particle_system::ParticleRequest;
use crate::world::{Entity, Fault, World, WorldView};
use crate::{sat, sat_sub, MAP_COUNT};

verus! {

/// Microseconds for which the marker over a monster's head is shown.
pub const ALERT_MARKER_LIFETIME: i64 = 400000;

/// The answer to a search for a path: whether one was found, and its
/// tiles from the start to the goal, both included.
#[derive(Clone, Debug)]
pub struct NavigationPath {
    pub success: bool,
    pub steps: Vec<usize>,
}

/// The mathematical content of a [`NavigationPath`].
pub struct PathView {
    pub success: bool,
    pub steps: Seq<usize>,
}

impl View for NavigationPath {
    type V = PathView;

    open spec fn view(&self) -> PathView {
        PathView { success: self.success, steps: self.steps@ }
    }
}

/// The marker over a monster that has just noticed the player.
pub open spec fn alert_marker(x: i32, y: i32) -> ParticleRequest {
    ParticleRequest {
        x,
        y: sat(y - 1) as i32,
        fg: YELLOW,
        bg: BLACK,
        glyph: cp437('!'),
        lifetime: ALERT_MARKER_LIFETIME,
    }
}

/// The marker over a monster that has just lost the player.
pub open spec fn lost_marker(x: i32, y: i32) -> ParticleRequest {
    ParticleRequest {
        x,
        y: sat(y - 1) as i32,
        fg: GREY,
        bg: BLACK,
        glyph: cp437('?'),
        lifetime: ALERT_MARKER_LIFETIME,
    }
}

/// The world after monster `i` at `(x, y)` turned to the player: if it was
/// not targeting the player it is now, and a marker is asked for above
/// it.
pub open spec fn gain_target(w: WorldView, i: int, x: i32, y: i32) -> WorldView {
    if w.monsters[i].is_targeting_player {
        w
    } else {
        WorldView {
            monsters: w.monsters.insert(i, Monster { is_targeting_player: true }),
            ..w.request(alert_marker(x, y))
        }
    }
}

/// The world after monster `i` at `(x, y)` gave the player up: if it was
/// targeting the player it no longer is, and a marker is asked for above
/// it.
pub open spec fn lose_target(w: WorldView, i: int, x: i32, y: i32) -> WorldView {
    if !w.monsters[i].is_targeting_player {
        w
    } else {
        WorldView {
            monsters: w.monsters.insert(i, Monster { is_targeting_player: false }),
            ..w.request(lost_marker(x, y))
        }
    }
}

/// Whether entity `i` is a monster that can act: it has a viewshed and a
/// position, the player is visible, and it is not confused.
pub open spec fn can_act(w: WorldView, i: int) -> bool {
    w.fault.is_none() && w.viewsheds.contains_key(i) && w.monsters.contains_key(i)
        && w.positions.contains_key(i) && !w.invisible.contains_key(w.player.index as int)
        && !w.confusion.contains_key(i)
}

/// Where monster `i` stands.
pub open spec fn stand(w: WorldView, i: int) -> Point {
    Point { x: w.positions[i].x, y: w.positions[i].y }
}

/// Whether monster `i` is next to the player: less than one and a half
/// tiles away.
pub open spec fn adjacent(w: WorldView, i: int) -> bool {
    stand(w, i).dist2(w.player_pos) <= 2
}

/// Whether monster `i` walks: it can act, is not next to the player, and
/// sees the tile of the player.
pub open spec fn walks(w: WorldView, i: int) -> bool {
    can_act(w, i) && !adjacent(w, i) && w.viewsheds[i].visible_tiles.contains(w.player_pos)
}

/// The search that monster `i` asks for: from its tile to the player's,
/// if it walks and both are on the map.
pub open spec fn path_query(w: WorldView, i: int) -> Option<(usize, usize)> {
    if walks(w, i) && point_index(stand(w, i)).is_some() && point_index(w.player_pos).is_some() {
        Some((point_index(stand(w, i)).unwrap(), point_index(w.player_pos).unwrap()))
    } else {
        None
    }
}

/// The map on which monster `i` searches: its own tile does not block.
pub open spec fn search_map(w: WorldView, i: int) -> MapView {
    MapView {
        blocked: w.map.blocked.update(point_index(stand(w, i)).unwrap() as int, false),
        ..w.map
    }
}

/// The world after monster `i` walked from tile `from` to tile `to`: it
/// stands on `to`, `from` is no longer blocked, `to` is, and its viewshed
/// is dirty.
pub open spec fn walk(w: WorldView, i: int, from: usize, to: usize) -> WorldView {
    WorldView {
        positions: w.positions.insert(
            i,
            Position { x: index_point(to as int).x, y: index_point(to as int).y },
        ),
        map: MapView { blocked: w.map.blocked.update(from as int, false).update(to as int, true), ..w.map },
        viewsheds: w.viewsheds.insert(i, ViewshedView { dirty: true, ..w.viewsheds[i] }),
        ..w
    }
}

/// The world after entity `i` acted, where `path` is the answer to the
/// search that it asked for, if any. A monster that cannot act because the
/// player is invisible gives the player up. One next to the player
/// announces an attack. One that sees the player walks to the second tile
/// of a path that was found and has one, and turns to the player. Any
/// other gives the player up. Walking from or to a tile off the map is a
/// fault.
pub open spec fn ai_step(w: WorldView, i: int, path: PathView) -> WorldView {
    if w.fault.is_some() || !w.viewsheds.contains_key(i) || !w.monsters.contains_key(i)
        || !w.positions.contains_key(i) {
        w
    } else if w.invisible.contains_key(w.player.index as int) {
        lose_target(w, i, w.positions[i].x, w.positions[i].y)
    } else if w.confusion.contains_key(i) {
        w
    } else if adjacent(w, i) {
        gain_target(
            WorldView { wants_melee: w.wants_melee.insert(i, WantsToMelee { target: w.player }), ..w },
            i,
            w.positions[i].x,
            w.positions[i].y,
        )
    } else if !w.viewsheds[i].visible_tiles.contains(w.player_pos) {
        lose_target(w, i, w.positions[i].x, w.positions[i].y)
    } else {
        match path_query(w, i) {
            None => w.fail(Fault::OutOfBounds),
            Some((from, to)) => if path.success && path.steps.len() > 1 {
                if path.steps[1] >= MAP_COUNT {
                    w.fail(Fault::OutOfBounds)
                } else {
                    gain_target(
                        walk(w, i, from, path.steps[1]),
                        i,
                        index_point(path.steps[1] as int).x,
                        index_point(path.steps[1] as int).y,
                    )
                }
            } else {
                gain_target(w, i, w.positions[i].x, w.positions[i].y)
            },
        }
    }
}

/// A monster that walks to another tile leaves the tile it stood on
/// unblocked and blocks the tile it stands on.
pub proof fn lemma_walk_frees_and_blocks(w: WorldView, i: int, path: PathView)
    requires
        w.wf(),
        path_query(w, i).is_some(),
        path.success,
        path.steps.len() > 1,
        path.steps[1] < MAP_COUNT,
    ensures
        ({
            let from = path_query(w, i).unwrap().0;
            let after = ai_step(w, i, path);
            &&& after.fault.is_none()
            &&& after.map.blocked[path.steps[1] as int]
            &&& point_index(stand(after, i)) == Some(path.steps[1])
            &&& from != path.steps[1] ==> !after.map.blocked[from as int]
        }),
{
    let to = path.steps[1];
    assert(index_point(to as int).x == to % 80 && index_point(to as int).y == to / 80);
}

fn try_target_player(world: &mut World, e: Entity, x: i32, y: i32)
    requires
        old(world)@.monsters.contains_key(e.index as int),
    ensures
        final(world)@ == gain_target(old(world)@, e.index as int, x, y),
{
    let mut noticed = false;
    if let Some(monster) = world.monsters.get_mut(e) {
        if !monster.is_targeting_player {
            monster.is_targeting_player = true;
            noticed = true;
        }
    }
    if noticed {
        world.particles.request(x, sat_sub(y, 1), YELLOW, BLACK, glyph('!'), ALERT_MARKER_LIFETIME);
    } else {
        assert(world@.monsters =~= old(world)@.monsters);
    }
}

fn stop_target_player(world: &mut World, e: Entity, x: i32, y: i32)
    requires
        old(world)@.monsters.contains_key(e.index as int),
    ensures
        final(world)@ == lose_target(old(world)@, e.index as int, x, y),
{
    let mut lost = false;
    if let Some(monster) = world.monsters.get_mut(e) {
        if monster.is_targeting_player {
            monster.is_targeting_player = false;
            lost = true;
        }
    }
    if lost {
        world.particles.request(x, sat_sub(y, 1), GREY, BLACK, glyph('?'), ALERT_MARKER_LIFETIME);
    } else {
        assert(world@.monsters =~= old(world)@.monsters);
    }
}

/// The search that monster `e` asks for, if any.
pub fn query(world: &World, e: Entity) -> (q: Option<(usize, usize)>)
    ensures
        q == path_query(world@, e.index as int),
{
    if world.fault.is_some() || !world.monsters.contains(e) || world.invisible.contains(world.player)
        || world.confusion.contains(e) {
        return None;
    }
    let pos = match world.positions.get(e) {
        Some(p) => Point { x: p.x, y: p.y },
        None => {
            return None;
        },
    };
    let viewshed = match world.viewsheds.get(e) {
        Some(v) => v,
        None => {
            return None;
        },
    };
    if pos.distance_squared(&world.player_pos) <= 2 {
        return None;
    }
    if !contains_point(&viewshed.visible_tiles, world.player_pos) {
        return None;
    }
    match world.map.checked_idx(pos) {
        None => None,
        Some(from) => match world.map.checked_idx(world.player_pos) {
            None => None,
            Some(to) => Some((from, to)),
        },
    }
}

/// Entity `e` acts, `path` being the answer to the search that it asked
/// for, if any.
pub fn monster_act(world: &mut World, e: Entity, path: &NavigationPath)
    requires
        old(world).wf(),
    ensures
        final(world)@ == ai_step(old(world)@, e.index as int, path@),
        final(world).wf(),
{
    if world.fault.is_some() || !world.monsters.contains(e) {
        return ;
    }
    let pos = match world.positions.get(e) {
        Some(p) => Point { x: p.x, y: p.y },
        None => {
            return ;
        },
    };
    let sees_player = match world.viewsheds.get(e) {
        Some(v) => contains_point(&v.visible_tiles, world.player_pos),
        None => {
            return ;
        },
    };
    if world.invisible.contains(world.player) {
        stop_target_player(world, e, pos.x, pos.y);
        return ;
    }
    if world.confusion.contains(e) {
        return ;
    }
    if pos.distance_squared(&world.player_pos) <= 2 {
        world.wants_melee.insert(e, WantsToMelee { target: world.player });
        try_target_player(world, e, pos.x, pos.y);
        return ;
    }
    if !sees_player {
        stop_target_player(world, e, pos.x, pos.y);
        return ;
    }
    let from = match query(world, e) {
        Some(q) => q.0,
        None => {
            world.fail(Fault::OutOfBounds);
            return ;
        },
    };
    if path.success && path.steps.len() > 1 {
        let to: usize = path.steps[1];
        if to >= 3440 {
            world.fail(Fault::OutOfBounds);
            return ;
        }
        let there = world.map.idx_point(to);
        world.map.blocked[from] = false;
        world.positions.insert(e, Position { x: there.x, y: there.y });
        world.map.blocked[to] = true;
        if let Some(viewshed) = world.viewsheds.get_mut(e) {
            viewshed.dirty = true;
        }
        try_target_player(world, e, there.x, there.y);
    } else {
        try_target_player(world, e, pos.x, pos.y);
    }
}

/// The world after the entities with index below `n` acted, in the order
/// of their indices, where `paths[i]` is the answer to the search of
/// entity `i`.
pub open spec fn ai_upto(w: WorldView, paths: Seq<PathView>, n: int) -> WorldView
    decreases n,
{
    if n <= 0 {
        w
    } else {
        ai_step(ai_upto(w, paths, n - 1), n - 1, paths[n - 1])
    }
}

proof fn lemma_ai_prefix(w: WorldView, a: Seq<PathView>, b: Seq<PathView>, n: int)
    requires
        forall|k: int| 0 <= k < n ==> a[k] == b[k],
    ensures
        ai_upto(w, a, n) == ai_upto(w, b, n),
    decreases n,
{
    if n > 0 {
        lemma_ai_prefix(w, a, b, n - 1);
    }
}

/// Whether `path` is an answer that `search` may give when asked for a
/// path from `from` to `to` on a map with content `map`.
pub open spec fn path_answered<F: Fn(&TileMap, usize, usize) -> NavigationPath>(
    search: F,
    map: MapView,
    from: usize,
    to: usize,
    path: PathView,
) -> bool {
    exists|m: TileMap, r: NavigationPath|
        m@ == map && r@ == path && call_ensures(search, (&m, from, to), r)
}

/// Whether every path in `paths` that a monster needed is an answer of
/// `search` to the question that the monster asked.
pub open spec fn paths_answered<F: Fn(&TileMap, usize, usize) -> NavigationPath>(
    search: F,
    w: WorldView,
    paths: Seq<PathView>,
    n: int,
) -> bool {
    forall|i: int|
        0 <= i < n && path_query(#[trigger] ai_upto(w, paths, i), i).is_some() ==> path_answered(
            search,
            search_map(ai_upto(w, paths, i), i),
            path_query(ai_upto(w, paths, i), i).unwrap().0,
            path_query(ai_upto(w, paths, i), i).unwrap().1,
            paths[i],
        )
}

/// Moves the monsters.
pub struct MonsterAI {}

impl MonsterAI {
    /// Runs the system, which acts only during the monsters' turn.
    /// `search` is asked for a path from each walking monster to the
    /// player, on the map with the monster's own tile unblocked. The
    /// result is that of [`ai_upto`] for the paths that `search` answered.
    pub fn run<F: Fn(&TileMap, usize, usize) -> NavigationPath>(&mut self, world: &mut World, search: F)
        requires
            old(world).wf(),
            forall|m: &TileMap, a: usize, b: usize|
                m.wf() && a < MAP_COUNT && b < MAP_COUNT ==> search.requires((m, a, b)),
        ensures
            final(world).wf(),
            old(world)@.run_state != RunState::MonsterTurn ==> final(world)@ == old(world)@,
            old(world)@.run_state == RunState::MonsterTurn ==> exists|paths: Seq<PathView>|
                paths.len() == old(world)@.capacity() && #[trigger] ai_upto(
                    old(world)@,
                    paths,
                    old(world)@.capacity(),
                ) == final(world)@ && paths_answered(search, old(world)@, paths, old(world)@.capacity()),
    {
        match world.run_state {
            RunState::MonsterTurn => {},
            _ => {
                return ;
            },
        }
        let n: usize = world.capacity();
        let ghost mut paths: Seq<PathView> = Seq::empty();
        let mut i: usize = 0;
        while i < n
            invariant
                i <= n,
                n == old(world)@.capacity(),
                world.wf(),
                paths.len() == i,
                world@ == ai_upto(old(world)@, paths, i as int),
                paths_answered(search, old(world)@, paths, i as int),
                forall|m: &TileMap, a: usize, b: usize|
                    m.wf() && a < MAP_COUNT && b < MAP_COUNT ==> search.requires((m, a, b)),
            decreases n - i,
        {
            let e = Entity { index: i };
            let ghost before = paths;
            let ghost prev = world@;
            let mut path = NavigationPath { success: false, steps: Vec::new() };
            if let Some((from, to)) = query(world, e) {
                let was = world.map.blocked[from];
                world.map.blocked[from] = false;
                assert(world@.map =~= search_map(prev, i as int));
                path = search(&world.map, from, to);
                assert(path_answered(search, search_map(prev, i as int), from, to, path@));
                world.map.blocked[from] = was;
                assert(world@.map.blocked =~= prev.map.blocked);
            }
            monster_act(world, e, &path);
            proof {
                paths = before.push(path@);
                lemma_ai_prefix(old(world)@, before, paths, i as int);
                assert forall|k: int|
                    0 <= k < i + 1 && path_query(
                        #[trigger] ai_upto(old(world)@, paths, k),
                        k,
                    ).is_some() implies path_answered(
                    search,
                    search_map(ai_upto(old(world)@, paths, k), k),
                    path_query(ai_upto(old(world)@, paths, k), k).unwrap().0,
                    path_query(ai_upto(old(world)@, paths, k), k).unwrap().1,
                    paths[k],
                ) by {
                    lemma_ai_prefix(old(world)@, before, paths, k);
                    if k < i {
                        assert(path_query(ai_upto(old(world)@, before, k), k).is_some());
                        assert(paths[k] == before[k]);
                    }
                }
            }
            i = i + 1;
        }
        assert(ai_upto(old(world)@, paths, old(world)@.capacity()) == world@);
    }
}

} // verus!
