//! What each entity sees, and what the player's sight does to the map.

use vstd::prelude::*;
use crate::components::ViewshedView;
use crate::dice::roll_dice;
use crate::game_log::{push_string, push_text};
use crate::systems::item_use_system::answered;
use crate::map::{in_bounds, index_of, MapView, TileMap};
use crate::rect::Point;
use crate::world::{Entity, World, WorldView};
use crate::{MAP_COUNT, MAP_HEIGHT, MAP_WIDTH};

verus! {

/// One chance in this many to spot a hidden entity on a visible tile.
pub const SPOT_CHANCE: i32 = 24;

/// What the player is told on spotting the thing called `name`.
pub open spec fn spotted_line(name: Seq<char>) -> Seq<char> {
    "You spotted a "@ + name + "."@
}

/// Whether the viewer tries to spot `hidden`: it is another entity, and
/// invisible.
pub open spec fn tries_to_spot(w: WorldView, viewer: int, hidden: Entity) -> bool {
    hidden.index != viewer && w.invisible.contains_key(hidden.index as int)
}

/// The world after the viewer looked at `hidden` with the die showing
/// `roll`: a hidden entity is spotted on a 1, which ends its invisibility
/// and is logged under its name, if it has one.
pub open spec fn spot(w: WorldView, viewer: int, hidden: Entity, roll: i32) -> WorldView {
    if tries_to_spot(w, viewer, hidden) && roll == 1 {
        let told = if w.names.contains_key(hidden.index as int) {
            w.say(spotted_line(w.names[hidden.index as int]))
        } else {
            w
        };
        WorldView { invisible: w.invisible.remove(hidden.index as int), ..told }
    } else {
        w
    }
}

/// The world after the viewer looked at the first `j` of `occupants`, with
/// `rolls[n]` the die for the occupant `n`.
pub open spec fn search_upto(
    w: WorldView,
    viewer: int,
    occupants: Seq<Entity>,
    rolls: Seq<i32>,
    j: int,
) -> WorldView
    decreases j,
{
    if j <= 0 {
        w
    } else {
        spot(search_upto(w, viewer, occupants, rolls, j - 1), viewer, occupants[j - 1], rolls[j - 1])
    }
}

/// The world after the player saw the tile at `p`: the tile is revealed
/// and visible, and its occupants are looked at.
pub open spec fn reveal_step(w: WorldView, viewer: int, p: Point, rolls: Seq<i32>) -> WorldView {
    let idx = index_of(p.x as int, p.y as int);
    let lit = WorldView {
        map: MapView {
            revealed: w.map.revealed.update(idx, true),
            visible: w.map.visible.update(idx, true),
            ..w.map
        },
        ..w
    };
    search_upto(lit, viewer, w.map.content[idx], rolls, w.map.content[idx].len() as int)
}

/// The world after the player saw the first `k` of `tiles`, with
/// `rolls[n]` the dice for the occupants of tile `n`.
pub open spec fn reveal_upto(
    w: WorldView,
    viewer: int,
    tiles: Seq<Point>,
    rolls: Seq<Seq<i32>>,
    k: int,
) -> WorldView
    decreases k,
{
    if k <= 0 {
        w
    } else {
        reveal_step(reveal_upto(w, viewer, tiles, rolls, k - 1), viewer, tiles[k - 1], rolls[k - 1])
    }
}

/// Those of the first `k` of `tiles` that lie on the map, in their order.
pub open spec fn clip(tiles: Seq<Point>, k: int) -> Seq<Point>
    decreases k,
{
    if k <= 0 {
        Seq::empty()
    } else if in_bounds(tiles[k - 1].x as int, tiles[k - 1].y as int) {
        clip(tiles, k - 1).push(tiles[k - 1])
    } else {
        clip(tiles, k - 1)
    }
}

/// The grid on which no tile is visible.
pub open spec fn all_dark() -> Seq<bool> {
    Seq::new(MAP_COUNT as nat, |i: int| false)
}

/// Whether entity `i` looks around: it has a position and a viewshed that
/// is dirty.
pub open spec fn looks(w: WorldView, i: int) -> bool {
    w.fault.is_none() && w.viewsheds.contains_key(i) && w.positions.contains_key(i)
        && w.viewsheds[i].dirty
}

/// The world after entity `i` looked around, where `answer` are the tiles
/// in its field of view and `rolls` the dice for what hides there. Its
/// viewshed holds the tiles of `answer` that lie on the map. If it is a
/// player, the visible tiles of the map are exactly these, they are
/// revealed, and what hides on them may be spotted.
pub open spec fn see_step(w: WorldView, i: int, answer: Seq<Point>, rolls: Seq<Seq<i32>>) -> WorldView {
    if !looks(w, i) {
        w
    } else {
        let seen = clip(answer, answer.len() as int);
        let noted = WorldView {
            viewsheds: w.viewsheds.insert(
                i,
                ViewshedView { visible_tiles: seen, range: w.viewsheds[i].range, dirty: true },
            ),
            ..w
        };
        if !w.players.contains_key(i) {
            noted
        } else {
            reveal_upto(
                WorldView { map: MapView { visible: all_dark(), ..w.map }, ..noted },
                i,
                seen,
                rolls,
                seen.len() as int,
            )
        }
    }
}

/// Whether every die in `rolls` shows 1 to 24.
pub open spec fn fair(rolls: Seq<Seq<i32>>) -> bool {
    forall|k: int, j: int|
        0 <= k < rolls.len() && 0 <= j < rolls[k].len() ==> 1 <= #[trigger] rolls[k][j] <= SPOT_CHANCE
}

proof fn lemma_search_prefix(w: WorldView, viewer: int, occupants: Seq<Entity>, a: Seq<i32>, b: Seq<i32>, j: int)
    requires
        forall|n: int| 0 <= n < j ==> a[n] == b[n],
    ensures
        search_upto(w, viewer, occupants, a, j) == search_upto(w, viewer, occupants, b, j),
    decreases j,
{
    if j > 0 {
        lemma_search_prefix(w, viewer, occupants, a, b, j - 1);
    }
}

proof fn lemma_reveal_prefix(w: WorldView, viewer: int, tiles: Seq<Point>, a: Seq<Seq<i32>>, b: Seq<Seq<i32>>, k: int)
    requires
        forall|n: int| 0 <= n < k ==> a[n] == b[n],
    ensures
        reveal_upto(w, viewer, tiles, a, k) == reveal_upto(w, viewer, tiles, b, k),
    decreases k,
{
    if k > 0 {
        lemma_reveal_prefix(w, viewer, tiles, a, b, k - 1);
    }
}

/// Clipping keeps only tiles on the map.
pub proof fn lemma_clip_in_bounds(tiles: Seq<Point>, k: int)
    ensures
        forall|n: int|
            0 <= n < clip(tiles, k).len() ==> in_bounds(
                (#[trigger] clip(tiles, k)[n]).x as int,
                clip(tiles, k)[n].y as int,
            ),
    decreases k,
{
    if k > 0 {
        lemma_clip_in_bounds(tiles, k - 1);
        assert forall|n: int| 0 <= n < clip(tiles, k).len() implies in_bounds(
            (#[trigger] clip(tiles, k)[n]).x as int,
            clip(tiles, k)[n].y as int,
        ) by {
            if n < clip(tiles, k - 1).len() {
                assert(clip(tiles, k)[n] == clip(tiles, k - 1)[n]);
            }
        }
    }
}

/// The viewer looks at `hidden` with the die showing `roll`.
pub fn spot_hidden(world: &mut World, viewer: Entity, hidden: Entity, roll: i32)
    ensures
        final(world)@ == spot(old(world)@, viewer.index as int, hidden, roll),
{
    if hidden.index != viewer.index && world.invisible.contains(hidden) && roll == 1 {
        if let Some(name) = world.names.get(hidden) {
            let mut line = String::from_str("You spotted a ");
            push_string(&mut line, &name.name);
            push_text(&mut line, ".");
            world.log.push(line);
        }
        world.invisible.remove(hidden);
    }
}

fn clip_tiles(tiles: &Vec<Point>) -> (seen: Vec<Point>)
    ensures
        seen@ == clip(tiles@, tiles@.len() as int),
{
    let mut seen: Vec<Point> = Vec::new();
    let mut k: usize = 0;
    while k < tiles.len()
        invariant
            k <= tiles@.len(),
            seen@ == clip(tiles@, k as int),
        decreases tiles@.len() - k,
    {
        let p = tiles[k];
        if p.x >= 0 && p.x < MAP_WIDTH && p.y >= 0 && p.y < MAP_HEIGHT {
            seen.push(p);
        }
        k = k + 1;
    }
    seen
}

fn copy_points(v: &Vec<Point>) -> (r: Vec<Point>)
    ensures
        r@ == v@,
{
    let mut r: Vec<Point> = Vec::new();
    let mut k: usize = 0;
    while k < v.len()
        invariant
            k <= v@.len(),
            r@ == v@.take(k as int),
        decreases v@.len() - k,
    {
        r.push(v[k]);
        assert(r@ =~= v@.take(k + 1));
        k = k + 1;
    }
    assert(v@.take(k as int) =~= v@);
    r
}

fn darken(map: &mut TileMap)
    requires
        old(map).wf(),
    ensures
        final(map)@ == (MapView { visible: all_dark(), ..old(map)@ }),
{
    let mut i: usize = 0;
    while i < map.visible_tiles.len()
        invariant
            map.wf(),
            0 <= i <= MAP_COUNT,
            map@ == (MapView { visible: map@.visible, ..old(map)@ }),
            forall|j: int| 0 <= j < i ==> !map@.visible[j],
        decreases MAP_COUNT - i,
    {
        map.visible_tiles[i] = false;
        i = i + 1;
    }
    assert(map@.visible =~= all_dark());
}

fn reveal_tile(world: &mut World, viewer: Entity, p: Point) -> (rolls: Ghost<Seq<i32>>)
    requires
        old(world).wf(),
        in_bounds(p.x as int, p.y as int),
    ensures
        final(world).wf(),
        final(world)@ == reveal_step(old(world)@, viewer.index as int, p, rolls@),
        rolls@.len() == old(world)@.map.content[index_of(p.x as int, p.y as int)].len(),
        forall|j: int| 0 <= j < rolls@.len() ==> 1 <= #[trigger] rolls@[j] <= SPOT_CHANCE,
{
    let idx = world.map.xy_idx(p.x, p.y);
    world.map.revealed_tiles[idx] = true;
    world.map.visible_tiles[idx] = true;
    let ghost lit = world@;
    let ghost occupants = world@.map.content[idx as int];
    let ghost mut rolls: Seq<i32> = Seq::empty();
    let n: usize = world.map.tile_content[idx].len();
    let mut j: usize = 0;
    while j < n
        invariant
            j <= n,
            idx < MAP_COUNT,
            world.wf(),
            n == occupants.len(),
            occupants == world@.map.content[idx as int],
            rolls.len() == j,
            forall|m: int| 0 <= m < rolls.len() ==> 1 <= #[trigger] rolls[m] <= SPOT_CHANCE,
            world@ == search_upto(lit, viewer.index as int, occupants, rolls, j as int),
        decreases n - j,
    {
        let other = world.map.tile_content[idx][j];
        let ghost before = rolls;
        let mut roll: i32 = SPOT_CHANCE;
        if other.index != viewer.index && world.invisible.contains(other) {
            roll = roll_dice(&mut world.rng, 1, SPOT_CHANCE);
        }
        spot_hidden(world, viewer, other, roll);
        proof {
            rolls = before.push(roll);
            lemma_search_prefix(lit, viewer.index as int, occupants, before, rolls, j as int);
        }
        j = j + 1;
    }
    Ghost(rolls)
}

/// Entity `viewer` looks around, `answer` being the tiles in its field of
/// view. The result is that of [`see_step`] for the dice that were
/// thrown.
pub fn look(world: &mut World, viewer: Entity, answer: &Vec<Point>)
    requires
        old(world).wf(),
    ensures
        final(world).wf(),
        exists|rolls: Seq<Seq<i32>>|
            fair(rolls) && #[trigger] see_step(old(world)@, viewer.index as int, answer@, rolls)
                == final(world)@,
{
    let Ghost(rolls) = look_rolled(world, viewer, answer);
    assert(see_step(old(world)@, viewer.index as int, answer@, rolls) == world@);
}

fn look_rolled(world: &mut World, viewer: Entity, answer: &Vec<Point>) -> (rolls: Ghost<Seq<Seq<i32>>>)
    requires
        old(world).wf(),
    ensures
        final(world).wf(),
        final(world)@ == see_step(old(world)@, viewer.index as int, answer@, rolls@),
        fair(rolls@),
{
    if world.fault.is_some() || !world.positions.contains(viewer) {
        return Ghost(Seq::empty());
    }
    let seen = clip_tiles(answer);
    let mut noted = false;
    if let Some(viewshed) = world.viewsheds.get_mut(viewer) {
        if viewshed.dirty {
            viewshed.dirty = true;
            viewshed.visible_tiles = copy_points(&seen);
            noted = true;
        }
    }
    if !noted {
        assert(world@.viewsheds =~= old(world)@.viewsheds);
        return Ghost(Seq::empty());
    }
    if !world.players.contains(viewer) {
        return Ghost(Seq::empty());
    }
    darken(&mut world.map);
    let ghost dark = world@;
    let ghost mut rolls: Seq<Seq<i32>> = Seq::empty();
    proof {
        lemma_clip_in_bounds(answer@, answer@.len() as int);
    }
    let mut k: usize = 0;
    while k < seen.len()
        invariant
            k <= seen@.len(),
            world.wf(),
            rolls.len() == k,
            fair(rolls),
            forall|n: int|
                0 <= n < seen@.len() ==> in_bounds((#[trigger] seen@[n]).x as int, seen@[n].y as int),
            world@ == reveal_upto(dark, viewer.index as int, seen@, rolls, k as int),
        decreases seen@.len() - k,
    {
        let ghost before = rolls;
        let row = reveal_tile(world, viewer, seen[k]);
        proof {
            rolls = before.push(row@);
            lemma_reveal_prefix(dark, viewer.index as int, seen@, before, rolls, k as int);
        }
        k = k + 1;
    }
    Ghost(rolls)
}

/// The world after the entities with index below `n` looked around, in the
/// order of their indices, where `views[i]` is the field of view of
/// entity `i` and `rolls[i]` are its dice.
pub open spec fn see_upto(
    w: WorldView,
    views: Seq<Seq<Point>>,
    rolls: Seq<Seq<Seq<i32>>>,
    n: int,
) -> WorldView
    decreases n,
{
    if n <= 0 {
        w
    } else {
        see_step(see_upto(w, views, rolls, n - 1), n - 1, views[n - 1], rolls[n - 1])
    }
}

proof fn lemma_see_prefix(
    w: WorldView,
    v1: Seq<Seq<Point>>,
    r1: Seq<Seq<Seq<i32>>>,
    v2: Seq<Seq<Point>>,
    r2: Seq<Seq<Seq<i32>>>,
    n: int,
)
    requires
        forall|k: int| 0 <= k < n ==> v1[k] == v2[k] && r1[k] == r2[k],
    ensures
        see_upto(w, v1, r1, n) == see_upto(w, v2, r2, n),
    decreases n,
{
    if n > 0 {
        lemma_see_prefix(w, v1, r1, v2, r2, n - 1);
    }
}

/// Whether every field of view in `views` that an entity needed is an
/// answer of `fov` to the question that the entity asked: the tiles
/// within its range of where it stands.
pub open spec fn views_answered<F: Fn(&TileMap, Point, i32) -> Vec<Point>>(
    fov: F,
    w: WorldView,
    views: Seq<Seq<Point>>,
    rolls: Seq<Seq<Seq<i32>>>,
    n: int,
) -> bool {
    forall|i: int|
        0 <= i < n && looks(#[trigger] see_upto(w, views, rolls, i), i) ==> answered(
            fov,
            see_upto(w, views, rolls, i).map,
            Point {
                x: see_upto(w, views, rolls, i).positions[i].x,
                y: see_upto(w, views, rolls, i).positions[i].y,
            },
            see_upto(w, views, rolls, i).viewsheds[i].range,
            views[i],
        )
}

/// Whether all dice of all entities show 1 to 24.
pub open spec fn all_fair(rolls: Seq<Seq<Seq<i32>>>) -> bool {
    forall|i: int| 0 <= i < rolls.len() ==> fair(#[trigger] rolls[i])
}

/// Looking around changes neither the number of entities nor the size
/// of the map's grids.
proof fn lemma_reveal_frame(w: WorldView, viewer: int, tiles: Seq<Point>, rolls: Seq<Seq<i32>>, k: int)
    ensures
        reveal_upto(w, viewer, tiles, rolls, k).alive == w.alive,
    decreases k,
{
    if k > 0 {
        lemma_reveal_frame(w, viewer, tiles, rolls, k - 1);
        let prev = reveal_upto(w, viewer, tiles, rolls, k - 1);
        let idx = index_of(tiles[k - 1].x as int, tiles[k - 1].y as int);
        let lit = WorldView {
            map: MapView {
                revealed: prev.map.revealed.update(idx, true),
                visible: prev.map.visible.update(idx, true),
                ..prev.map
            },
            ..prev
        };
        lemma_search_frame(lit, viewer, prev.map.content[idx], rolls[k - 1], prev.map.content[idx].len() as int);
    }
}

proof fn lemma_search_frame(w: WorldView, viewer: int, occupants: Seq<Entity>, rolls: Seq<i32>, j: int)
    ensures
        search_upto(w, viewer, occupants, rolls, j).alive == w.alive,
    decreases j,
{
    if j > 0 {
        lemma_search_frame(w, viewer, occupants, rolls, j - 1);
    }
}

/// Recomputes the dirty viewsheds.
pub struct VisibilitySystem {}

impl VisibilitySystem {
    /// Runs the system. `fov` is asked for the field of view of each
    /// entity that looks around. The result is that of [`see_upto`] for
    /// the fields of view that `fov` answered and the dice that were
    /// thrown.
    pub fn run<F: Fn(&TileMap, Point, i32) -> Vec<Point>>(&mut self, world: &mut World, fov: F)
        requires
            old(world).wf(),
            forall|m: &TileMap, p: Point, r: i32| m.wf() ==> fov.requires((m, p, r)),
        ensures
            final(world).wf(),
            exists|views: Seq<Seq<Point>>, rolls: Seq<Seq<Seq<i32>>>|
                views.len() == old(world)@.capacity() && rolls.len() == old(world)@.capacity()
                    && #[trigger] see_upto(old(world)@, views, rolls, old(world)@.capacity())
                    == final(world)@ && all_fair(rolls) && views_answered(
                    fov,
                    old(world)@,
                    views,
                    rolls,
                    old(world)@.capacity(),
                ),
    {
        let n: usize = world.capacity();
        let ghost mut views: Seq<Seq<Point>> = Seq::empty();
        let ghost mut rolls: Seq<Seq<Seq<i32>>> = Seq::empty();
        let mut i: usize = 0;
        while i < n
            invariant
                i <= n,
                n == old(world)@.capacity(),
                n == world@.capacity(),
                world.wf(),
                views.len() == i,
                rolls.len() == i,
                all_fair(rolls),
                world@ == see_upto(old(world)@, views, rolls, i as int),
                views_answered(fov, old(world)@, views, rolls, i as int),
                forall|m: &TileMap, p: Point, r: i32| m.wf() ==> fov.requires((m, p, r)),
            decreases n - i,
        {
            let e = Entity { index: i };
            let ghost v0 = views;
            let ghost r0 = rolls;
            let ghost prev = world@;
            let mut tiles: Vec<Point> = Vec::new();
            if world.fault.is_none() {
                if let Some(viewshed) = world.viewsheds.get(e) {
                    if viewshed.dirty {
                        if let Some(pos) = world.positions.get(e) {
                            tiles = fov(&world.map, Point { x: pos.x, y: pos.y }, viewshed.range);
                            assert(answered(
                                fov,
                                world@.map,
                                Point { x: pos.x, y: pos.y },
                                viewshed.range,
                                tiles@,
                            ));
                        }
                    }
                }
            }
            let Ghost(row) = look_rolled(world, e, &tiles);
            proof {
                views = v0.push(tiles@);
                rolls = r0.push(row);
                lemma_see_prefix(old(world)@, v0, r0, views, rolls, i as int);
                assert forall|k: int|
                    0 <= k < i + 1 && looks(
                        #[trigger] see_upto(old(world)@, views, rolls, k),
                        k,
                    ) implies answered(
                    fov,
                    see_upto(old(world)@, views, rolls, k).map,
                    Point {
                        x: see_upto(old(world)@, views, rolls, k).positions[k].x,
                        y: see_upto(old(world)@, views, rolls, k).positions[k].y,
                    },
                    see_upto(old(world)@, views, rolls, k).viewsheds[k].range,
                    views[k],
                ) by {
                    lemma_see_prefix(old(world)@, v0, r0, views, rolls, k);
                    if k < i {
                        assert(looks(see_upto(old(world)@, v0, r0, k), k));
                        assert(views[k] == v0[k]);
                    }
                }
                if looks(prev, i as int) && prev.players.contains_key(i as int) {
                    let seen = clip(tiles@, tiles@.len() as int);
                    lemma_reveal_frame(
                        WorldView {
                            map: MapView { visible: all_dark(), ..prev.map },
                            viewsheds: prev.viewsheds.insert(
                                i as int,
                                ViewshedView {
                                    visible_tiles: seen,
                                    range: prev.viewsheds[i as int].range,
                                    dirty: true,
                                },
                            ),
                            ..prev
                        },
                        i as int,
                        seen,
                        row,
                        seen.len() as int,
                    );
                }
            }
            i = i + 1;
        }
        assert(see_upto(old(world)@, views, rolls, old(world)@.capacity()) == world@);
    }
}

} // verus!
