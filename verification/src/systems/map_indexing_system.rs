//! Rebuilding the per-tile caches of the map from where the entities stand.

use vstd::prelude::*;
use crate::map::{no_content, point_index, walls, MapView, TileType};
use crate::rect::Point;
use crate::world::{Entity, Fault, World, WorldView};
use crate::MAP_COUNT;

verus! {

/// The tile that entity `i` stands on, if it has a position on the map.
pub open spec fn tile_of(w: WorldView, i: int) -> Option<usize> {
    if w.positions.contains_key(i) {
        point_index(Point { x: w.positions[i].x, y: w.positions[i].y })
    } else {
        None
    }
}

/// The world with the caches of the map reset: blocked are the walls, and
/// no tile has an occupant.
pub open spec fn index_start(w: WorldView) -> WorldView {
    WorldView { map: MapView { blocked: walls(w.map.tiles), content: no_content(), ..w.map }, ..w }
}

/// The world after entity `i` was entered into the caches: if it has a
/// position, it is appended to the occupants of its tile, and the tile is
/// blocked if the entity blocks. A position off the map is a fault.
pub open spec fn index_step(w: WorldView, i: int) -> WorldView {
    if w.fault.is_some() || !w.positions.contains_key(i) {
        w
    } else {
        match tile_of(w, i) {
            None => w.fail(Fault::OutOfBounds),
            Some(idx) => WorldView {
                map: MapView {
                    blocked: if w.blocks_tile.contains_key(i) {
                        w.map.blocked.update(idx as int, true)
                    } else {
                        w.map.blocked
                    },
                    content: w.map.content.update(
                        idx as int,
                        w.map.content[idx as int].push(Entity { index: i as usize }),
                    ),
                    ..w.map
                },
                ..w
            },
        }
    }
}

/// The world after the entities with index below `n` were entered into the
/// caches, in the order of their indices.
pub open spec fn index_upto(w: WorldView, n: int) -> WorldView
    decreases n,
{
    if n <= 0 {
        w
    } else {
        index_step(index_upto(w, n - 1), n - 1)
    }
}

/// The world after the map indexing system ran.
pub open spec fn index_result(w: WorldView) -> WorldView {
    if w.fault.is_some() {
        w
    } else {
        index_upto(index_start(w), w.capacity())
    }
}

/// Whether a blocking entity with index below `n` stands on tile `t`.
pub open spec fn blocker_on(w: WorldView, t: int, n: int) -> bool {
    exists|e: int| 0 <= e < n && w.blocks_tile.contains_key(e) && #[trigger] tile_of(w, e) == Some(t as usize)
}

/// Indexing changes nothing but the two caches of the map and the fault,
/// and keeps the size of the caches.
pub proof fn lemma_index_frame(w: WorldView, n: int)
    requires
        w.wf(),
    ensures
        index_upto(w, n).wf(),
        index_upto(w, n).positions == w.positions,
        index_upto(w, n).blocks_tile == w.blocks_tile,
        index_upto(w, n).alive == w.alive,
        index_upto(w, n).map.tiles == w.map.tiles,
        index_upto(w, n) == (WorldView {
            map: MapView {
                blocked: index_upto(w, n).map.blocked,
                content: index_upto(w, n).map.content,
                ..w.map
            },
            fault: index_upto(w, n).fault,
            ..w
        }),
    decreases n,
{
    if n > 0 {
        lemma_index_frame(w, n - 1);
    }
}

/// While no fault occurs, a tile is blocked after the first `n` entities
/// were entered exactly if it was blocked at the start or one of them
/// blocks and stands on it.
pub proof fn lemma_index_blocked(w: WorldView, n: int, t: int)
    requires
        w.wf(),
        0 <= t < MAP_COUNT,
        index_upto(w, n).fault.is_none(),
    ensures
        index_upto(w, n).map.blocked[t] == (w.map.blocked[t] || blocker_on(w, t, n)),
    decreases n,
{
    if n > 0 {
        let prev = index_upto(w, n - 1);
        lemma_index_frame(w, n - 1);
        lemma_index_blocked(w, n - 1, t);
        if blocker_on(w, t, n - 1) {
            let e = choose|e: int| 0 <= e < n - 1 && w.blocks_tile.contains_key(e) && #[trigger] tile_of(w, e) == Some(t as usize);
            assert(0 <= e < n && w.blocks_tile.contains_key(e) && tile_of(w, e) == Some(t as usize));
        }
        if w.blocks_tile.contains_key(n - 1) && tile_of(w, n - 1) == Some(t as usize) {
            assert(blocker_on(w, t, n));
        }
        if blocker_on(w, t, n) && !blocker_on(w, t, n - 1) {
            let e = choose|e: int| 0 <= e < n && w.blocks_tile.contains_key(e) && #[trigger] tile_of(w, e) == Some(t as usize);
            assert(e == n - 1);
        }
        assert(tile_of(prev, n - 1) == tile_of(w, n - 1));
    }
}

/// After map indexing without a fault, a tile is blocked exactly if it is
/// a wall or a blocking entity stands on it. In particular the tile of
/// every blocking entity is blocked.
pub proof fn lemma_blocked_iff_wall_or_blocker(w: WorldView, t: int)
    requires
        w.wf(),
        0 <= t < MAP_COUNT,
        index_result(w).fault.is_none(),
    ensures
        index_result(w).map.blocked[t] == (w.map.tiles[t] == TileType::Wall || blocker_on(
            w,
            t,
            w.capacity(),
        )),
        forall|e: int|
            0 <= e < w.capacity() && w.blocks_tile.contains_key(e) && #[trigger] tile_of(w, e)
                == Some(t as usize) ==> index_result(w).map.blocked[t],
{
    let s = index_start(w);
    lemma_index_blocked(s, w.capacity(), t);
    assert forall|e: int| tile_of(s, e) == tile_of(w, e) by {}
    if blocker_on(w, t, w.capacity()) {
        let e = choose|e: int| 0 <= e < w.capacity() && w.blocks_tile.contains_key(e) && #[trigger] tile_of(w, e) == Some(t as usize);
        assert(tile_of(s, e) == Some(t as usize));
        assert(blocker_on(s, t, w.capacity()));
    }
    if blocker_on(s, t, w.capacity()) {
        let e = choose|e: int| 0 <= e < s.capacity() && s.blocks_tile.contains_key(e) && #[trigger] tile_of(s, e) == Some(t as usize);
        assert(tile_of(w, e) == Some(t as usize));
        assert(blocker_on(w, t, w.capacity()));
    }
    assert forall|e: int|
        0 <= e < w.capacity() && w.blocks_tile.contains_key(e) && #[trigger] tile_of(w, e) == Some(
            t as usize,
        ) implies index_result(w).map.blocked[t] by {
        assert(blocker_on(w, t, w.capacity()));
    }
}

/// The entities with index below `n` that stand on tile `t`, in the order
/// of their indices.
pub open spec fn standing_on(w: WorldView, t: int, n: int) -> Seq<Entity>
    decreases n,
{
    if n <= 0 {
        Seq::empty()
    } else if tile_of(w, n - 1) == Some(t as usize) {
        standing_on(w, t, n - 1).push(Entity { index: (n - 1) as usize })
    } else {
        standing_on(w, t, n - 1)
    }
}

/// While no fault occurs, the occupants of a tile after the first `n`
/// entities were entered are those it had at the start, followed by
/// those of the entities that stand on it.
pub proof fn lemma_index_content(w: WorldView, n: int, t: int)
    requires
        w.wf(),
        0 <= t < MAP_COUNT,
        index_upto(w, n).fault.is_none(),
    ensures
        index_upto(w, n).map.content[t] == w.map.content[t] + standing_on(w, t, n),
    decreases n,
{
    if n > 0 {
        let prev = index_upto(w, n - 1);
        lemma_index_frame(w, n - 1);
        lemma_index_content(w, n - 1, t);
        assert(tile_of(prev, n - 1) == tile_of(w, n - 1));
        if tile_of(w, n - 1) == Some(t as usize) {
            assert(index_upto(w, n).map.content[t] =~= w.map.content[t] + standing_on(w, t, n));
        }
    } else {
        assert(w.map.content[t] + standing_on(w, t, 0) =~= w.map.content[t]);
    }
}

/// After map indexing without a fault, the content index lists for every
/// tile exactly the entities that stand on it, in the order of their
/// indices: nothing is left of what it listed before.
pub proof fn lemma_content_is_rebuilt(w: WorldView, t: int)
    requires
        w.wf(),
        0 <= t < MAP_COUNT,
        index_result(w).fault.is_none(),
    ensures
        index_result(w).map.content[t] == standing_on(w, t, w.capacity()),
{
    let s = index_start(w);
    lemma_index_content(s, w.capacity(), t);
    lemma_standing_frame(s, w, t, w.capacity());
    assert(s.map.content[t] + standing_on(w, t, w.capacity()) =~= standing_on(w, t, w.capacity()));
}

/// Who stands on a tile depends on the positions alone.
pub proof fn lemma_standing_frame(a: WorldView, b: WorldView, t: int, n: int)
    requires
        a.positions == b.positions,
    ensures
        standing_on(a, t, n) == standing_on(b, t, n),
    decreases n,
{
    if n > 0 {
        lemma_standing_frame(a, b, t, n - 1);
    }
}

fn index_one(world: &mut World, e: Entity)
    requires
        old(world).wf(),
    ensures
        final(world)@ == index_step(old(world)@, e.index as int),
        final(world).wf(),
{
    if world.fault.is_some() {
        return ;
    }
    let pos = match world.positions.get(e) {
        Some(p) => *p,
        None => {
            return ;
        },
    };
    match world.map.checked_idx(Point { x: pos.x, y: pos.y }) {
        None => {
            world.fail(Fault::OutOfBounds);
        },
        Some(idx) => {
            if world.blocks_tile.contains(e) {
                world.map.blocked[idx] = true;
            }
            world.map.tile_content[idx].push(e);
            assert(world@.map.content =~= old(world)@.map.content.update(
                idx as int,
                old(world)@.map.content[idx as int].push(e),
            ));
        },
    }
}

/// Rebuilds `blocked` and `tile_content` of the map.
pub struct MapIndexingSystem {}

impl MapIndexingSystem {
    /// Runs the system. See [`index_result`].
    pub fn run(&mut self, world: &mut World)
        requires
            old(world).wf(),
        ensures
            final(world)@ == index_result(old(world)@),
            final(world).wf(),
    {
        if world.fault.is_some() {
            return ;
        }
        world.map.populate_blocked();
        world.map.clear_content_index();
        let n: usize = world.capacity();
        let mut i: usize = 0;
        while i < n
            invariant
                i <= n,
                n == old(world)@.capacity(),
                world.wf(),
                world@ == index_upto(index_start(old(world)@), i as int),
            decreases n - i,
        {
            index_one(world, Entity { index: i });
            i = i + 1;
        }
    }
}

} // verus!
