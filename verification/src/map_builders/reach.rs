//! Which tiles can be reached from which, walking over open tiles.

use vstd::prelude::*;
use crate::map::{index_of, TileType};
use crate::map_builders::common::{between, carve, col, h_tunnel, inside, row, v_tunnel};
use crate::map_builders::simple_map::{center_index, corridor, dig, roomy, SimpleMapBuilder};
use crate::rect::Rect;
use crate::{MAP_COUNT, MAP_HEIGHT, MAP_WIDTH};

verus! {

/// Whether tile `t` can be walked on: it lies on the map and is no wall.
pub open spec fn passable(tiles: Seq<TileType>, t: int) -> bool {
    0 <= t < MAP_COUNT && tiles[t] != TileType::Wall
}

/// Whether `a` and `b` are neighbours in a row or in a column.
pub open spec fn beside(a: int, b: int) -> bool {
    ||| row(a) == row(b) && (col(a) == col(b) + 1 || col(b) == col(a) + 1)
    ||| col(a) == col(b) && (row(a) == row(b) + 1 || row(b) == row(a) + 1)
}

/// Whether `path` is a walk: at least one tile, each passable, each next
/// to the one before.
pub open spec fn is_walk(tiles: Seq<TileType>, path: Seq<int>) -> bool {
    &&& path.len() >= 1
    &&& forall|k: int| 0 <= k < path.len() ==> passable(tiles, #[trigger] path[k])
    &&& forall|k: int| 0 <= k < path.len() - 1 ==> beside(#[trigger] path[k], path[k + 1])
}

/// Whether a walk leads from `a` to `b`.
pub open spec fn connected(tiles: Seq<TileType>, a: int, b: int) -> bool {
    exists|path: Seq<int>| #[trigger] is_walk(tiles, path) && path[0] == a && path.last() == b
}

/// Whether `after` has an open tile wherever `before` has one.
pub open spec fn opens(before: Seq<TileType>, after: Seq<TileType>) -> bool {
    &&& before.len() == after.len()
    &&& forall|t: int|
        0 <= t < before.len() && before[t] != TileType::Wall ==> #[trigger] after[t] != TileType::Wall
}

/// A passable tile is connected to itself.
pub proof fn lemma_connected_refl(tiles: Seq<TileType>, a: int)
    requires
        passable(tiles, a),
    ensures
        connected(tiles, a, a),
{
    let path = seq![a];
    assert(is_walk(tiles, path));
    assert(path[0] == a && path.last() == a);
}

/// What is connected stays connected when more tiles open.
pub proof fn lemma_connected_mono(before: Seq<TileType>, after: Seq<TileType>, a: int, b: int)
    requires
        opens(before, after),
        before.len() == MAP_COUNT,
        connected(before, a, b),
    ensures
        connected(after, a, b),
{
    let path = choose|path: Seq<int>| #[trigger] is_walk(before, path) && path[0] == a && path.last() == b;
    assert forall|k: int| 0 <= k < path.len() implies passable(after, #[trigger] path[k]) by {
        assert(passable(before, path[k]));
    }
    assert(is_walk(after, path));
}

/// Connection is transitive.
pub proof fn lemma_connected_trans(tiles: Seq<TileType>, a: int, b: int, c: int)
    requires
        connected(tiles, a, b),
        connected(tiles, b, c),
    ensures
        connected(tiles, a, c),
{
    let p = choose|path: Seq<int>| #[trigger] is_walk(tiles, path) && path[0] == a && path.last() == b;
    let q = choose|path: Seq<int>| #[trigger] is_walk(tiles, path) && path[0] == b && path.last() == c;
    let path = p + q.subrange(1, q.len() as int);
    assert forall|k: int| 0 <= k < path.len() implies passable(tiles, #[trigger] path[k]) by {
        if k < p.len() {
            assert(path[k] == p[k]);
        } else {
            assert(path[k] == q[k - p.len() + 1]);
        }
    }
    assert forall|k: int| 0 <= k < path.len() - 1 implies beside(#[trigger] path[k], path[k + 1]) by {
        if k < p.len() - 1 {
            assert(path[k] == p[k] && path[k + 1] == p[k + 1]);
        } else if k == p.len() - 1 {
            assert(path[k] == p[k]);
            assert(p[k] == q[0]);
            assert(path[k + 1] == q[1]);
            assert(beside(q[0], q[1]));
        } else {
            assert(path[k] == q[k - p.len() + 1]);
            assert(path[k + 1] == q[k - p.len() + 2]);
            assert(beside(q[k - p.len() + 1], q[k - p.len() + 1 + 1]));
        }
    }
    assert(is_walk(tiles, path));
    assert(path[0] == a);
    if q.len() == 1 {
        assert(path =~= p);
        assert(path.last() == c);
    } else {
        assert(path.last() == q.last());
    }
}

/// Connection is symmetric.
pub proof fn lemma_connected_sym(tiles: Seq<TileType>, a: int, b: int)
    requires
        connected(tiles, a, b),
    ensures
        connected(tiles, b, a),
{
    let p = choose|path: Seq<int>| #[trigger] is_walk(tiles, path) && path[0] == a && path.last() == b;
    let n = p.len() as int;
    let path = Seq::new(p.len(), |k: int| p[n - 1 - k]);
    assert forall|k: int| 0 <= k < path.len() - 1 implies beside(#[trigger] path[k], path[k + 1]) by {
        assert(beside(p[n - 2 - k], p[n - 2 - k + 1]));
    }
    assert(is_walk(tiles, path));
}

/// A step between neighbours extends a connection.
pub proof fn lemma_connected_step(tiles: Seq<TileType>, a: int, n: int, b: int)
    requires
        passable(tiles, a),
        beside(a, n),
        connected(tiles, n, b),
    ensures
        connected(tiles, a, b),
{
    let q = choose|path: Seq<int>| #[trigger] is_walk(tiles, path) && path[0] == n && path.last() == b;
    let path = seq![a] + q;
    assert forall|k: int| 0 <= k < path.len() implies passable(tiles, #[trigger] path[k]) by {
        if k > 0 {
            assert(path[k] == q[k - 1]);
        }
    }
    assert forall|k: int| 0 <= k < path.len() - 1 implies beside(#[trigger] path[k], path[k + 1]) by {
        if k > 0 {
            assert(path[k] == q[k - 1] && path[k + 1] == q[k - 1 + 1]);
            assert(beside(q[k - 1], q[k - 1 + 1]));
        } else {
            assert(path[1] == q[0]);
        }
    }
    assert(is_walk(tiles, path));
    assert(path.last() == q.last());
}

/// The tiles of a row between two columns are connected if all of them
/// are open and off the border.
pub proof fn lemma_row_connected(tiles: Seq<TileType>, y: int, xa: int, xb: int)
    requires
        tiles.len() == MAP_COUNT,
        1 <= y <= MAP_HEIGHT - 2,
        1 <= xa <= MAP_WIDTH - 2,
        1 <= xb <= MAP_WIDTH - 2,
        forall|x: int| between(xa, xb, x) ==> #[trigger] tiles[index_of(x, y)] != TileType::Wall,
    ensures
        connected(tiles, index_of(xa, y), index_of(xb, y)),
    decreases
            if xa <= xb {
                xb - xa
            } else {
                xa - xb
            },
{
    let a = index_of(xa, y);
    assert(col(a) == xa && row(a) == y);
    assert(between(xa, xb, xa));
    assert(passable(tiles, a));
    if xa == xb {
        lemma_connected_refl(tiles, a);
    } else {
        let xn = if xa < xb {
            xa + 1
        } else {
            xa - 1
        };
        let n = index_of(xn, y);
        assert(col(n) == xn && row(n) == y);
        assert forall|x: int| between(xn, xb, x) implies #[trigger] tiles[index_of(x, y)]
            != TileType::Wall by {
            assert(between(xa, xb, x));
        }
        lemma_row_connected(tiles, y, xn, xb);
        lemma_connected_step(tiles, a, n, index_of(xb, y));
    }
}

/// The tiles of a column between two rows are connected if all of them
/// are open and off the border.
pub proof fn lemma_column_connected(tiles: Seq<TileType>, x: int, ya: int, yb: int)
    requires
        tiles.len() == MAP_COUNT,
        1 <= x <= MAP_WIDTH - 2,
        1 <= ya <= MAP_HEIGHT - 2,
        1 <= yb <= MAP_HEIGHT - 2,
        forall|y: int| between(ya, yb, y) ==> #[trigger] tiles[index_of(x, y)] != TileType::Wall,
    ensures
        connected(tiles, index_of(x, ya), index_of(x, yb)),
    decreases
            if ya <= yb {
                yb - ya
            } else {
                ya - yb
            },
{
    let a = index_of(x, ya);
    assert(col(a) == x && row(a) == ya);
    assert(between(ya, yb, ya));
    assert(passable(tiles, a));
    if ya == yb {
        lemma_connected_refl(tiles, a);
    } else {
        let yn = if ya < yb {
            ya + 1
        } else {
            ya - 1
        };
        let n = index_of(x, yn);
        assert(col(n) == x && row(n) == yn);
        assert forall|y: int| between(yn, yb, y) implies #[trigger] tiles[index_of(x, y)]
            != TileType::Wall by {
            assert(between(ya, yb, y));
        }
        lemma_column_connected(tiles, x, yn, yb);
        lemma_connected_step(tiles, a, n, index_of(x, yb));
    }
}

/// Whether `p` is a point off the border of the map.
pub open spec fn inner(p: (int, int)) -> bool {
    1 <= p.0 <= MAP_WIDTH - 2 && 1 <= p.1 <= MAP_HEIGHT - 2
}

/// The coordinates of the tile with index `index_of(x, y)` are `x` and
/// `y`.
pub proof fn lemma_index_coords(x: int, y: int)
    requires
        0 <= x < MAP_WIDTH,
        0 <= y < MAP_HEIGHT,
    ensures
        0 <= index_of(x, y) < MAP_COUNT,
        col(index_of(x, y)) == x,
        row(index_of(x, y)) == y,
{
}

/// Tunnels open tiles and close none.
pub proof fn lemma_tunnels_open(tiles: Seq<TileType>, a: int, b: int, c: int)
    ensures
        opens(tiles, h_tunnel(tiles, a, b, c)),
        opens(tiles, v_tunnel(tiles, a, b, c)),
{
}

proof fn lemma_corridor_row_first(tiles: Seq<TileType>, from: (int, int), to: (int, int))
    requires
        tiles.len() == MAP_COUNT,
        inner(from),
        inner(to),
    ensures
        connected(
            v_tunnel(h_tunnel(tiles, from.0, to.0, from.1), from.1, to.1, to.0),
            index_of(from.0, from.1),
            index_of(to.0, to.1),
        ),
{
    let first = h_tunnel(tiles, from.0, to.0, from.1);
    let done = v_tunnel(first, from.1, to.1, to.0);
    assert forall|x: int| between(from.0, to.0, x) implies #[trigger] done[index_of(x, from.1)]
        != TileType::Wall by {
        lemma_index_coords(x, from.1);
        assert(first[index_of(x, from.1)] == TileType::Floor);
    }
    lemma_row_connected(done, from.1, from.0, to.0);
    assert forall|y: int| between(from.1, to.1, y) implies #[trigger] done[index_of(to.0, y)]
        != TileType::Wall by {
        lemma_index_coords(to.0, y);
    }
    lemma_column_connected(done, to.0, from.1, to.1);
    lemma_connected_trans(done, index_of(from.0, from.1), index_of(to.0, from.1), index_of(to.0, to.1));
}

proof fn lemma_corridor_column_first(tiles: Seq<TileType>, from: (int, int), to: (int, int))
    requires
        tiles.len() == MAP_COUNT,
        inner(from),
        inner(to),
    ensures
        connected(
            h_tunnel(v_tunnel(tiles, from.1, to.1, from.0), from.0, to.0, to.1),
            index_of(from.0, from.1),
            index_of(to.0, to.1),
        ),
{
    let first = v_tunnel(tiles, from.1, to.1, from.0);
    let done = h_tunnel(first, from.0, to.0, to.1);
    assert forall|y: int| between(from.1, to.1, y) implies #[trigger] done[index_of(from.0, y)]
        != TileType::Wall by {
        lemma_index_coords(from.0, y);
        assert(first[index_of(from.0, y)] == TileType::Floor);
    }
    lemma_column_connected(done, from.0, from.1, to.1);
    assert forall|x: int| between(from.0, to.0, x) implies #[trigger] done[index_of(x, to.1)]
        != TileType::Wall by {
        lemma_index_coords(x, to.1);
    }
    lemma_row_connected(done, to.1, from.0, to.0);
    lemma_connected_trans(done, index_of(from.0, from.1), index_of(from.0, to.1), index_of(to.0, to.1));
}

/// A corridor connects its two ends, and closes no tile.
pub proof fn lemma_corridor_connects(tiles: Seq<TileType>, from: (int, int), to: (int, int), coin: bool)
    requires
        tiles.len() == MAP_COUNT,
        inner(from),
        inner(to),
    ensures
        opens(tiles, corridor(tiles, from, to, coin)),
        connected(corridor(tiles, from, to, coin), index_of(from.0, from.1), index_of(to.0, to.1)),
{
    if coin {
        let first = h_tunnel(tiles, from.0, to.0, from.1);
        lemma_tunnels_open(tiles, from.0, to.0, from.1);
        lemma_tunnels_open(first, from.1, to.1, to.0);
        lemma_corridor_row_first(tiles, from, to);
    } else {
        let first = v_tunnel(tiles, from.1, to.1, from.0);
        lemma_tunnels_open(tiles, from.1, to.1, from.0);
        lemma_tunnels_open(first, from.0, to.0, to.1);
        lemma_corridor_column_first(tiles, from, to);
    }
}

/// The center of a room that leaves the border alone lies in its inside
/// and off the border.
pub proof fn lemma_center_inside(room: Rect)
    requires
        roomy(room),
    ensures
        inner(room.mid()),
        inside(room, center_index(room)),
        0 <= center_index(room) < MAP_COUNT,
        col(center_index(room)) == room.mid().0,
        row(center_index(room)) == room.mid().1,
{
}

/// In the grid dug from the first `n` rooms, a walk leads from the center
/// of the first room to the center of each of them.
pub proof fn lemma_dig_connected(rooms: Seq<Rect>, coins: Seq<bool>, n: int, k: int)
    requires
        0 <= k < n <= rooms.len(),
        forall|i: int| 0 <= i < rooms.len() ==> roomy(#[trigger] rooms[i]),
    ensures
        dig(rooms, coins, n).len() == MAP_COUNT,
        connected(dig(rooms, coins, n), center_index(rooms[0]), center_index(rooms[k])),
    decreases n,
{
    let before = dig(rooms, coins, n - 1);
    let room = rooms[n - 1];
    let carved = carve(before, room);
    let after = dig(rooms, coins, n);
    lemma_dig_len(rooms, coins, n - 1);
    lemma_center_inside(room);
    assert(opens(before, carved));
    if n == 1 {
        assert(rooms.take(0).len() == 0);
        assert(after == carved);
        assert(passable(carved, center_index(room)));
        lemma_connected_refl(carved, center_index(room));
    } else {
        let prev = rooms[n - 2];
        assert(rooms.take(n - 1).last() == prev);
        lemma_center_inside(prev);
        lemma_corridor_connects(carved, prev.mid(), room.mid(), coins[n - 1]);
        assert(after == corridor(carved, prev.mid(), room.mid(), coins[n - 1]));
        assert(opens(before, after));
        if k < n - 1 {
            lemma_dig_connected(rooms, coins, n - 1, k);
            lemma_connected_mono(before, after, center_index(rooms[0]), center_index(rooms[k]));
        } else {
            lemma_dig_connected(rooms, coins, n - 1, n - 2);
            lemma_connected_mono(before, after, center_index(rooms[0]), center_index(prev));
            lemma_connected_trans(after, center_index(rooms[0]), center_index(prev), center_index(room));
        }
    }
}

/// Digging keeps the size of the grid.
pub proof fn lemma_dig_len(rooms: Seq<Rect>, coins: Seq<bool>, n: int)
    ensures
        dig(rooms, coins, n).len() == MAP_COUNT,
    decreases n,
{
    if n > 0 {
        lemma_dig_len(rooms, coins, n - 1);
    }
}

/// On a finished level a walk over open tiles leads from the center of
/// every room to the center of every other room.
pub proof fn lemma_rooms_connected(b: SimpleMapBuilder, i: int, j: int)
    requires
        b.finished(),
        0 <= i < b.map@.rooms.len(),
        0 <= j < b.map@.rooms.len(),
    ensures
        connected(b.map@.tiles, center_index(b.map@.rooms[i]), center_index(b.map@.rooms[j])),
{
    let rooms = b.map@.rooms;
    let n = rooms.len() as int;
    let dug = dig(rooms, b.coins@, n);
    let tiles = b.map@.tiles;
    lemma_dig_connected(rooms, b.coins@, n, i);
    lemma_dig_connected(rooms, b.coins@, n, j);
    lemma_center_inside(rooms.last());
    assert(opens(dug, tiles));
    lemma_connected_mono(dug, tiles, center_index(rooms[0]), center_index(rooms[i]));
    lemma_connected_mono(dug, tiles, center_index(rooms[0]), center_index(rooms[j]));
    lemma_connected_sym(tiles, center_index(rooms[0]), center_index(rooms[i]));
    lemma_connected_trans(tiles, center_index(rooms[i]), center_index(rooms[0]), center_index(rooms[j]));
}

/// Digging makes floor of rock and nothing else.
pub proof fn lemma_dig_has_no_stairs(rooms: Seq<Rect>, coins: Seq<bool>, n: int, t: int)
    requires
        0 <= t < MAP_COUNT,
    ensures
        dig(rooms, coins, n)[t] != TileType::DownStairs,
    decreases n,
{
    if n > 0 {
        lemma_dig_len(rooms, coins, n - 1);
        lemma_dig_has_no_stairs(rooms, coins, n - 1, t);
    }
}

/// A finished level has exactly one tile with stairs down: the center of
/// the room added last.
pub proof fn lemma_one_staircase(b: SimpleMapBuilder, t: int)
    requires
        b.finished(),
        0 <= t < MAP_COUNT,
    ensures
        b.map@.tiles[t] == TileType::DownStairs <==> t == center_index(b.map@.rooms.last()),
{
    let rooms = b.map@.rooms;
    lemma_dig_len(rooms, b.coins@, rooms.len() as int);
    lemma_dig_has_no_stairs(rooms, b.coins@, rooms.len() as int, t);
    lemma_center_inside(rooms.last());
}

/// The border of a map that was dug is wall.
pub proof fn lemma_dig_keeps_border(rooms: Seq<Rect>, coins: Seq<bool>, n: int, t: int)
    requires
        0 <= n <= rooms.len(),
        0 <= t < MAP_COUNT,
        forall|i: int| 0 <= i < rooms.len() ==> roomy(#[trigger] rooms[i]),
        col(t) == 0 || col(t) == MAP_WIDTH - 1 || row(t) == 0 || row(t) == MAP_HEIGHT - 1,
    ensures
        dig(rooms, coins, n)[t] == TileType::Wall,
    decreases n,
{
    if n > 0 {
        lemma_dig_len(rooms, coins, n - 1);
        lemma_dig_keeps_border(rooms, coins, n - 1, t);
        lemma_center_inside(rooms[n - 1]);
        if n > 1 {
            assert(rooms.take(n - 1).last() == rooms[n - 2]);
            lemma_center_inside(rooms[n - 2]);
        } else {
            assert(rooms.take(n - 1).len() == 0);
        }
    }
}

/// The border of a finished level is wall.
pub proof fn lemma_border_is_wall(b: SimpleMapBuilder, t: int)
    requires
        b.finished(),
        0 <= t < MAP_COUNT,
        col(t) == 0 || col(t) == MAP_WIDTH - 1 || row(t) == 0 || row(t) == MAP_HEIGHT - 1,
    ensures
        b.map@.tiles[t] == TileType::Wall,
{
    let rooms = b.map@.rooms;
    lemma_dig_len(rooms, b.coins@, rooms.len() as int);
    lemma_dig_keeps_border(rooms, b.coins@, rooms.len() as int, t);
    lemma_center_inside(rooms.last());
}

} // verus!
