//! Digging rooms and tunnels into the rock.

use vstd::prelude::*;
use crate::map::{MapView, TileMap, TileType};
use crate::rect::Rect;
use crate::{MAP_COUNT, MAP_HEIGHT, MAP_WIDTH};

verus! {

/// Column of tile `t`.
pub open spec fn col(t: int) -> int {
    t % (MAP_WIDTH as int)
}

/// Row of tile `t`.
pub open spec fn row(t: int) -> int {
    t / (MAP_WIDTH as int)
}

/// Whether tile `t` belongs to the inside of `room`: the columns after
/// `x1` up to `x2`, and the rows after `y1` up to `y2`.
pub open spec fn inside(room: Rect, t: int) -> bool {
    room.x1 < col(t) <= room.x2 && room.y1 < row(t) <= room.y2
}

/// Whether `v` lies between `a` and `b`, in either order, ends included.
pub open spec fn between(a: int, b: int, v: int) -> bool {
    (a <= v <= b) || (b <= v <= a)
}

/// The grid with the inside of `room` turned to floor.
pub open spec fn carve(tiles: Seq<TileType>, room: Rect) -> Seq<TileType> {
    Seq::new(tiles.len(), |t: int| if inside(room, t) { TileType::Floor } else { tiles[t] })
}

/// The grid with the tiles of row `y` between the columns `x1` and `x2`
/// turned to floor.
pub open spec fn h_tunnel(tiles: Seq<TileType>, x1: int, x2: int, y: int) -> Seq<TileType> {
    Seq::new(
        tiles.len(),
        |t: int| if row(t) == y && between(x1, x2, col(t)) { TileType::Floor } else { tiles[t] },
    )
}

/// The grid with the tiles of column `x` between the rows `y1` and `y2`
/// turned to floor.
pub open spec fn v_tunnel(tiles: Seq<TileType>, y1: int, y2: int, x: int) -> Seq<TileType> {
    Seq::new(
        tiles.len(),
        |t: int| if col(t) == x && between(y1, y2, row(t)) { TileType::Floor } else { tiles[t] },
    )
}

/// Whether `room` lies on the map.
pub open spec fn on_map(room: Rect) -> bool {
    0 <= room.x1 <= room.x2 < MAP_WIDTH && 0 <= room.y1 <= room.y2 < MAP_HEIGHT
}

/// Turns the inside of `room` to floor.
pub fn apply_room_to_map(map: &mut TileMap, room: &Rect)
    requires
        old(map).wf(),
        on_map(*room),
    ensures
        final(map)@ == (MapView { tiles: carve(old(map)@.tiles, *room), ..old(map)@ }),
{
    let mut y: i32 = room.y1 + 1;
    assert(map@.tiles =~= Seq::new(
        map@.tiles.len(),
        |t: int| if inside(*room, t) && row(t) < y { TileType::Floor } else { old(map)@.tiles[t] },
    ));
    while y <= room.y2
        invariant
            map.wf(),
            on_map(*room),
            room.y1 + 1 <= y <= room.y2 + 1,
            map@ == (MapView { tiles: map@.tiles, ..old(map)@ }),
            map@.tiles == Seq::new(
                old(map)@.tiles.len(),
                |t: int| if inside(*room, t) && row(t) < y { TileType::Floor } else { old(map)@.tiles[t] },
            ),
        decreases room.y2 + 1 - y,
    {
        let mut x: i32 = room.x1 + 1;
        while x <= room.x2
            invariant
                map.wf(),
                on_map(*room),
                room.y1 + 1 <= y <= room.y2,
                room.x1 + 1 <= x <= room.x2 + 1,
                map@ == (MapView { tiles: map@.tiles, ..old(map)@ }),
                map@.tiles == Seq::new(
                    old(map)@.tiles.len(),
                    |t: int| if inside(*room, t) && (row(t) < y || (row(t) == y && col(t) < x)) {
                        TileType::Floor
                    } else {
                        old(map)@.tiles[t]
                    },
                ),
            decreases room.x2 + 1 - x,
        {
            let idx = map.xy_idx(x, y);
            map.tiles[idx] = TileType::Floor;
            assert(col(idx as int) == x && row(idx as int) == y);
            assert(map@.tiles =~= Seq::new(
                old(map)@.tiles.len(),
                |t: int| if inside(*room, t) && (row(t) < y || (row(t) == y && col(t) < x + 1)) {
                    TileType::Floor
                } else {
                    old(map)@.tiles[t]
                },
            )) by {
                assert forall|t: int| 0 <= t < MAP_COUNT && row(t) == y && col(t) == x implies t
                    == idx by {}
            }
            x = x + 1;
        }
        assert(map@.tiles =~= Seq::new(
            old(map)@.tiles.len(),
            |t: int| if inside(*room, t) && row(t) < y + 1 { TileType::Floor } else { old(map)@.tiles[t] },
        ));
        y = y + 1;
    }
    assert(map@.tiles =~= carve(old(map)@.tiles, *room));
}

/// Turns to floor the tiles of row `y` between the columns `x1` and `x2`,
/// as far as they lie on the map.
pub fn apply_horizontal_tunnel(map: &mut TileMap, x1: i32, x2: i32, y: i32)
    requires
        old(map).wf(),
    ensures
        final(map)@ == (MapView {
            tiles: h_tunnel(old(map)@.tiles, x1 as int, x2 as int, y as int),
            ..old(map)@
        }),
{
    if y < 0 || y >= MAP_HEIGHT {
        assert(map@.tiles =~= h_tunnel(old(map)@.tiles, x1 as int, x2 as int, y as int));
        return ;
    }
    let lo: i32 = if x1 <= x2 { x1 } else { x2 };
    let hi: i32 = if x1 <= x2 { x2 } else { x1 };
    let first: i32 = if lo < 0 { 0 } else { lo };
    let last: i32 = if hi >= MAP_WIDTH { MAP_WIDTH - 1 } else { hi };
    let mut x: i32 = first;
    assert(map@.tiles =~= Seq::new(
        map@.tiles.len(),
        |t: int| if row(t) == y && between(x1 as int, x2 as int, col(t)) && col(t) < x {
            TileType::Floor
        } else {
            old(map)@.tiles[t]
        },
    ));
    while x <= last
        invariant
            map.wf(),
            0 <= y < MAP_HEIGHT,
            lo <= hi,
            lo == if x1 <= x2 { x1 } else { x2 },
            hi == if x1 <= x2 { x2 } else { x1 },
            first == if lo < 0 { 0 } else { lo },
            last == if hi >= MAP_WIDTH { 79i32 } else { hi },
            first <= x,
            x <= last + 1 || last < first,
            map@ == (MapView { tiles: map@.tiles, ..old(map)@ }),
            map@.tiles == Seq::new(
                old(map)@.tiles.len(),
                |t: int| if row(t) == y && between(x1 as int, x2 as int, col(t)) && col(t) < x {
                    TileType::Floor
                } else {
                    old(map)@.tiles[t]
                },
            ),
        decreases last + 1 - x,
    {
        let idx = map.xy_idx(x, y);
        map.tiles[idx] = TileType::Floor;
        assert(col(idx as int) == x && row(idx as int) == y);
        assert(map@.tiles =~= Seq::new(
            old(map)@.tiles.len(),
            |t: int| if row(t) == y && between(x1 as int, x2 as int, col(t)) && col(t) < x + 1 {
                TileType::Floor
            } else {
                old(map)@.tiles[t]
            },
        )) by {
            assert forall|t: int| 0 <= t < MAP_COUNT && row(t) == y && col(t) == x implies t == idx by {}
        }
        x = x + 1;
    }
    assert(map@.tiles =~= h_tunnel(old(map)@.tiles, x1 as int, x2 as int, y as int));
}

/// Turns to floor the tiles of column `x` between the rows `y1` and `y2`,
/// as far as they lie on the map.
pub fn apply_vertical_tunnel(map: &mut TileMap, y1: i32, y2: i32, x: i32)
    requires
        old(map).wf(),
    ensures
        final(map)@ == (MapView {
            tiles: v_tunnel(old(map)@.tiles, y1 as int, y2 as int, x as int),
            ..old(map)@
        }),
{
    if x < 0 || x >= MAP_WIDTH {
        assert(map@.tiles =~= v_tunnel(old(map)@.tiles, y1 as int, y2 as int, x as int));
        return ;
    }
    let lo: i32 = if y1 <= y2 { y1 } else { y2 };
    let hi: i32 = if y1 <= y2 { y2 } else { y1 };
    let first: i32 = if lo < 0 { 0 } else { lo };
    let last: i32 = if hi >= MAP_HEIGHT { MAP_HEIGHT - 1 } else { hi };
    let mut y: i32 = first;
    assert(map@.tiles =~= Seq::new(
        map@.tiles.len(),
        |t: int| if col(t) == x && between(y1 as int, y2 as int, row(t)) && row(t) < y {
            TileType::Floor
        } else {
            old(map)@.tiles[t]
        },
    ));
    while y <= last
        invariant
            map.wf(),
            0 <= x < MAP_WIDTH,
            lo <= hi,
            lo == if y1 <= y2 { y1 } else { y2 },
            hi == if y1 <= y2 { y2 } else { y1 },
            first == if lo < 0 { 0 } else { lo },
            last == if hi >= MAP_HEIGHT { 42i32 } else { hi },
            first <= y,
            y <= last + 1 || last < first,
            map@ == (MapView { tiles: map@.tiles, ..old(map)@ }),
            map@.tiles == Seq::new(
                old(map)@.tiles.len(),
                |t: int| if col(t) == x && between(y1 as int, y2 as int, row(t)) && row(t) < y {
                    TileType::Floor
                } else {
                    old(map)@.tiles[t]
                },
            ),
        decreases last + 1 - y,
    {
        let idx = map.xy_idx(x, y);
        map.tiles[idx] = TileType::Floor;
        assert(col(idx as int) == x && row(idx as int) == y);
        assert(map@.tiles =~= Seq::new(
            old(map)@.tiles.len(),
            |t: int| if col(t) == x && between(y1 as int, y2 as int, row(t)) && row(t) < y + 1 {
                TileType::Floor
            } else {
                old(map)@.tiles[t]
            },
        )) by {
            assert forall|t: int| 0 <= t < MAP_COUNT && row(t) == y && col(t) == x implies t == idx by {}
        }
        y = y + 1;
    }
    assert(map@.tiles =~= v_tunnel(old(map)@.tiles, y1 as int, y2 as int, x as int));
}

} // verus!
