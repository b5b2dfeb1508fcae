//! The tile grid of one dungeon level.

use vstd::prelude::*;
use std::collections::HashSet;
use crate::rect::{Point, Rect};
use crate::world::Entity;
use crate::dice::roll_dice;
use crate::{MAP_COUNT, MAP_HEIGHT, MAP_WIDTH, MAX_X, MAX_Y};
use rltk::RandomNumberGenerator;

verus! {

/// What a tile is made of.
#[derive(Clone, Copy, PartialEq, Eq, Debug, Structural)]
pub enum TileType {
    Wall,
    Floor,
    DownStairs,
}

/// Row-major index of the tile at column `x`, row `y`.
pub open spec fn index_of(x: int, y: int) -> int {
    y * MAP_WIDTH + x
}

/// Whether `(x, y)` lies on the grid.
pub open spec fn in_bounds(x: int, y: int) -> bool {
    0 <= x < MAP_WIDTH && 0 <= y < MAP_HEIGHT
}

/// Row-major linear index of a coordinate pair.
pub fn xy_index(x: i32, y: i32) -> (idx: usize)
    requires
        i32::MIN <= y * MAP_WIDTH <= i32::MAX,
        0 <= index_of(x as int, y as int) <= i32::MAX,
    ensures
        idx == index_of(x as int, y as int),
{
    ((y * MAP_WIDTH) + x) as usize
}

/// Whether tile `t` lies on the border of the map.
pub open spec fn on_border(t: int) -> bool {
    t % (MAP_WIDTH as int) == 0 || t % (MAP_WIDTH as int) == MAX_X || t / (MAP_WIDTH as int) == 0 || t / (
    MAP_WIDTH as int) == MAX_Y
}

/// A cave for trying things out: an open floor within a border of walls,
/// with up to 200 pillars wherever `rng` puts them, but none on the tile
/// at column 40, row 25.
pub fn new_map(rng: &mut RandomNumberGenerator) -> (map: Vec<TileType>)
    ensures
        map@.len() == MAP_COUNT,
        forall|t: int| 0 <= t < MAP_COUNT && on_border(t) ==> map@[t] == TileType::Wall,
        forall|t: int| 0 <= t < MAP_COUNT ==> map@[t] == TileType::Wall || map@[t] == TileType::Floor,
        map@[index_of(40, 25)] == TileType::Floor,
{
    let mut map: Vec<TileType> = Vec::new();
    let mut t: usize = 0;
    while t < 3440
        invariant
            t <= 3440,
            map@.len() == t,
            forall|k: int| 0 <= k < t ==> map@[k] == (if on_border(k) {
                TileType::Wall
            } else {
                TileType::Floor
            }),
        decreases 3440 - t,
    {
        let x: usize = t % 80;
        let y: usize = t / 80;
        if x == 0 || x == 79 || y == 0 || y == 42 {
            map.push(TileType::Wall);
        } else {
            map.push(TileType::Floor);
        }
        t = t + 1;
    }
    let mut i: i32 = 0;
    while i < 200
        invariant
            0 <= i <= 200,
            map@.len() == MAP_COUNT,
            forall|k: int| 0 <= k < MAP_COUNT && on_border(k) ==> map@[k] == TileType::Wall,
            forall|k: int| 0 <= k < MAP_COUNT ==> map@[k] == TileType::Wall || map@[k] == TileType::Floor,
            map@[index_of(40, 25)] == TileType::Floor,
        decreases 200 - i,
    {
        let x: i32 = roll_dice(rng, 1, MAX_X);
        let y: i32 = roll_dice(rng, 1, MAX_Y);
        let index: usize = xy_index(x, y);
        if index != xy_index(40, 25) {
            map[index] = TileType::Wall;
        }
        i = i + 1;
    }
    map
}

/// Movement cost of an orthogonal step, in hundredths of a tile.
pub const STRAIGHT_COST: u32 = 100;

/// Movement cost of a diagonal step, in hundredths of a tile.
pub const DIAGONAL_COST: u32 = 145;

/// One dungeon level: terrain, what the player has seen of it, and the
/// per-tile caches that the systems rebuild every turn.
pub struct TileMap {
    pub tiles: Vec<TileType>,
    pub rooms: Vec<Rect>,
    pub width: i32,
    pub height: i32,
    pub revealed_tiles: Vec<bool>,
    pub visible_tiles: Vec<bool>,
    pub blocked: Vec<bool>,
    pub depth: i32,
    pub bloodstains: HashSet<usize>,
    pub tile_content: Vec<Vec<Entity>>,
}

/// The mathematical content of a [`TileMap`].
pub struct MapView {
    pub tiles: Seq<TileType>,
    pub rooms: Seq<Rect>,
    pub width: int,
    pub height: int,
    pub revealed: Seq<bool>,
    pub visible: Seq<bool>,
    pub blocked: Seq<bool>,
    pub depth: int,
    pub bloodstains: Set<usize>,
    pub content: Seq<Seq<Entity>>,
}

impl MapView {
    /// All grids have one cell per tile of an 80 by 43 level.
    pub open spec fn wf(self) -> bool {
        &&& self.width == MAP_WIDTH
        &&& self.height == MAP_HEIGHT
        &&& self.tiles.len() == MAP_COUNT
        &&& self.revealed.len() == MAP_COUNT
        &&& self.visible.len() == MAP_COUNT
        &&& self.blocked.len() == MAP_COUNT
        &&& self.content.len() == MAP_COUNT
    }

    /// A step onto `(x, y)` is possible: the tile is on the grid and not
    /// blocked.
    pub open spec fn exit_valid(self, x: int, y: int) -> bool {
        0 <= x < self.width && 0 <= y < self.height && !self.blocked[index_of(x, y)]
    }

    /// The exits of tile `idx` in the order west, east, north, south, then
    /// the diagonals north-west, north-east, south-west, south-east, each
    /// with its cost in hundredths.
    pub open spec fn exits(self, idx: int) -> Seq<(usize, u32)> {
        let x = idx % (MAP_WIDTH as int);
        let y = idx / (MAP_WIDTH as int);
        let e0 = Seq::<(usize, u32)>::empty();
        let e1 = if self.exit_valid(x - 1, y) { e0.push(((idx - 1) as usize, STRAIGHT_COST)) } else { e0 };
        let e2 = if self.exit_valid(x + 1, y) { e1.push(((idx + 1) as usize, STRAIGHT_COST)) } else { e1 };
        let e3 = if self.exit_valid(x, y - 1) { e2.push(((idx - MAP_WIDTH) as usize, STRAIGHT_COST)) } else { e2 };
        let e4 = if self.exit_valid(x, y + 1) { e3.push(((idx + MAP_WIDTH) as usize, STRAIGHT_COST)) } else { e3 };
        let e5 = if self.exit_valid(x - 1, y - 1) { e4.push(((idx - MAP_WIDTH - 1) as usize, DIAGONAL_COST)) } else { e4 };
        let e6 = if self.exit_valid(x + 1, y - 1) { e5.push(((idx - MAP_WIDTH + 1) as usize, DIAGONAL_COST)) } else { e5 };
        let e7 = if self.exit_valid(x - 1, y + 1) { e6.push(((idx + MAP_WIDTH - 1) as usize, DIAGONAL_COST)) } else { e6 };
        let e8 = if self.exit_valid(x + 1, y + 1) { e7.push(((idx + MAP_WIDTH + 1) as usize, DIAGONAL_COST)) } else { e7 };
        e8
    }
}

impl View for TileMap {
    type V = MapView;

    open spec fn view(&self) -> MapView {
        MapView {
            tiles: self.tiles@,
            rooms: self.rooms@,
            width: self.width as int,
            height: self.height as int,
            revealed: self.revealed_tiles@,
            visible: self.visible_tiles@,
            blocked: self.blocked@,
            depth: self.depth as int,
            bloodstains: self.bloodstains@,
            content: Seq::new(self.tile_content@.len(), |i: int| self.tile_content@[i]@),
        }
    }
}

impl TileMap {
    /// See [`MapView::wf`].
    pub open spec fn wf(&self) -> bool {
        self@.wf()
    }

    /// A level of solid rock at the given depth, nothing seen, nothing
    /// blocked, no room.
    pub fn new(new_depth: i32) -> (m: TileMap)
        ensures
            m.wf(),
            m@.depth == new_depth,
            m@.rooms == Seq::<Rect>::empty(),
            m@.bloodstains == Set::<usize>::empty(),
            forall|i: int| 0 <= i < MAP_COUNT ==> m@.tiles[i] == TileType::Wall,
            forall|i: int| 0 <= i < MAP_COUNT ==> !m@.revealed[i],
            forall|i: int| 0 <= i < MAP_COUNT ==> !m@.visible[i],
            forall|i: int| 0 <= i < MAP_COUNT ==> !m@.blocked[i],
            forall|i: int| 0 <= i < MAP_COUNT ==> m@.content[i] == Seq::<Entity>::empty(),
            m@ == blank(m@.tiles, m@.rooms, new_depth as int),
    {
        let mut tiles: Vec<TileType> = Vec::new();
        let mut revealed: Vec<bool> = Vec::new();
        let mut visible: Vec<bool> = Vec::new();
        let mut blocked: Vec<bool> = Vec::new();
        let mut content: Vec<Vec<Entity>> = Vec::new();
        let mut i: i32 = 0;
        while i < MAP_COUNT
            invariant
                0 <= i <= MAP_COUNT,
                tiles@.len() == i,
                revealed@.len() == i,
                visible@.len() == i,
                blocked@.len() == i,
                content@.len() == i,
                forall|j: int| 0 <= j < i ==> tiles@[j] == TileType::Wall,
                forall|j: int| 0 <= j < i ==> !revealed@[j],
                forall|j: int| 0 <= j < i ==> !visible@[j],
                forall|j: int| 0 <= j < i ==> !blocked@[j],
                forall|j: int| 0 <= j < i ==> content@[j]@ == Seq::<Entity>::empty(),
            decreases MAP_COUNT - i,
        {
            tiles.push(TileType::Wall);
            revealed.push(false);
            visible.push(false);
            blocked.push(false);
            content.push(Vec::new());
            i = i + 1;
        }
        let m = TileMap {
            tiles,
            rooms: Vec::new(),
            width: MAP_WIDTH,
            height: MAP_HEIGHT,
            revealed_tiles: revealed,
            visible_tiles: visible,
            blocked,
            depth: new_depth,
            bloodstains: HashSet::new(),
            tile_content: content,
        };
        assert(m@.revealed =~= nowhere());
        assert(m@.visible =~= nowhere());
        assert(m@.blocked =~= nowhere());
        assert(m@.content =~= no_content());
        m
    }

    /// Whether the grids of the map have the size of a level.
    pub fn is_wf(&self) -> (b: bool)
        ensures
            b == self.wf(),
    {
        self.width == MAP_WIDTH && self.height == MAP_HEIGHT && self.tiles.len() == 3440
            && self.revealed_tiles.len() == 3440 && self.visible_tiles.len() == 3440
            && self.blocked.len() == 3440 && self.tile_content.len() == 3440
    }

    /// Index of the tile at `(x, y)`, which must not be negative.
    pub fn xy_idx(&self, x: i32, y: i32) -> (idx: usize)
        requires
            self.width == MAP_WIDTH,
            0 <= x,
            0 <= y,
            index_of(x as int, y as int) <= usize::MAX,
        ensures
            idx == index_of(x as int, y as int),
    {
        (y as usize * self.width as usize) + x as usize
    }

    /// Index of the tile at `p`, if `p` lies on the grid.
    pub fn checked_idx(&self, p: Point) -> (r: Option<usize>)
        ensures
            r == point_index(p),
    {
        if 0 <= p.x && p.x < MAP_WIDTH && 0 <= p.y && p.y < MAP_HEIGHT {
            Some((p.y as usize * MAP_WIDTH as usize) + p.x as usize)
        } else {
            None
        }
    }

    /// The coordinates of tile `idx`.
    pub fn idx_point(&self, idx: usize) -> (p: Point)
        requires
            idx < MAP_COUNT,
        ensures
            p == index_point(idx as int),
            in_bounds(p.x as int, p.y as int),
            index_of(p.x as int, p.y as int) == idx,
    {
        let x: usize = idx % 80;
        let y: usize = idx / 80;
        assert(idx < 3440);
        assert(x < 80);
        assert(y < 43);
        assert(y * 80 + x == idx);
        Point { x: x as i32, y: y as i32 }
    }

    /// A wall stops the line of sight.
    pub fn is_opaque(&self, idx: usize) -> (b: bool)
        requires
            idx < self.tiles@.len(),
        ensures
            b == (self@.tiles[idx as int] == TileType::Wall),
    {
        self.tiles[idx] == TileType::Wall
    }

    /// Whether a step onto `(x, y)` is possible.
    pub fn is_exit_valid(&self, x: i32, y: i32) -> (b: bool)
        requires
            self.wf(),
        ensures
            b == self@.exit_valid(x as int, y as int),
    {
        if x < 0 || x >= self.width || y < 0 || y >= self.height {
            return false;
        }
        let idx = self.xy_idx(x, y);
        !self.blocked[idx]
    }

    /// The tiles that can be entered from tile `idx` in one step, with the
    /// cost of each step in hundredths: 100 for the four orthogonal
    /// neighbours, 145 for the four diagonal ones.
    pub fn get_available_exits(&self, idx: usize) -> (exits: Vec<(usize, u32)>)
        requires
            self.wf(),
            idx < MAP_COUNT,
        ensures
            exits@ == self@.exits(idx as int),
    {
        let mut exits: Vec<(usize, u32)> = Vec::new();
        let x: i32 = (idx % (MAP_WIDTH as usize)) as i32;
        let y: i32 = (idx / (MAP_WIDTH as usize)) as i32;
        let w: usize = MAP_WIDTH as usize;
        if self.is_exit_valid(x - 1, y) {
            exits.push((idx - 1, STRAIGHT_COST));
        }
        if self.is_exit_valid(x + 1, y) {
            exits.push((idx + 1, STRAIGHT_COST));
        }
        if self.is_exit_valid(x, y - 1) {
            exits.push((idx - w, STRAIGHT_COST));
        }
        if self.is_exit_valid(x, y + 1) {
            exits.push((idx + w, STRAIGHT_COST));
        }
        if self.is_exit_valid(x - 1, y - 1) {
            exits.push(((idx - w) - 1, DIAGONAL_COST));
        }
        if self.is_exit_valid(x + 1, y - 1) {
            exits.push(((idx - w) + 1, DIAGONAL_COST));
        }
        if self.is_exit_valid(x - 1, y + 1) {
            exits.push(((idx + w) - 1, DIAGONAL_COST));
        }
        if self.is_exit_valid(x + 1, y + 1) {
            exits.push(((idx + w) + 1, DIAGONAL_COST));
        }
        exits
    }

    /// Squared Euclidean distance between two tiles, the square of the
    /// heuristic that path searches on this map use.
    pub fn pathing_distance_squared(&self, idx1: usize, idx2: usize) -> (d: i128)
        requires
            idx1 < MAP_COUNT,
            idx2 < MAP_COUNT,
        ensures
            d == index_point(idx1 as int).dist2(index_point(idx2 as int)),
    {
        let p1 = self.idx_point(idx1);
        let p2 = self.idx_point(idx2);
        p1.distance_squared(&p2)
    }

    /// Marks as blocked exactly the wall tiles.
    pub fn populate_blocked(&mut self)
        requires
            old(self).wf(),
        ensures
            final(self)@ == (MapView { blocked: walls(old(self)@.tiles), ..old(self)@ }),
    {
        let mut i: usize = 0;
        while i < self.blocked.len()
            invariant
                self.wf(),
                0 <= i <= MAP_COUNT,
                self@ == (MapView { blocked: self@.blocked, ..old(self)@ }),
                forall|j: int| 0 <= j < i ==> self@.blocked[j] == (self@.tiles[j] == TileType::Wall),
            decreases MAP_COUNT - i,
        {
            let wall = self.tiles[i] == TileType::Wall;
            self.blocked[i] = wall;
            i = i + 1;
        }
        assert(self@.blocked =~= walls(old(self)@.tiles));
    }

    /// Empties the list of occupants of every tile.
    pub fn clear_content_index(&mut self)
        requires
            old(self).wf(),
        ensures
            final(self)@ == (MapView { content: no_content(), ..old(self)@ }),
    {
        let mut i: usize = 0;
        while i < self.tile_content.len()
            invariant
                self.wf(),
                0 <= i <= MAP_COUNT,
                self@ == (MapView { content: self@.content, ..old(self)@ }),
                forall|j: int| 0 <= j < i ==> self@.content[j] == Seq::<Entity>::empty(),
            decreases MAP_COUNT - i,
        {
            let ghost before = self@.content;
            self.tile_content[i].clear();
            assert forall|j: int| 0 <= j < i + 1 implies self@.content[j] == Seq::<Entity>::empty() by {
                if j < i {
                    assert(self@.content[j] == before[j]);
                }
            }
            i = i + 1;
        }
        assert(self@.content =~= no_content());
    }
}

/// The grid of flags of which none is set.
pub open spec fn nowhere() -> Seq<bool> {
    Seq::new(MAP_COUNT as nat, |i: int| false)
}

/// The map with the given tiles and rooms of which nothing is seen,
/// nothing blocked, nothing stained and nothing occupied.
pub open spec fn blank(tiles: Seq<TileType>, rooms: Seq<Rect>, depth: int) -> MapView {
    MapView {
        tiles,
        rooms,
        width: MAP_WIDTH as int,
        height: MAP_HEIGHT as int,
        revealed: nowhere(),
        visible: nowhere(),
        blocked: nowhere(),
        depth,
        bloodstains: Set::empty(),
        content: no_content(),
    }
}

/// The blocked grid that marks exactly the walls of `tiles`.
pub open spec fn walls(tiles: Seq<TileType>) -> Seq<bool> {
    Seq::new(tiles.len(), |i: int| tiles[i] == TileType::Wall)
}

/// The content index in which no tile has an occupant.
pub open spec fn no_content() -> Seq<Seq<Entity>> {
    Seq::new(MAP_COUNT as nat, |i: int| Seq::<Entity>::empty())
}

/// Index of the tile at `p`, if `p` lies on the grid.
pub open spec fn point_index(p: Point) -> Option<usize> {
    if in_bounds(p.x as int, p.y as int) {
        Some(index_of(p.x as int, p.y as int) as usize)
    } else {
        None
    }
}

/// The coordinates of tile `idx`.
pub open spec fn index_point(idx: int) -> Point {
    Point { x: (idx % (MAP_WIDTH as int)) as i32, y: (idx / (MAP_WIDTH as int)) as i32 }
}

} // verus!
