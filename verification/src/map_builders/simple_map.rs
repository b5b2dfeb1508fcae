//! Rooms and corridors: the one way in which levels are made.

use vstd::prelude::*;
use rltk::RandomNumberGenerator;
use crate::components::Position;
use crate::dice::{range, roll_dice};
use crate::map::{blank, index_of, MapView, TileMap, TileType};
use crate::map_builders::common::{
    apply_horizontal_tunnel, apply_room_to_map, apply_vertical_tunnel, carve, h_tunnel, v_tunnel,
};
use crate::map_builders::MapBuilder;
use crate::rect::Rect;
use crate::spawner::{
    depth_in_range, lemma_spawn_concat, lemma_spawn_frame, room_floor, spawn_all, spawn_count,
    spawn_room, MAX_SPAWNS,
};
use crate::world::World;
use crate::{MAP_COUNT, MAP_HEIGHT, MAP_WIDTH};

verus! {

/// How many rooms are tried for one level.
pub const MAX_ROOMS: i32 = 30;

/// Smallest width and height of a room.
pub const MIN_SIZE: i32 = 6;

/// Width and height of a room stay below this.
pub const MAX_SIZE: i32 = 10;

/// The grid of solid rock.
pub open spec fn rock() -> Seq<TileType> {
    Seq::new(MAP_COUNT as nat, |t: int| TileType::Wall)
}

/// Whether `room` leaves the border of the map alone and has an inside
/// that holds its center.
pub open spec fn roomy(room: Rect) -> bool {
    &&& 0 <= room.x1
    &&& room.x1 + 2 <= room.x2 <= MAP_WIDTH - 2
    &&& 0 <= room.y1
    &&& room.y1 + 2 <= room.y2 <= MAP_HEIGHT - 2
}

/// Whether `room` intersects none of `rooms`.
pub open spec fn fits(rooms: Seq<Rect>, room: Rect) -> bool {
    forall|i: int| 0 <= i < rooms.len() ==> !room.overlaps(#[trigger] rooms[i])
}

/// Whether no two of `rooms` intersect.
pub open spec fn disjoint(rooms: Seq<Rect>) -> bool {
    forall|i: int, j: int|
        0 <= i < j < rooms.len() ==> !(#[trigger] rooms[i]).overlaps(#[trigger] rooms[j])
}

/// The grid with an L-shaped corridor between two points: along the row
/// of `from` and then the column of `to` if `horizontal_first`, else along
/// the column of `from` and then the row of `to`.
pub open spec fn corridor(
    tiles: Seq<TileType>,
    from: (int, int),
    to: (int, int),
    horizontal_first: bool,
) -> Seq<TileType> {
    if horizontal_first {
        v_tunnel(h_tunnel(tiles, from.0, to.0, from.1), from.1, to.1, to.0)
    } else {
        h_tunnel(v_tunnel(tiles, from.1, to.1, from.0), from.0, to.0, to.1)
    }
}

/// The grid after `room` was added to a level that has the rooms `before`:
/// its inside is carved, and unless it is the first room a corridor joins
/// the center of the last room to its center.
pub open spec fn with_room(
    tiles: Seq<TileType>,
    before: Seq<Rect>,
    room: Rect,
    horizontal_first: bool,
) -> Seq<TileType> {
    if before.len() == 0 {
        carve(tiles, room)
    } else {
        corridor(carve(tiles, room), before.last().mid(), room.mid(), horizontal_first)
    }
}

/// The grid dug out of solid rock by adding the first `n` of `rooms` one
/// after the other, `coins[i]` telling which way the corridor to room `i`
/// bends.
pub open spec fn dig(rooms: Seq<Rect>, coins: Seq<bool>, n: int) -> Seq<TileType>
    decreases n,
{
    if n <= 0 {
        rock()
    } else {
        with_room(dig(rooms, coins, n - 1), rooms.take(n - 1), rooms[n - 1], coins[n - 1])
    }
}

/// The tile index of the center of `room`.
pub open spec fn center_index(room: Rect) -> int {
    index_of(room.mid().0, room.mid().1)
}

/// Builds a level of rooms joined by corridors.
pub struct SimpleMapBuilder {
    pub map: TileMap,
    pub starting_position: Position,
    pub depth: i32,
    /// The grid after each step of the digging, for showing how the
    /// level came about.
    pub history: Vec<Vec<TileType>>,
    /// Which way the corridor to each room bends.
    pub coins: Ghost<Seq<bool>>,
}

impl SimpleMapBuilder {
    /// The grids that were recorded.
    pub open spec fn steps(&self) -> Seq<Seq<TileType>> {
        Seq::new(self.history@.len(), |k: int| self.history@[k]@)
    }

    /// Whether the record holds two grids for each room, in the order of
    /// the rooms: the grid after the room was carved, and the grid after
    /// it was joined to the room before.
    pub open spec fn recorded(&self) -> bool {
        &&& self.steps().len() == 2 * self.map@.rooms.len()
        &&& forall|k: int|
            0 <= k < self.map@.rooms.len() ==> #[trigger] self.steps()[2 * k] == carve(
                dig(self.map@.rooms, self.coins@, k),
                self.map@.rooms[k],
            ) && self.steps()[2 * k + 1] == dig(self.map@.rooms, self.coins@, k + 1)
    }

    /// The state that the digging keeps: the grids of the map have their
    /// size, every room leaves the border alone, no two rooms intersect,
    /// the tiles are what [`dig`] makes of the rooms, and every step is
    /// recorded.
    pub open spec fn sound(&self) -> bool {
        &&& self.recorded()
        &&& self.map.wf()
        &&& self.map@ == blank(self.map@.tiles, self.map@.rooms, self.depth as int)
        &&& self.coins@.len() == self.map@.rooms.len()
        &&& forall|i: int| 0 <= i < self.map@.rooms.len() ==> roomy(#[trigger] self.map@.rooms[i])
        &&& disjoint(self.map@.rooms)
        &&& self.map@.tiles == dig(self.map@.rooms, self.coins@, self.map@.rooms.len() as int)
    }

    /// A builder for a level at `depth`, with nothing dug yet.
    pub fn new(depth: i32) -> (b: SimpleMapBuilder)
        ensures
            b.sound(),
            b.map@.rooms.len() == 0,
            b.map@.depth == depth,
            b.depth == depth,
            b.history@.len() == 0,
    {
        let b = SimpleMapBuilder {
            map: TileMap::new(depth),
            starting_position: Position { x: 0, y: 0 },
            depth,
            history: Vec::new(),
            coins: Ghost(Seq::empty()),
        };
        assert(b.map@.tiles =~= rock());
        b
    }

    /// Whether `room` intersects none of the rooms dug so far.
    pub fn has_space_for(&self, room: &Rect) -> (b: bool)
        ensures
            b == fits(self.map@.rooms, *room),
    {
        let mut k: usize = 0;
        while k < self.map.rooms.len()
            invariant
                k <= self.map@.rooms.len(),
                forall|i: int| 0 <= i < k ==> !room.overlaps(#[trigger] self.map@.rooms[i]),
            decreases self.map@.rooms.len() - k,
        {
            if room.intersect(&self.map.rooms[k]) {
                return false;
            }
            k = k + 1;
        }
        true
    }

    fn take_snapshot(&mut self)
        ensures
            final(self).map == old(self).map,
            final(self).coins == old(self).coins,
            final(self).depth == old(self).depth,
            final(self).starting_position == old(self).starting_position,
            final(self).history@.len() == old(self).history@.len() + 1,
            final(self).history@.last()@ == old(self).map@.tiles,
            forall|k: int| 0 <= k < old(self).history@.len() ==> final(self).history@[k] == old(self).history@[k],
    {
        let mut copy: Vec<TileType> = Vec::new();
        let mut k: usize = 0;
        while k < self.map.tiles.len()
            invariant
                k <= self.map.tiles@.len(),
                copy@ == self.map.tiles@.take(k as int),
                self.map == old(self).map,
            decreases self.map.tiles@.len() - k,
        {
            copy.push(self.map.tiles[k]);
            assert(copy@ =~= self.map.tiles@.take(k + 1));
            k = k + 1;
        }
        assert(self.map.tiles@.take(k as int) =~= self.map.tiles@);
        self.history.push(copy);
    }

    /// Adds `room` to the level if it intersects none of the rooms dug so
    /// far, and says whether it did. The inside of the room is carved,
    /// and unless it is the first room a corridor is dug from the center
    /// of the room added last to its center, bending as
    /// `horizontal_first` tells. The grid is recorded after the carving
    /// and after the corridor.
    pub fn place_room(&mut self, room: Rect, horizontal_first: bool) -> (placed: bool)
        requires
            old(self).sound(),
            roomy(room),
        ensures
            final(self).sound(),
            placed == fits(old(self).map@.rooms, room),
            final(self).depth == old(self).depth,
            final(self).starting_position == old(self).starting_position,
            !placed ==> final(self).map@ == old(self).map@ && final(self).history@ == old(self).history@,
            placed ==> final(self).map@ == (MapView {
                rooms: old(self).map@.rooms.push(room),
                tiles: with_room(old(self).map@.tiles, old(self).map@.rooms, room, horizontal_first),
                ..old(self).map@
            }),
            placed ==> final(self).steps() == old(self).steps().push(
                carve(old(self).map@.tiles, room),
            ).push(final(self).map@.tiles),
    {
        if !self.has_space_for(&room) {
            return false;
        }
        apply_room_to_map(&mut self.map, &room);
        self.take_snapshot();
        if self.map.rooms.len() > 0 {
            let (new_x, new_y) = room.center();
            let (prev_x, prev_y) = self.map.rooms[self.map.rooms.len() - 1].center();
            if horizontal_first {
                apply_horizontal_tunnel(&mut self.map, prev_x, new_x, prev_y);
                apply_vertical_tunnel(&mut self.map, prev_y, new_y, new_x);
            } else {
                apply_vertical_tunnel(&mut self.map, prev_y, new_y, prev_x);
                apply_horizontal_tunnel(&mut self.map, prev_x, new_x, new_y);
            }
        }
        self.map.rooms.push(room);
        proof {
            self.coins@ = old(self).coins@.push(horizontal_first);
        }
        self.take_snapshot();
        proof {
            let rooms = self.map@.rooms;
            let n = rooms.len() as int;
            assert(rooms.take(n - 1) =~= old(self).map@.rooms);
            lemma_dig_prefix(old(self).map@.rooms, old(self).coins@, rooms, self.coins@, n - 1);
            assert(self.steps() =~= old(self).steps().push(
                carve(old(self).map@.tiles, room),
            ).push(self.map@.tiles));
            assert forall|k: int| 0 <= k < rooms.len() implies #[trigger] self.steps()[2 * k] == carve(
                dig(rooms, self.coins@, k),
                rooms[k],
            ) && self.steps()[2 * k + 1] == dig(rooms, self.coins@, k + 1) by {
                lemma_dig_prefix(old(self).map@.rooms, old(self).coins@, rooms, self.coins@, k);
                if k < n - 1 {
                    lemma_dig_prefix(old(self).map@.rooms, old(self).coins@, rooms, self.coins@, k + 1);
                    assert(old(self).steps()[2 * k] == self.steps()[2 * k]);
                    assert(old(self).steps()[2 * k + 1] == self.steps()[2 * k + 1]);
                }
            }
            assert(self.recorded());
            assert forall|i: int, j: int| 0 <= i < j < rooms.len() implies !(#[trigger] rooms[i]).overlaps(
                #[trigger] rooms[j],
            ) by {
                if j == n - 1 {
                    assert(!room.overlaps(old(self).map@.rooms[i]));
                } else {
                    assert(rooms[i] == old(self).map@.rooms[i] && rooms[j] == old(self).map@.rooms[j]);
                }
            }
        }
        true
    }
}

/// Digging the first `n` rooms depends on these rooms and their coins
/// alone.
pub proof fn lemma_dig_prefix(r1: Seq<Rect>, c1: Seq<bool>, r2: Seq<Rect>, c2: Seq<bool>, n: int)
    requires
        0 <= n <= r1.len(),
        n <= r2.len(),
        forall|k: int| 0 <= k < n ==> r1[k] == r2[k] && c1[k] == c2[k],
    ensures
        dig(r1, c1, n) == dig(r2, c2, n),
    decreases n,
{
    if n > 0 {
        lemma_dig_prefix(r1, c1, r2, c2, n - 1);
        assert(r1.take(n - 1) =~= r2.take(n - 1));
    }
}

/// Whether `room` has a width and a height of at least 6 and less than
/// 10.
pub open spec fn sized(room: Rect) -> bool {
    MIN_SIZE <= room.x2 - room.x1 < MAX_SIZE && MIN_SIZE <= room.y2 - room.y1 < MAX_SIZE
}

impl SimpleMapBuilder {
    /// What a finished level is: every step of the digging is recorded;
    /// the grids of the map have their size;
    /// there are 1 to 30 rooms, each of the size of a room and off the
    /// border, no two of which intersect; the tiles are what [`dig`]
    /// makes of the rooms, with the stairs down in the center of the last
    /// room; and the player starts in the center of the first.
    pub open spec fn finished(&self) -> bool {
        &&& self.recorded()
        &&& self.map.wf()
        &&& self.map@ == blank(self.map@.tiles, self.map@.rooms, self.depth as int)
        &&& 1 <= self.map@.rooms.len() <= MAX_ROOMS
        &&& self.coins@.len() == self.map@.rooms.len()
        &&& forall|i: int|
            0 <= i < self.map@.rooms.len() ==> roomy(#[trigger] self.map@.rooms[i]) && sized(
                self.map@.rooms[i],
            )
        &&& disjoint(self.map@.rooms)
        &&& self.map@.tiles == dig(self.map@.rooms, self.coins@, self.map@.rooms.len() as int).update(
            center_index(self.map@.rooms.last()),
            TileType::DownStairs,
        )
        &&& self.starting_position.x == self.map@.rooms[0].mid().0
        &&& self.starting_position.y == self.map@.rooms[0].mid().1
    }

    /// Digs the level: up to 30 times a room of random size at a random
    /// place is tried and added if it intersects none of the rooms dug
    /// before; then the stairs down are put into the center of the room
    /// added last. Which rooms are tried and how the corridors bend is up
    /// to `rng`; whatever it gives, the level is finished.
    pub fn rooms_and_corridors(&mut self, rng: &mut RandomNumberGenerator)
        requires
            old(self).sound(),
            old(self).map@.rooms.len() == 0,
        ensures
            final(self).finished(),
            final(self).depth == old(self).depth,
            final(self).map@ == (MapView {
                rooms: final(self).map@.rooms,
                tiles: final(self).map@.tiles,
                ..old(self).map@
            }),
    {
        let mut i: i32 = 0;
        while i < MAX_ROOMS
            invariant
                0 <= i <= MAX_ROOMS,
                self.sound(),
                self.map@.rooms.len() <= i,
                i > 0 ==> self.map@.rooms.len() >= 1,
                forall|k: int| 0 <= k < self.map@.rooms.len() ==> sized(#[trigger] self.map@.rooms[k]),
                self.depth == old(self).depth,
                self.map@ == (MapView {
                    rooms: self.map@.rooms,
                    tiles: self.map@.tiles,
                    ..old(self).map@
                }),
            decreases MAX_ROOMS - i,
        {
            let w: i32 = range(rng, MIN_SIZE, MAX_SIZE);
            let h: i32 = range(rng, MIN_SIZE, MAX_SIZE);
            let x: i32 = roll_dice(rng, 1, MAP_WIDTH - w - 1) - 1;
            let y: i32 = roll_dice(rng, 1, MAP_HEIGHT - h - 1) - 1;
            let new_room = Rect::new(x, y, w, h);
            if self.has_space_for(&new_room) {
                let mut horizontal_first = false;
                if self.map.rooms.len() > 0 {
                    horizontal_first = range(rng, 0, 2) == 1;
                }
                let ghost before = self.map@.rooms;
                self.place_room(new_room, horizontal_first);
                assert forall|k: int| 0 <= k < self.map@.rooms.len() implies sized(
                    #[trigger] self.map@.rooms[k],
                ) by {
                    if k < before.len() {
                        assert(self.map@.rooms[k] == before[k]);
                    }
                }
            }
            i = i + 1;
        }
        let last = self.map.rooms[self.map.rooms.len() - 1];
        let stairs_position = last.center();
        let stairs_idx = self.map.xy_idx(stairs_position.0, stairs_position.1);
        self.map.tiles[stairs_idx] = TileType::DownStairs;
        let start_pos = self.map.rooms[0].center();
        self.starting_position = Position { x: start_pos.0, y: start_pos.1 };
    }
}

fn copy_tiles(tiles: &Vec<TileType>) -> (copy: Vec<TileType>)
    ensures
        copy@ == tiles@,
{
    let mut copy: Vec<TileType> = Vec::new();
    let mut k: usize = 0;
    while k < tiles.len()
        invariant
            k <= tiles@.len(),
            copy@ == tiles@.take(k as int),
        decreases tiles@.len() - k,
    {
        copy.push(tiles[k]);
        assert(copy@ =~= tiles@.take(k + 1));
        k = k + 1;
    }
    assert(tiles@.take(k as int) =~= tiles@);
    copy
}

fn copy_rooms(rooms: &Vec<Rect>) -> (copy: Vec<Rect>)
    ensures
        copy@ == rooms@,
{
    let mut copy: Vec<Rect> = Vec::new();
    let mut k: usize = 0;
    while k < rooms.len()
        invariant
            k <= rooms@.len(),
            copy@ == rooms@.take(k as int),
        decreases rooms@.len() - k,
    {
        copy.push(rooms[k]);
        assert(copy@ =~= rooms@.take(k + 1));
        k = k + 1;
    }
    assert(rooms@.take(k as int) =~= rooms@);
    copy
}

impl MapBuilder for SimpleMapBuilder {
    open spec fn fresh(&self) -> bool {
        self.sound() && self.map@.rooms.len() == 0 && depth_in_range(self.depth as int)
    }

    open spec fn built(&self) -> bool {
        self.finished() && depth_in_range(self.depth as int)
    }

    open spec fn level(&self) -> MapView {
        self.map@
    }

    open spec fn start(&self) -> Position {
        self.starting_position
    }

    open spec fn record(&self) -> Seq<Seq<TileType>> {
        self.steps()
    }

    fn build_map(&mut self, rng: &mut RandomNumberGenerator)
        ensures
            final(self).depth == old(self).depth,
    {
        self.rooms_and_corridors(rng);
    }

    /// Fills every room but the first, in which the player starts. What
    /// is made is what [`spawn_all`] makes of some list of picks.
    fn spawn_entities(&mut self, ecs: &mut World)
        ensures
            *final(self) == *old(self),
            exists|picks: Seq<(usize, Seq<char>)>|
                #[trigger] spawn_all(old(ecs)@, picks, picks.len() as int) == final(ecs)@,
    {
        let mut k: usize = 1;
        let ghost mut made: Seq<(usize, Seq<char>)> = Seq::empty();
        while k < self.map.rooms.len()
            invariant
                1 <= k,
                self.built(),
                ecs.wf(),
                ecs@.map == old(ecs)@.map,
                ecs@.fault == old(ecs)@.fault,
                *self == *old(self),
                ecs@ == spawn_all(old(ecs)@, made, made.len() as int),
            decreases self.map.rooms@.len() - k,
        {
            let room = self.map.rooms[k];
            assert(roomy(self.map@.rooms[k as int]));
            let ghost before = ecs@;
            spawn_room(ecs, &room, self.depth);
            proof {
                let (picks, roll) = choose|picks: Seq<(usize, Seq<char>)>, roll: int|
                    #[trigger] spawn_all(before, picks, picks.len() as int) == ecs@ && 1 <= roll
                        <= MAX_SPAWNS + 3 && picks.len() == #[trigger] spawn_count(
                        room_floor(before.map.tiles, room).len() as int,
                        roll,
                        self.depth as int,
                    );
                lemma_spawn_frame(before, picks, picks.len() as int);
                lemma_spawn_concat(old(ecs)@, made, picks, picks.len() as int);
                made = made + picks;
            }
            k = k + 1;
        }
        assert(spawn_all(old(ecs)@, made, made.len() as int) == ecs@);
    }

    fn get_map(&mut self) -> (map: TileMap)
        ensures
            *final(self) == *old(self),
    {
        let mut map = TileMap::new(self.depth);
        map.tiles = copy_tiles(&self.map.tiles);
        map.rooms = copy_rooms(&self.map.rooms);
        map
    }

    fn get_starting_position(&mut self) -> (start: Position)
        ensures
            *final(self) == *old(self),
    {
        self.starting_position
    }

    fn get_snapshot_history(&self) -> (history: Vec<Vec<TileType>>) {
        let mut history: Vec<Vec<TileType>> = Vec::new();
        let mut k: usize = 0;
        while k < self.history.len()
            invariant
                k <= self.history@.len(),
                history@.len() == k,
                forall|j: int| 0 <= j < k ==> (#[trigger] history@[j])@ == self.history@[j]@,
            decreases self.history@.len() - k,
        {
            history.push(copy_tiles(&self.history[k]));
            k = k + 1;
        }
        assert(Seq::new(history@.len(), |k: int| history@[k]@) =~= self.steps());
        history
    }
}

} // verus!
