//! What the menus and the targeting cursor decide. Drawing them is not
//! done here.

use vstd::prelude::*;
use crate::components::{Color, GRAY65};
use crate::map::point_index;
use crate::player::Key;
use crate::rect::{contains_point, Point};
use crate::world::{Entity, World, WorldView};

verus! {

/// What the player did with a menu.
#[derive(Clone, Copy, PartialEq, Eq, Debug, Structural)]
pub enum ItemMenuResult {
    Cancel,
    NoResponse,
    Selected,
}

/// Whether entity `i` is listed in the inventory of the player: the
/// player carries it, and it has a name and an appearance.
pub open spec fn carried(w: WorldView, i: int) -> bool {
    w.in_inventory.contains_key(i) && w.names.contains_key(i) && w.renderables.contains_key(i)
        && w.in_inventory[i].owner == w.player
}

/// Whether entity `i` is listed among what the player wears: the player
/// has it equipped, and it has a name.
pub open spec fn worn(w: WorldView, i: int) -> bool {
    w.equipped.contains_key(i) && w.names.contains_key(i) && w.equipped[i].owner == w.player
}

/// The entities with index below `n` that the player carries, in the
/// order of their indices.
pub open spec fn backpack(w: WorldView, n: int) -> Seq<Entity>
    decreases n,
{
    if n <= 0 {
        Seq::empty()
    } else if carried(w, n - 1) {
        backpack(w, n - 1).push(Entity { index: (n - 1) as usize })
    } else {
        backpack(w, n - 1)
    }
}

/// The entities with index below `n` that the player wears, in the order
/// of their indices.
pub open spec fn outfit(w: WorldView, n: int) -> Seq<Entity>
    decreases n,
{
    if n <= 0 {
        Seq::empty()
    } else if worn(w, n - 1) {
        outfit(w, n - 1).push(Entity { index: (n - 1) as usize })
    } else {
        outfit(w, n - 1)
    }
}

/// The items that the inventory and the drop menu list, in their order.
pub fn inventory_of(world: &World) -> (items: Vec<Entity>)
    ensures
        items@ == backpack(world@, world@.capacity()),
{
    let n: usize = world.capacity();
    let mut items: Vec<Entity> = Vec::new();
    let mut i: usize = 0;
    while i < n
        invariant
            i <= n,
            n == world@.capacity(),
            items@ == backpack(world@, i as int),
        decreases n - i,
    {
        let e = Entity { index: i };
        if world.names.contains(e) && world.renderables.contains(e) {
            if let Some(pack) = world.in_inventory.get(e) {
                if pack.owner == world.player {
                    items.push(e);
                }
            }
        }
        i = i + 1;
    }
    items
}

/// The items that the remove menu lists, in their order.
pub fn equipment_of(world: &World) -> (items: Vec<Entity>)
    ensures
        items@ == outfit(world@, world@.capacity()),
{
    let n: usize = world.capacity();
    let mut items: Vec<Entity> = Vec::new();
    let mut i: usize = 0;
    while i < n
        invariant
            i <= n,
            n == world@.capacity(),
            items@ == outfit(world@, i as int),
        decreases n - i,
    {
        let e = Entity { index: i };
        if world.names.contains(e) {
            if let Some(gear) = world.equipped.get(e) {
                if gear.owner == world.player {
                    items.push(e);
                }
            }
        }
        i = i + 1;
    }
    items
}

/// What a key press means in a menu that lists `items`, where `selection`
/// is the place in the alphabet of the letter pressed, counting from 0,
/// or -1 for a key that is no letter. Without a key there is no response;
/// Escape cancels; the letter of a listed item selects it; any other key
/// is no response.
pub open spec fn menu_choice(items: Seq<Entity>, key: Option<Key>, selection: int) -> (
    ItemMenuResult,
    Option<Entity>,
) {
    match key {
        None => (ItemMenuResult::NoResponse, None),
        Some(Key::Escape) => (ItemMenuResult::Cancel, None),
        Some(_) => if -1 < selection < items.len() {
            (ItemMenuResult::Selected, Some(items[selection]))
        } else {
            (ItemMenuResult::NoResponse, None)
        },
    }
}

/// Reads a key press in a menu that lists `items`.
pub fn choose_item(items: &Vec<Entity>, key: Option<Key>, selection: i32) -> (r: (
    ItemMenuResult,
    Option<Entity>,
))
    ensures
        r == menu_choice(items@, key, selection as int),
{
    match key {
        None => (ItemMenuResult::NoResponse, None),
        Some(Key::Escape) => (ItemMenuResult::Cancel, None),
        Some(_) => {
            if selection > -1 && (selection as usize) < items.len() {
                (ItemMenuResult::Selected, Some(items[selection as usize]))
            } else {
                (ItemMenuResult::NoResponse, None)
            }
        },
    }
}

/// Reads a key press in the inventory.
pub fn show_inventory(world: &World, key: Option<Key>, selection: i32) -> (r: (
    ItemMenuResult,
    Option<Entity>,
))
    ensures
        r == menu_choice(backpack(world@, world@.capacity()), key, selection as int),
{
    let items = inventory_of(world);
    choose_item(&items, key, selection)
}

/// Reads a key press in the menu of items to drop.
pub fn drop_item_menu(world: &World, key: Option<Key>, selection: i32) -> (r: (
    ItemMenuResult,
    Option<Entity>,
))
    ensures
        r == menu_choice(backpack(world@, world@.capacity()), key, selection as int),
{
    let items = inventory_of(world);
    choose_item(&items, key, selection)
}

/// Reads a key press in the menu of items to take off.
pub fn remove_item_menu(world: &World, key: Option<Key>, selection: i32) -> (r: (
    ItemMenuResult,
    Option<Entity>,
))
    ensures
        r == menu_choice(outfit(world@, world@.capacity()), key, selection as int),
{
    let items = equipment_of(world);
    choose_item(&items, key, selection)
}

/// Whether `p` is no farther from `from` than `range`.
pub open spec fn within(from: Point, p: Point, range: int) -> bool {
    range >= 0 && from.dist2(p) <= range * range
}

/// The tiles among the first `k` of `tiles` that are within `range` of
/// `from`, in their order.
pub open spec fn cells_in_range(from: Point, tiles: Seq<Point>, range: int, k: int) -> Seq<Point>
    decreases k,
{
    if k <= 0 {
        Seq::empty()
    } else if within(from, tiles[k - 1], range) {
        cells_in_range(from, tiles, range, k - 1).push(tiles[k - 1])
    } else {
        cells_in_range(from, tiles, range, k - 1)
    }
}

/// The tiles that can be targeted with an item of the given range: those
/// that the player sees and that are no farther from it than the range.
pub open spec fn targets_in_range(w: WorldView, range: int) -> Seq<Point> {
    if w.viewsheds.contains_key(w.player.index as int) {
        let tiles = w.viewsheds[w.player.index as int].visible_tiles;
        cells_in_range(w.player_pos, tiles, range, tiles.len() as int)
    } else {
        Seq::empty()
    }
}

fn close_enough(from: &Point, p: &Point, range: i32) -> (b: bool)
    ensures
        b == within(*from, *p, range as int),
{
    if range < 0 {
        return false;
    }
    let reach: i128 = range as i128;
    assert(0 <= reach * reach <= 0x4000_0000_0000_0000) by (nonlinear_arith)
        requires
            0 <= reach <= 0x7fff_ffff,
    ;
    from.distance_squared(p) <= reach * reach
}

/// The tiles that can be targeted with an item of the given range.
pub fn target_cells(world: &World, range: i32) -> (cells: Vec<Point>)
    ensures
        cells@ == targets_in_range(world@, range as int),
{
    let mut cells: Vec<Point> = Vec::new();
    if let Some(visible) = world.viewsheds.get(world.player) {
        let mut k: usize = 0;
        while k < visible.visible_tiles.len()
            invariant
                k <= visible.visible_tiles@.len(),
                cells@ == cells_in_range(world@.player_pos, visible.visible_tiles@, range as int, k as int),
            decreases visible.visible_tiles@.len() - k,
        {
            if close_enough(&world.player_pos, &visible.visible_tiles[k], range) {
                cells.push(visible.visible_tiles[k]);
            }
            k = k + 1;
        }
    }
    cells
}

/// What the cursor at `mouse` means while an item of the given range is
/// aimed. A player without a viewshed cancels. A click on a tile that can
/// be targeted selects it; a click elsewhere cancels; no click is no
/// response.
pub open spec fn aim(w: WorldView, range: int, mouse: Point, left_click: bool) -> (
    ItemMenuResult,
    Option<Point>,
) {
    if !w.viewsheds.contains_key(w.player.index as int) {
        (ItemMenuResult::Cancel, None)
    } else if !left_click {
        (ItemMenuResult::NoResponse, None)
    } else if targets_in_range(w, range).contains(mouse) {
        (ItemMenuResult::Selected, Some(mouse))
    } else {
        (ItemMenuResult::Cancel, None)
    }
}

/// Reads the cursor while an item of the given range is aimed.
pub fn ranged_target(world: &World, range: i32, mouse: Point, left_click: bool) -> (r: (
    ItemMenuResult,
    Option<Point>,
))
    ensures
        r == aim(world@, range as int, mouse, left_click),
{
    if !world.viewsheds.contains(world.player) {
        return (ItemMenuResult::Cancel, None);
    }
    let available_cells = target_cells(world, range);
    let valid_target = contains_point(&available_cells, mouse);
    if valid_target {
        if left_click {
            return (ItemMenuResult::Selected, Some(Point { x: mouse.x, y: mouse.y }));
        }
    } else if left_click {
        return (ItemMenuResult::Cancel, None);
    }
    (ItemMenuResult::NoResponse, None)
}

/// Whether the player has acknowledged its death: with the Return key.
pub fn show_dead_screen(key: Option<Key>) -> (r: Option<bool>)
    ensures
        r == if key == Some(Key::Return) {
            Some(true)
        } else {
            None::<bool>
        },
{
    match key {
        Some(Key::Return) => Some(true),
        _ => None,
    }
}

/// Whether the name of entity `i` is shown at `mouse`: it stands there, on
/// a tile that the player sees, and is not invisible.
pub open spec fn hovered(w: WorldView, i: int, mouse: Point) -> bool {
    &&& w.names.contains_key(i)
    &&& w.positions.contains_key(i)
    &&& !w.invisible.contains_key(i)
    &&& w.positions[i].x == mouse.x
    &&& w.positions[i].y == mouse.y
    &&& point_index(mouse).is_some()
    &&& w.map.visible[point_index(mouse).unwrap() as int]
}

/// The names shown at `mouse`, of the entities with index below `n`.
pub open spec fn tooltip_upto(w: WorldView, mouse: Point, n: int) -> Seq<Seq<char>>
    decreases n,
{
    if n <= 0 {
        Seq::empty()
    } else if hovered(w, n - 1, mouse) {
        tooltip_upto(w, mouse, n - 1).push(w.names[n - 1])
    } else {
        tooltip_upto(w, mouse, n - 1)
    }
}

/// The names to show at `mouse`.
pub fn tooltips(world: &World, mouse: Point) -> (names: Vec<String>)
    requires
        world.wf(),
    ensures
        names@.len() == tooltip_upto(world@, mouse, world@.capacity()).len(),
        forall|k: int|
            0 <= k < names@.len() ==> (#[trigger] names@[k])@ == tooltip_upto(
                world@,
                mouse,
                world@.capacity(),
            )[k],
{
    let mut names: Vec<String> = Vec::new();
    let idx = match world.map.checked_idx(mouse) {
        Some(idx) => idx,
        None => {
            proof {
                lemma_no_tooltip_off_map(world@, mouse, world@.capacity());
            }
            return names;
        },
    };
    let n: usize = world.capacity();
    let mut i: usize = 0;
    while i < n
        invariant
            i <= n,
            n == world@.capacity(),
            world.wf(),
            point_index(mouse) == Some(idx),
            names@.len() == tooltip_upto(world@, mouse, i as int).len(),
            forall|k: int|
                0 <= k < names@.len() ==> (#[trigger] names@[k])@ == tooltip_upto(world@, mouse, i as int)[k],
        decreases n - i,
    {
        let e = Entity { index: i };
        if !world.invisible.contains(e) && world.map.visible_tiles[idx] {
            if let Some(position) = world.positions.get(e) {
                if position.x == mouse.x && position.y == mouse.y {
                    if let Some(name) = world.names.get(e) {
                        names.push(name.name.clone());
                    }
                }
            }
        }
        i = i + 1;
    }
    names
}

/// Nothing is shown for a cursor off the map.
pub proof fn lemma_no_tooltip_off_map(w: WorldView, mouse: Point, n: int)
    requires
        point_index(mouse).is_none(),
    ensures
        tooltip_upto(w, mouse, n).len() == 0,
    decreases n,
{
    if n > 0 {
        lemma_no_tooltip_off_map(w, mouse, n - 1);
    }
}

/// The item that a digit key picks from `items` when a character is
/// made: key 1 the first, up to key 9 the ninth.
pub open spec fn digit_choice(key: Option<Key>) -> Option<int> {
    match key {
        Some(Key::Key1) => Some(0),
        Some(Key::Key2) => Some(1),
        Some(Key::Key3) => Some(2),
        Some(Key::Key4) => Some(3),
        Some(Key::Key5) => Some(4),
        Some(Key::Key6) => Some(5),
        Some(Key::Key7) => Some(6),
        Some(Key::Key8) => Some(7),
        Some(Key::Key9) => Some(8),
        _ => None,
    }
}

/// The name that the player picked from `items`, if the key pressed is
/// the digit of one of them.
pub fn create_character(key: Option<Key>, items: &Vec<String>) -> (picked: Option<String>)
    ensures
        match digit_choice(key) {
            Some(k) => if k < items@.len() {
                picked.is_some() && picked.unwrap()@ == items@[k]@
            } else {
                picked.is_none()
            },
            None => picked.is_none(),
        },
{
    let place: usize = match key {
        Some(Key::Key1) => 0,
        Some(Key::Key2) => 1,
        Some(Key::Key3) => 2,
        Some(Key::Key4) => 3,
        Some(Key::Key5) => 4,
        Some(Key::Key6) => 5,
        Some(Key::Key7) => 6,
        Some(Key::Key8) => 7,
        Some(Key::Key9) => 8,
        _ => {
            return None;
        },
    };
    if place < items.len() {
        Some(items[place].clone())
    } else {
        None
    }
}

/// One entity as it is to be drawn.
#[derive(Clone, Copy, PartialEq, Eq, Debug, Structural)]
pub struct Drawable {
    pub x: i32,
    pub y: i32,
    pub layer: i32,
    pub glyph: u16,
    pub fg: Color,
    pub bg: Color,
}

/// How entity `i` is drawn, if it is: it has a position on a tile that
/// the player sees and an appearance. An invisible entity is not drawn,
/// but for a player, which is drawn in grey.
pub open spec fn drawn(w: WorldView, i: int) -> Option<Drawable> {
    if !w.positions.contains_key(i) || !w.renderables.contains_key(i) {
        None
    } else {
        let p = Point { x: w.positions[i].x, y: w.positions[i].y };
        let look = w.renderables[i];
        if point_index(p).is_none() || !w.map.visible[point_index(p).unwrap() as int] {
            None
        } else if !w.invisible.contains_key(i) {
            Some(Drawable { x: p.x, y: p.y, layer: look.layer, glyph: look.glyph, fg: look.fg, bg: look.bg })
        } else if w.players.contains_key(i) {
            Some(Drawable { x: p.x, y: p.y, layer: look.layer, glyph: look.glyph, fg: GRAY65, bg: look.bg })
        } else {
            None
        }
    }
}

/// Where `d` goes in a list that is ordered by falling layer: behind
/// everything of its layer or a higher one.
pub open spec fn place_of(list: Seq<Drawable>, d: Drawable, k: int) -> int
    decreases list.len() - k,
{
    if k < 0 || k >= list.len() || list[k].layer < d.layer {
        k
    } else {
        place_of(list, d, k + 1)
    }
}

/// What is drawn of the entities with index below `n`, ordered by falling
/// layer, and within a layer by rising index.
pub open spec fn drawn_upto(w: WorldView, n: int) -> Seq<Drawable>
    decreases n,
{
    if n <= 0 {
        Seq::empty()
    } else {
        match drawn(w, n - 1) {
            None => drawn_upto(w, n - 1),
            Some(d) => drawn_upto(w, n - 1).insert(place_of(drawn_upto(w, n - 1), d, 0), d),
        }
    }
}

/// Whether `list` is ordered by falling layer.
pub open spec fn falling(list: Seq<Drawable>) -> bool {
    forall|a: int, b: int| 0 <= a <= b < list.len() ==> list[a].layer >= list[b].layer
}

/// The place that [`place_of`] gives lies in the list or at its end; what
/// stands before it has the layer of `d` or a higher one, and what stands
/// at it has a lower one.
pub proof fn lemma_place_of(list: Seq<Drawable>, d: Drawable, k: int)
    requires
        0 <= k <= list.len(),
        forall|j: int| 0 <= j < k ==> list[j].layer >= d.layer,
    ensures
        k <= place_of(list, d, k) <= list.len(),
        forall|j: int| 0 <= j < place_of(list, d, k) ==> list[j].layer >= d.layer,
        place_of(list, d, k) < list.len() ==> list[place_of(list, d, k)].layer < d.layer,
    decreases list.len() - k,
{
    if k < list.len() && list[k].layer >= d.layer {
        lemma_place_of(list, d, k + 1);
    }
}

/// What is drawn is ordered by falling layer.
pub proof fn lemma_drawn_falling(w: WorldView, n: int)
    ensures
        falling(drawn_upto(w, n)),
    decreases n,
{
    if n > 0 {
        lemma_drawn_falling(w, n - 1);
        let before = drawn_upto(w, n - 1);
        match drawn(w, n - 1) {
            None => {},
            Some(d) => {
                lemma_place_of(before, d, 0);
                let at = place_of(before, d, 0);
                let after = before.insert(at, d);
                assert forall|a: int, b: int| 0 <= a <= b < after.len() implies after[a].layer
                    >= after[b].layer by {
                    let la = if a < at { before[a] } else if a == at { d } else { before[a - 1] };
                    let lb = if b < at { before[b] } else if b == at { d } else { before[b - 1] };
                    assert(after[a] == la && after[b] == lb);
                    if a > at {
                        assert(before[at].layer < d.layer);
                        assert(before[at].layer >= before[a - 1].layer);
                    }
                }
            },
        }
    }
}

fn drawable_of(world: &World, e: Entity) -> (d: Option<Drawable>)
    requires
        world.wf(),
    ensures
        d == drawn(world@, e.index as int),
{
    let pos = match world.positions.get(e) {
        Some(p) => Point { x: p.x, y: p.y },
        None => {
            return None;
        },
    };
    let look = match world.renderables.get(e) {
        Some(r) => *r,
        None => {
            return None;
        },
    };
    let idx = match world.map.checked_idx(pos) {
        Some(idx) => idx,
        None => {
            return None;
        },
    };
    if !world.map.visible_tiles[idx] {
        return None;
    }
    if !world.invisible.contains(e) {
        Some(Drawable { x: pos.x, y: pos.y, layer: look.layer, glyph: look.glyph, fg: look.fg, bg: look.bg })
    } else if world.players.contains(e) {
        Some(Drawable { x: pos.x, y: pos.y, layer: look.layer, glyph: look.glyph, fg: GRAY65, bg: look.bg })
    } else {
        None
    }
}

/// The entities to draw, in the order of drawing: a higher layer first,
/// so that what is drawn last lies on top.
pub fn draw_list(world: &World) -> (list: Vec<Drawable>)
    requires
        world.wf(),
    ensures
        list@ == drawn_upto(world@, world@.capacity()),
        falling(list@),
{
    let n: usize = world.capacity();
    let mut list: Vec<Drawable> = Vec::new();
    let mut i: usize = 0;
    while i < n
        invariant
            i <= n,
            n == world@.capacity(),
            world.wf(),
            list@ == drawn_upto(world@, i as int),
        decreases n - i,
    {
        if let Some(d) = drawable_of(world, Entity { index: i }) {
            let mut k: usize = 0;
            while k < list.len() && list[k].layer >= d.layer
                invariant
                    k <= list@.len(),
                    place_of(list@, d, 0) == place_of(list@, d, k as int),
                decreases list@.len() - k,
            {
                k = k + 1;
            }
            list.insert(k, d);
        }
        i = i + 1;
    }
    proof {
        lemma_drawn_falling(world@, n as int);
    }
    list
}

/// The last `count` messages of the log, the newest first.
pub fn recent_messages(world: &World, count: usize) -> (lines: Vec<String>)
    ensures
        lines@.len() == if count < world@.log.len() {
            count as int
        } else {
            world@.log.len() as int
        },
        forall|k: int|
            0 <= k < lines@.len() ==> (#[trigger] lines@[k])@ == world@.log[world@.log.len() - 1 - k],
{
    let mut lines: Vec<String> = Vec::new();
    let total: usize = world.log.entries.len();
    let mut k: usize = 0;
    while k < count && k < total
        invariant
            total == world.log.entries@.len(),
            k <= count,
            k <= total,
            lines@.len() == k,
            forall|j: int|
                0 <= j < k ==> (#[trigger] lines@[j])@ == world.log.entries@[total - 1 - j]@,
        decreases total - k,
    {
        lines.push(world.log.entries[total - 1 - k].clone());
        k = k + 1;
    }
    lines
}

} // verus!
