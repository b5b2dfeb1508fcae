use rusty_roguelike::components::{
    CombatStats, EquipmentSlot, HungerClock, HungerState, Position,
};
use rusty_roguelike::map::TileType;
use rusty_roguelike::map_builders::common::apply_room_to_map;
use rusty_roguelike::random_table::RandomTable;
use rusty_roguelike::rect::Rect;
use rusty_roguelike::spawner::{
    confusion_wand, floor_of, invisibility_timer, player, room_table, spawn_entity, spawn_region,
    spawn_room,
};
use rusty_roguelike::world::{Entity, World};

fn new_world(seed: u64) -> World {
    World::new(rltk::RandomNumberGenerator::seeded(seed))
}

fn spawned(name: &str) -> (World, Entity) {
    let mut world = new_world(1);
    spawn_entity(&mut world, 12 * 80 + 34, &name.to_string());
    (world, Entity { index: 0 })
}

#[test]
fn player_starts_with_the_fixed_stats() {
    let mut world = new_world(1);
    let hero = player(&mut world, 7, 9);
    assert_eq!(hero, Entity { index: 0 });
    assert_eq!(world.positions.get(hero), Some(&Position { x: 7, y: 9 }));
    assert_eq!(
        world.combat_stats.get(hero),
        Some(&CombatStats { max_hp: 30, hp: 30, defense: 2, power: 5 })
    );
    assert_eq!(
        world.hunger_clocks.get(hero),
        Some(&HungerClock { state: HungerState::WellFed, total_nutrition: 650 })
    );
    assert_eq!(world.names.get(hero).unwrap().name, "Player");
    assert!(world.players.contains(hero));
    let viewshed = world.viewsheds.get(hero).unwrap();
    assert_eq!((viewshed.range, viewshed.dirty, viewshed.visible_tiles.len()), (8, true, 0));
    let look = world.renderables.get(hero).unwrap();
    assert_eq!((look.layer, look.glyph, look.fg, look.bg), (3, 64, 0xFFFF00, 0));
    assert!(!world.blocks_tile.contains(hero));
}

#[test]
fn monsters_block_and_fight() {
    for (name, glyph) in [("Goblin", 103u16), ("Orc", 111u16)] {
        let (world, e) = spawned(name);
        assert_eq!(world.positions.get(e), Some(&Position { x: 34, y: 12 }));
        assert_eq!(world.names.get(e).unwrap().name, name);
        assert_eq!(
            world.combat_stats.get(e),
            Some(&CombatStats { max_hp: 16, hp: 16, defense: 1, power: 4 })
        );
        assert!(world.blocks_tile.contains(e));
        assert!(!world.monsters.get(e).unwrap().is_targeting_player);
        assert_eq!(world.viewsheds.get(e).unwrap().range, 5);
        assert_eq!(world.renderables.get(e).unwrap().glyph, glyph);
        assert_eq!(world.renderables.get(e).unwrap().fg, 0xFF0000);
    }
}

#[test]
fn items_carry_their_capabilities() {
    let (w, e) = spawned("Health Potion");
    assert_eq!(w.provides_healing.get(e).unwrap().heal_amount, 8);
    assert!(w.consumables.contains(e) && w.items.contains(e));
    assert_eq!(w.renderables.get(e).unwrap().glyph, 173);
    assert_eq!(w.renderables.get(e).unwrap().layer, 5);

    let (w, e) = spawned("Magic Missile Scroll");
    assert_eq!(w.inflicts_damage.get(e).unwrap().damage, 8);
    assert_eq!(w.ranged.get(e).unwrap().range, 6);
    assert!(w.area_of_effect.get(e).is_none());

    let (w, e) = spawned("Fireball Scroll");
    assert_eq!(w.inflicts_damage.get(e).unwrap().damage, 20);
    assert_eq!(w.area_of_effect.get(e).unwrap().radius, 3);
    assert_eq!(w.ranged.get(e).unwrap().range, 6);
    assert!(w.consumables.contains(e));

    let (w, e) = spawned("Confusion Scroll");
    assert_eq!(w.causes_confusion.get(e).unwrap().turns, 4);

    let (w, e) = spawned("Dagger");
    assert_eq!(w.equippable.get(e).unwrap().slot, EquipmentSlot::Melee);
    assert_eq!(w.melee_power_bonus.get(e).unwrap().power, 2);

    let (w, e) = spawned("Longsword");
    assert_eq!(w.melee_power_bonus.get(e).unwrap().power, 4);

    let (w, e) = spawned("Shield");
    assert_eq!(w.equippable.get(e).unwrap().slot, EquipmentSlot::Shield);
    assert_eq!(w.defense_bonus.get(e).unwrap().defense, 1);

    let (w, e) = spawned("Tower Shield");
    assert_eq!(w.defense_bonus.get(e).unwrap().defense, 3);

    let (w, e) = spawned("Rations");
    assert_eq!(w.food.get(e).unwrap().nutrition, 350);
    assert!(w.consumables.contains(e));

    let (w, e) = spawned("Magic Mapping Scroll");
    assert!(w.magic_mappers.contains(e));
    assert_eq!(w.names.get(e).unwrap().name, "Scroll of Magic Mapping");

    let (w, e) = spawned("Bear Trap");
    assert_eq!(w.invisible.get(e).unwrap().turns, None);
    assert_eq!(w.inflicts_damage.get(e).unwrap().damage, 6);
    assert!(w.entry_triggers.contains(e) && w.single_activations.contains(e));
    assert_eq!(w.renderables.get(e).unwrap().layer, 4);
    assert!(!w.items.contains(e));
}

#[test]
fn unknown_names_make_nothing() {
    let (world, e) = spawned("None");
    assert_eq!(world.capacity(), 0);
    assert!(!world.is_alive(e));
}

#[test]
fn starting_items_have_no_position() {
    let mut world = new_world(1);
    let timer = invisibility_timer(&mut world);
    let wand = confusion_wand(&mut world);
    assert!(world.positions.get(timer).is_none());
    assert_eq!(world.applies_invisibility.get(timer).unwrap().turns, 18);
    assert_eq!(world.cooldowns.get(timer).unwrap().turns, 60);
    assert_eq!(world.names.get(timer).unwrap().name, "Invisibility Timer");
    assert_eq!(world.causes_confusion.get(wand).unwrap().turns, 5);
    assert_eq!(world.ranged.get(wand).unwrap().range, 6);
    assert_eq!(world.cooldowns.get(wand).unwrap().turns, 45);
    assert_eq!(world.renderables.get(wand).unwrap().glyph, 47);
}

#[test]
fn room_table_scales_with_depth() {
    let weights = |depth: i32| -> Vec<(String, i32)> {
        room_table(depth).entries.iter().map(|e| (e.name.clone(), e.weight)).collect()
    };
    let first = weights(1);
    assert_eq!(
        first,
        vec![
            ("Goblin".to_string(), 10),
            ("Orc".to_string(), 2),
            ("Health Potion".to_string(), 7),
            ("Fireball Scroll".to_string(), 3),
            ("Confusion Scroll".to_string(), 3),
            ("Magic Missile Scroll".to_string(), 4),
            ("Dagger".to_string(), 3),
            ("Shield".to_string(), 3),
            ("Magic Mapping Scroll".to_string(), 2),
            ("Rations".to_string(), 10),
            ("Bear Trap".to_string(), 3),
        ]
    );
    assert_eq!(room_table(1).total_weight, 50);
    let third = weights(3);
    assert!(third.contains(&("Longsword".to_string(), 2)));
    assert!(third.contains(&("Tower Shield".to_string(), 2)));
    assert!(third.contains(&("Orc".to_string(), 4)));
    assert_eq!(room_table(3).total_weight, 45 + 15);
}

#[test]
fn pick_follows_the_cumulative_weights() {
    let table = RandomTable::new().add("a", 2).add("skipped", 0).add("b", 1).add("c", 3).add("neg", -4);
    assert_eq!(table.total_weight, 6);
    assert_eq!(table.entries.len(), 3);
    let picked: Vec<String> = (0..6).map(|roll| table.pick(roll)).collect();
    assert_eq!(picked, vec!["a", "a", "b", "c", "c", "c"]);
    assert_eq!(table.pick(6), "None");
    assert_eq!(table.pick(100), "None");
}

#[test]
fn roll_draws_every_entry_sooner_or_later() {
    let mut rng = rltk::RandomNumberGenerator::seeded(42);
    let table = RandomTable::new().add("a", 1).add("b", 1).add("c", 2);
    let mut seen = std::collections::BTreeMap::new();
    for _ in 0..400 {
        *seen.entry(table.roll(&mut rng)).or_insert(0) += 1;
    }
    assert_eq!(seen.keys().cloned().collect::<Vec<_>>(), vec!["a", "b", "c"]);
    assert!(seen["c"] > seen["a"]);
    assert_eq!(RandomTable::new().roll(&mut rng), "None");
}

#[test]
fn spawn_region_fills_distinct_tiles_of_the_area() {
    for seed in 0..30 {
        let mut world = new_world(seed);
        let area: Vec<usize> = vec![100, 101, 102, 180, 181, 182, 260, 261];
        spawn_region(&mut world, &area, 2);
        let made = world.capacity();
        assert!(made <= 5, "at depth 2 a room gets at most 5 things");
        let mut tiles = Vec::new();
        for i in 0..made {
            let pos = world.positions.get(Entity { index: i }).unwrap();
            let tile = (pos.y * 80 + pos.x) as usize;
            assert!(area.contains(&tile));
            assert!(!tiles.contains(&tile));
            tiles.push(tile);
            assert!(world.names.get(Entity { index: i }).is_some());
        }
    }
}

#[test]
fn spawn_region_never_makes_more_than_there_are_tiles() {
    let mut total = 0;
    for seed in 0..40 {
        let mut world = new_world(seed);
        spawn_region(&mut world, &vec![500], 6);
        assert!(world.capacity() <= 1);
        total += world.capacity();
        let mut empty = new_world(seed);
        spawn_region(&mut empty, &vec![], 6);
        assert_eq!(empty.capacity(), 0);
    }
    assert_eq!(total, 40, "at depth 6 every roll asks for at least two things");
}

#[test]
fn shallow_rooms_may_stay_empty() {
    let mut counts = std::collections::BTreeSet::new();
    for seed in 0..60 {
        let mut world = new_world(seed);
        let area: Vec<usize> = (0..20).map(|i| 800 + i).collect();
        spawn_region(&mut world, &area, 1);
        counts.insert(world.capacity());
    }
    assert_eq!(counts.into_iter().collect::<Vec<_>>(), vec![0, 1, 2, 3, 4]);
}

#[test]
fn floor_of_a_room_excludes_its_last_row_and_column() {
    let mut world = new_world(1);
    let room = Rect::new(10, 10, 4, 3);
    apply_room_to_map(&mut world.map, &room);
    world.map.tiles[11 * 80 + 12] = TileType::DownStairs;
    assert_eq!(floor_of(&world, &room), vec![11 * 80 + 11, 11 * 80 + 13, 12 * 80 + 11, 12 * 80 + 12, 12 * 80 + 13]);
    assert!(floor_of(&world, &Rect::new(40, 20, 5, 5)).is_empty());
    assert!(floor_of(&world, &Rect::new(10, 10, 1, 9)).is_empty());
}

#[test]
fn spawn_room_puts_things_inside_the_room() {
    for seed in 0..20 {
        let mut world = new_world(seed);
        let room = Rect::new(30, 15, 8, 7);
        apply_room_to_map(&mut world.map, &room);
        spawn_room(&mut world, &room, 4);
        for i in 0..world.capacity() {
            let pos = world.positions.get(Entity { index: i }).unwrap();
            assert!(pos.x > 30 && pos.x < 38 && pos.y > 15 && pos.y < 22);
        }
        assert!(world.capacity() >= 1 && world.capacity() <= 7);
    }
}
