use rusty_roguelike::components::{
    CombatStats, Equipped, EquipmentSlot, HungerClock, HungerState, InInventory, Position,
    ParticleLifetime, WantsToDropItem, WantsToPickupItem, WantsToRemoveItem, WantsToUseItem,
};
use rusty_roguelike::map::TileMap;
use rusty_roguelike::map_builders::common::apply_room_to_map;
use rusty_roguelike::rect::{Point, Rect};
use rusty_roguelike::spawner::{invisibility_timer, player, spawn_entity};
use rusty_roguelike::state::RunState;
use rusty_roguelike::systems::inventory_system::{
    ItemCollectionSystem, ItemDropSystem, ItemRemoveSystem,
};
use rusty_roguelike::systems::item_use_system::{use_item, ItemUseSystem};
use rusty_roguelike::systems::map_indexing_system::MapIndexingSystem;
use rusty_roguelike::systems::melee_combat_system::compute_melee_damage;
use rusty_roguelike::world::{Entity, Fault, World};

struct Nav<'a>(&'a TileMap);

impl<'a> rltk::BaseMap for Nav<'a> {
    fn is_opaque(&self, idx: usize) -> bool {
        self.0.is_opaque(idx)
    }
}

impl<'a> rltk::Algorithm2D for Nav<'a> {
    fn dimensions(&self) -> rltk::Point {
        rltk::Point::new(80, 43)
    }
}

fn fov(map: &TileMap, p: Point, range: i32) -> Vec<Point> {
    rltk::field_of_view(rltk::Point::new(p.x, p.y), range, &Nav(map))
        .into_iter()
        .map(|q| Point { x: q.x, y: q.y })
        .collect()
}

fn no_fov(_map: &TileMap, _p: Point, _range: i32) -> Vec<Point> {
    Vec::new()
}

/// A hall with its inside from (11, 11) to (30, 30) and the player at (20, 20).
fn hall() -> (World, Entity) {
    let mut world = World::new(rltk::RandomNumberGenerator::seeded(9));
    apply_room_to_map(&mut world.map, &Rect::new(10, 10, 20, 20));
    let hero = player(&mut world, 20, 20);
    world.player = hero;
    world.player_pos = Point { x: 20, y: 20 };
    (world, hero)
}

fn make(world: &mut World, name: &str, x: i32, y: i32) -> Entity {
    let e = Entity { index: world.capacity() };
    spawn_entity(world, (y * 80 + x) as usize, &name.to_string());
    assert!(world.is_alive(e), "{} is no known kind", name);
    e
}

fn carry(world: &mut World, owner: Entity, name: &str) -> Entity {
    let item = make(world, name, 0, 0);
    world.positions.remove(item);
    world.in_inventory.insert(item, InInventory { owner });
    item
}

fn use_it(world: &mut World, user: Entity, item: Entity, target: Option<Point>) {
    MapIndexingSystem {}.run(world);
    world.wants_use.insert(user, WantsToUseItem { item, target });
    ItemUseSystem {}.run(world, fov);
}

#[test]
fn picking_up_moves_the_item_into_the_backpack() {
    let (mut world, hero) = hall();
    let potion = make(&mut world, "Health Potion", 20, 20);
    world.wants_pickup.insert(hero, WantsToPickupItem { collected_by: hero, item: potion });
    ItemCollectionSystem {}.run(&mut world);
    assert!(world.positions.get(potion).is_none());
    assert_eq!(world.in_inventory.get(potion), Some(&InInventory { owner: hero }));
    assert_eq!(world.log.entries, vec!["You pick up the Health Potion."]);
    assert!(world.wants_pickup.get(hero).is_none());
    assert_eq!(world.fault, None);
}

#[test]
fn monsters_pick_up_silently() {
    let (mut world, _hero) = hall();
    let goblin = make(&mut world, "Goblin", 15, 15);
    let dagger = make(&mut world, "Dagger", 15, 15);
    world.wants_pickup.insert(goblin, WantsToPickupItem { collected_by: goblin, item: dagger });
    ItemCollectionSystem {}.run(&mut world);
    assert_eq!(world.in_inventory.get(dagger), Some(&InInventory { owner: goblin }));
    assert!(world.log.entries.is_empty());
}

#[test]
fn picking_up_what_does_not_exist_is_a_fault() {
    let (mut world, hero) = hall();
    let potion = make(&mut world, "Health Potion", 20, 20);
    world.delete_entity(potion);
    world.wants_pickup.insert(hero, WantsToPickupItem { collected_by: hero, item: potion });
    ItemCollectionSystem {}.run(&mut world);
    assert_eq!(world.fault, Some(Fault::DeadEntity));
    assert!(world.wants_pickup.get(hero).is_some());
    assert!(world.in_inventory.get(potion).is_none());
}

#[test]
fn dropping_puts_the_item_where_the_dropper_stands() {
    let (mut world, hero) = hall();
    let dagger = carry(&mut world, hero, "Dagger");
    world.wants_drop.insert(hero, WantsToDropItem { item: dagger });
    ItemDropSystem {}.run(&mut world);
    assert_eq!(world.positions.get(dagger), Some(&Position { x: 20, y: 20 }));
    assert!(world.in_inventory.get(dagger).is_none());
    assert_eq!(world.log.entries, vec!["You drop the Dagger."]);
    assert!(world.wants_drop.get(hero).is_none());
}

#[test]
fn dropper_without_position_is_a_fault() {
    let (mut world, hero) = hall();
    let dagger = carry(&mut world, hero, "Dagger");
    world.positions.remove(hero);
    world.wants_drop.insert(hero, WantsToDropItem { item: dagger });
    ItemDropSystem {}.run(&mut world);
    assert_eq!(world.fault, Some(Fault::MissingComponent));
    assert!(world.in_inventory.get(dagger).is_some());
}

#[test]
fn taking_off_returns_the_item_to_the_backpack() {
    let (mut world, hero) = hall();
    let shield = make(&mut world, "Shield", 0, 0);
    world.positions.remove(shield);
    world.equipped.insert(shield, Equipped { owner: hero, slot: EquipmentSlot::Shield });
    world.wants_remove.insert(hero, WantsToRemoveItem { item: shield });
    ItemRemoveSystem {}.run(&mut world);
    assert!(world.equipped.get(shield).is_none());
    assert_eq!(world.in_inventory.get(shield), Some(&InInventory { owner: hero }));
    assert_eq!(world.log.entries, vec!["You unequip the Shield"]);
    assert!(world.wants_remove.get(hero).is_none());
}

#[test]
fn potion_heals_up_to_the_maximum_and_is_used_up() {
    let (mut world, hero) = hall();
    world.combat_stats.insert(hero, CombatStats { max_hp: 30, hp: 25, defense: 2, power: 5 });
    let potion = carry(&mut world, hero, "Health Potion");
    use_it(&mut world, hero, potion, None);
    assert_eq!(world.combat_stats.get(hero).unwrap().hp, 30);
    assert_eq!(world.log.entries, vec!["You use the Health Potion, healing 8 hp."]);
    assert_eq!(world.doomed, vec![potion]);
    assert!(world.wants_use.get(hero).is_none());
    let heart = world.particles.requests[0];
    assert_eq!((heart.x, heart.y, heart.glyph, heart.fg, heart.lifetime), (20, 20, 3, 0x00FF00, 200000));
    world.maintain();
    assert!(!world.is_alive(potion));
}

#[test]
fn potion_heals_by_its_amount() {
    let (mut world, hero) = hall();
    world.combat_stats.insert(hero, CombatStats { max_hp: 30, hp: 10, defense: 2, power: 5 });
    let potion = carry(&mut world, hero, "Health Potion");
    use_it(&mut world, hero, potion, None);
    assert_eq!(world.combat_stats.get(hero).unwrap().hp, 18);
}

#[test]
fn equipping_swaps_what_is_worn_in_the_slot() {
    let (mut world, hero) = hall();
    let dagger = carry(&mut world, hero, "Dagger");
    let sword = carry(&mut world, hero, "Longsword");
    let shield = carry(&mut world, hero, "Shield");
    use_it(&mut world, hero, dagger, None);
    assert_eq!(world.equipped.get(dagger), Some(&Equipped { owner: hero, slot: EquipmentSlot::Melee }));
    assert!(world.in_inventory.get(dagger).is_none());
    use_it(&mut world, hero, shield, None);
    use_it(&mut world, hero, sword, None);
    assert!(world.equipped.get(dagger).is_none());
    assert_eq!(world.in_inventory.get(dagger), Some(&InInventory { owner: hero }));
    assert_eq!(world.equipped.get(sword), Some(&Equipped { owner: hero, slot: EquipmentSlot::Melee }));
    assert_eq!(world.equipped.get(shield), Some(&Equipped { owner: hero, slot: EquipmentSlot::Shield }));
    assert_eq!(
        world.log.entries,
        vec!["You equip Dagger.", "You equip Shield.", "You unequip Dagger.", "You equip Longsword."]
    );
    assert!(world.doomed.is_empty());
}

#[test]
fn damage_formula_counts_both_bonuses() {
    assert_eq!(compute_melee_damage(5, 4, 1, 3), 5);
    assert_eq!(compute_melee_damage(5, 0, 1, 0), 4);
    assert_eq!(compute_melee_damage(4, 0, 2, 3), 0);
    assert_eq!(compute_melee_damage(3, 2, 5, 0), 0);
    assert_eq!(compute_melee_damage(i32::MAX, 10, -5, 0), i32::MAX);
}

#[test]
fn rations_feed_the_eater() {
    let (mut world, hero) = hall();
    world
        .hunger_clocks
        .insert(hero, HungerClock { state: HungerState::Hungry, total_nutrition: 420 });
    let rations = carry(&mut world, hero, "Rations");
    use_it(&mut world, hero, rations, None);
    assert_eq!(
        world.hunger_clocks.get(hero),
        Some(&HungerClock { state: HungerState::Hungry, total_nutrition: 770 })
    );
    assert_eq!(world.log.entries, vec!["You eat the Rations."]);
    assert_eq!(world.doomed, vec![rations]);
}

#[test]
fn magic_mapping_asks_for_the_reveal() {
    let (mut world, hero) = hall();
    world.run_state = RunState::PlayerTurn;
    let scroll = carry(&mut world, hero, "Magic Mapping Scroll");
    use_it(&mut world, hero, scroll, None);
    assert_eq!(world.run_state, RunState::MagicMapReveal { row: 0 });
    assert_eq!(world.log.entries, vec!["The map is revealed to you!"]);
    assert_eq!(world.doomed, vec![scroll]);
}

#[test]
fn fireball_hurts_what_is_in_the_blast_and_nothing_else() {
    let (mut world, hero) = hall();
    let near = make(&mut world, "Goblin", 22, 25);
    let also_near = make(&mut world, "Orc", 20, 27);
    let far = make(&mut world, "Goblin", 27, 25);
    let scroll = carry(&mut world, hero, "Fireball Scroll");
    let target = Point { x: 20, y: 25 };
    use_it(&mut world, hero, scroll, Some(target));
    assert_eq!(world.fault, None);
    assert_eq!(world.suffer_damage.get(near).unwrap().amount, vec![20]);
    assert_eq!(world.suffer_damage.get(also_near).unwrap().amount, vec![20]);
    assert!(world.suffer_damage.get(far).is_none());
    assert!(world.suffer_damage.get(hero).is_none());
    let blast: Vec<Point> = fov(&world.map, target, 3)
        .into_iter()
        .filter(|p| p.x > 0 && p.x < 79 && p.y > 0 && p.y < 42)
        .collect();
    assert!(blast.len() > 20);
    let markers: Vec<_> = world.particles.requests.iter().filter(|r| r.glyph == 176).collect();
    assert_eq!(markers.len(), blast.len());
    for marker in markers.iter() {
        assert!(blast.contains(&Point { x: marker.x, y: marker.y }));
        assert_eq!((marker.fg, marker.bg, marker.lifetime), (0xFFA500, 0, 200000));
    }
    let hits = world.particles.requests.iter().filter(|r| r.glyph == 19).count();
    assert_eq!(hits, 2);
    let mut lines = world.log.entries.clone();
    lines.sort();
    assert_eq!(
        lines,
        vec![
            "You use Fireball Scroll on Goblin, inflicting 20 hp.",
            "You use Fireball Scroll on Orc, inflicting 20 hp."
        ]
    );
    assert_eq!(world.doomed, vec![scroll]);
}

#[test]
fn fireball_at_nobody_is_not_used_up() {
    let (mut world, hero) = hall();
    let scroll = carry(&mut world, hero, "Fireball Scroll");
    use_it(&mut world, hero, scroll, Some(Point { x: 13, y: 13 }));
    assert!(world.doomed.is_empty());
    assert!(world.log.entries.is_empty());
    assert!(world.particles.requests.len() > 10);
    assert!(world.wants_use.get(hero).is_none());
}

#[test]
fn blast_is_clipped_to_the_inside_of_the_map() {
    let (mut world, hero) = hall();
    let scroll = carry(&mut world, hero, "Fireball Scroll");
    MapIndexingSystem {}.run(&mut world);
    let goblin = make(&mut world, "Goblin", 0, 5);
    MapIndexingSystem {}.run(&mut world);
    world
        .wants_use
        .insert(hero, WantsToUseItem { item: scroll, target: Some(Point { x: 1, y: 5 }) });
    let tiles = vec![
        Point { x: 0, y: 5 },
        Point { x: 1, y: 5 },
        Point { x: -3, y: 5 },
        Point { x: 1, y: 0 },
        Point { x: 79, y: 5 },
        Point { x: 78, y: 41 },
        Point { x: 5, y: 42 },
    ];
    use_item(&mut world, hero, &tiles);
    assert_eq!(world.fault, None);
    let marked: Vec<(i32, i32)> = world.particles.requests.iter().map(|r| (r.x, r.y)).collect();
    assert_eq!(marked, vec![(1, 5), (78, 41)]);
    assert!(world.suffer_damage.get(goblin).is_none());
}

#[test]
fn magic_missile_hurts_who_stands_on_the_target() {
    let (mut world, hero) = hall();
    let goblin = make(&mut world, "Goblin", 23, 20);
    let other = make(&mut world, "Goblin", 24, 20);
    let scroll = carry(&mut world, hero, "Magic Missile Scroll");
    use_it(&mut world, hero, scroll, Some(Point { x: 23, y: 20 }));
    assert_eq!(world.suffer_damage.get(goblin).unwrap().amount, vec![8]);
    assert!(world.suffer_damage.get(other).is_none());
    assert_eq!(world.log.entries, vec!["You use Magic Missile Scroll on Goblin, inflicting 8 hp."]);
    assert_eq!(world.doomed, vec![scroll]);
    let mark = world.particles.requests[0];
    assert_eq!((mark.x, mark.y, mark.glyph, mark.fg), (23, 20, 19, 0xFF0000));
}

#[test]
fn aiming_off_the_map_is_a_fault() {
    let (mut world, hero) = hall();
    let scroll = carry(&mut world, hero, "Magic Missile Scroll");
    use_it(&mut world, hero, scroll, Some(Point { x: 80, y: 20 }));
    assert_eq!(world.fault, Some(Fault::OutOfBounds));
    assert!(world.wants_use.get(hero).is_some());
}

#[test]
fn hurting_something_nameless_is_a_fault() {
    let (mut world, hero) = hall();
    let scroll = carry(&mut world, hero, "Magic Missile Scroll");
    let spark = world.create_entity();
    world.positions.insert(spark, Position { x: 23, y: 20 });
    world.particle_lifetimes.insert(spark, ParticleLifetime { lifetime_us: 5 });
    use_it(&mut world, hero, scroll, Some(Point { x: 23, y: 20 }));
    assert_eq!(world.fault, Some(Fault::MissingComponent));
    assert_eq!(world.suffer_damage.get(spark).unwrap().amount, vec![8]);
}

#[test]
fn invisibility_timer_starts_its_cooldown() {
    let (mut world, hero) = hall();
    let timer = invisibility_timer(&mut world);
    world.in_inventory.insert(timer, InInventory { owner: hero });
    use_it(&mut world, hero, timer, None);
    let wish = world.wants_be_invisible.get(hero).unwrap();
    assert_eq!((wish.entity, wish.turns), (hero, 18));
    assert_eq!(world.active_cooldowns.get(timer).unwrap().turns_remaining, 60);
    assert!(world.doomed.is_empty());
    assert_eq!(world.log.entries, vec!["You use Invisibility Timer, and become invisible for 18 turns."]);
    world.wants_be_invisible.clear();
    use_it(&mut world, hero, timer, None);
    assert!(world.wants_be_invisible.get(hero).is_none());
    assert_eq!(
        world.log.entries[1],
        "You cannot use Invisibility Timer, it is on cooldown for 60 turns"
    );
    assert_eq!(world.active_cooldowns.get(timer).unwrap().turns_remaining, 60);
}

#[test]
fn equipping_without_a_target_is_a_fault() {
    let (mut world, hero) = hall();
    let dagger = carry(&mut world, hero, "Dagger");
    use_it(&mut world, hero, dagger, Some(Point { x: 12, y: 12 }));
    assert_eq!(world.fault, Some(Fault::NoTarget));
    assert!(world.equipped.get(dagger).is_none());
}

#[test]
fn item_use_needs_no_field_of_view_without_area_of_effect() {
    let (mut world, hero) = hall();
    world.combat_stats.insert(hero, CombatStats { max_hp: 30, hp: 1, defense: 2, power: 5 });
    let potion = carry(&mut world, hero, "Health Potion");
    world.wants_use.insert(hero, WantsToUseItem { item: potion, target: None });
    ItemUseSystem {}.run(&mut world, no_fov);
    assert_eq!(world.combat_stats.get(hero).unwrap().hp, 9);
}

#[test]
fn an_unaimed_item_acts_on_its_user() {
    let (mut world, hero) = hall();
    let goblin = make(&mut world, "Goblin", 15, 15);
    world.combat_stats.insert(goblin, CombatStats { max_hp: 16, hp: 3, defense: 1, power: 4 });
    world.combat_stats.insert(hero, CombatStats { max_hp: 30, hp: 3, defense: 2, power: 5 });
    let potion = carry(&mut world, goblin, "Health Potion");
    use_it(&mut world, goblin, potion, None);
    assert_eq!(world.combat_stats.get(goblin).unwrap().hp, 11);
    assert_eq!(world.combat_stats.get(hero).unwrap().hp, 3);
    assert!(world.log.entries.is_empty());
    assert_eq!(world.doomed, vec![potion]);
}

#[test]
fn an_item_that_does_nothing_is_not_used_up() {
    let (mut world, hero) = hall();
    let scroll = carry(&mut world, hero, "Confusion Scroll");
    let wand = rusty_roguelike::spawner::confusion_wand(&mut world);
    use_it(&mut world, hero, scroll, Some(Point { x: 21, y: 20 }));
    use_it(&mut world, hero, wand, Some(Point { x: 21, y: 20 }));
    assert!(world.doomed.is_empty());
    assert!(world.active_cooldowns.get(wand).is_none());
    assert!(world.log.entries.is_empty());
    assert!(world.wants_use.get(hero).is_none());
    assert_eq!(world.fault, None);
}
