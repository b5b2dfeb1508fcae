use rusty_roguelike::components::{HungerClock, HungerState};
use rusty_roguelike::spawner::{player, spawn_entity};
use rusty_roguelike::state::RunState;
use rusty_roguelike::systems::damage_system::DamageSystem;
use rusty_roguelike::systems::hunger_system::{band_of, HungerSystem};
use rusty_roguelike::world::{Entity, World};

fn world_with_player(nutrition: i32, state: HungerState) -> (World, Entity) {
    let mut world = World::new(rltk::RandomNumberGenerator::seeded(3));
    let hero = player(&mut world, 5, 5);
    world.player = hero;
    world.hunger_clocks.insert(hero, HungerClock { state, total_nutrition: nutrition });
    world.run_state = RunState::PlayerTurn;
    (world, hero)
}

fn clock(world: &World, e: Entity) -> HungerClock {
    *world.hunger_clocks.get(e).unwrap()
}

#[test]
fn bands_follow_the_thresholds() {
    assert_eq!(band_of(650), HungerState::WellFed);
    assert_eq!(band_of(1000), HungerState::WellFed);
    assert_eq!(band_of(649), HungerState::Normal);
    assert_eq!(band_of(600), HungerState::Normal);
    assert_eq!(band_of(599), HungerState::Hungry);
    assert_eq!(band_of(400), HungerState::Hungry);
    assert_eq!(band_of(399), HungerState::Starving);
    assert_eq!(band_of(-5), HungerState::Starving);
}

#[test]
fn overfull_clock_is_cut_to_650_and_stays_well_fed() {
    let (mut world, hero) = world_with_player(1000, HungerState::WellFed);
    HungerSystem {}.run(&mut world);
    assert_eq!(clock(&world, hero), HungerClock { state: HungerState::WellFed, total_nutrition: 650 });
    assert!(world.log.entries.is_empty());
    assert!(world.suffer_damage.get(hero).is_none());
}

#[test]
fn new_player_is_no_longer_well_fed_after_one_turn() {
    let (mut world, hero) = world_with_player(650, HungerState::WellFed);
    HungerSystem {}.run(&mut world);
    assert_eq!(clock(&world, hero), HungerClock { state: HungerState::Normal, total_nutrition: 649 });
    assert_eq!(world.log.entries, vec!["You are not hungry."]);
}

#[test]
fn becoming_hungry_is_told() {
    let (mut world, hero) = world_with_player(600, HungerState::Normal);
    HungerSystem {}.run(&mut world);
    assert_eq!(clock(&world, hero).state, HungerState::Hungry);
    assert_eq!(clock(&world, hero).total_nutrition, 599);
    assert_eq!(world.log.entries, vec!["You are hungry."]);
}

#[test]
fn starving_is_told_exactly_once() {
    let (mut world, hero) = world_with_player(401, HungerState::Hungry);
    HungerSystem {}.run(&mut world);
    assert_eq!(clock(&world, hero).state, HungerState::Hungry);
    assert!(world.log.entries.is_empty());
    HungerSystem {}.run(&mut world);
    assert_eq!(clock(&world, hero).state, HungerState::Starving);
    assert_eq!(world.log.entries, vec!["You are starving! Eat something!"]);
    for _ in 0..50 {
        HungerSystem {}.run(&mut world);
    }
    assert_eq!(clock(&world, hero).total_nutrition, 349);
    assert_eq!(world.log.entries.len(), 1);
    assert!(world.suffer_damage.get(hero).is_none());
}

#[test]
fn below_200_hunger_deals_one_damage_a_turn() {
    let (mut world, hero) = world_with_player(200, HungerState::Starving);
    HungerSystem {}.run(&mut world);
    assert_eq!(clock(&world, hero).total_nutrition, 199);
    assert_eq!(world.suffer_damage.get(hero).unwrap().amount, vec![1]);
    assert_eq!(
        world.log.entries,
        vec!["Your hunger pangs are getting painful! You suffer 1 damage."]
    );
    DamageSystem {}.run(&mut world);
    assert_eq!(world.combat_stats.get(hero).unwrap().hp, 29);
    HungerSystem {}.run(&mut world);
    DamageSystem {}.run(&mut world);
    assert_eq!(world.combat_stats.get(hero).unwrap().hp, 28);
}

#[test]
fn at_201_no_damage_yet() {
    let (mut world, hero) = world_with_player(201, HungerState::Starving);
    HungerSystem {}.run(&mut world);
    assert_eq!(clock(&world, hero).total_nutrition, 200);
    assert!(world.suffer_damage.get(hero).is_none());
    assert!(world.log.entries.is_empty());
}

#[test]
fn clocks_run_in_their_own_phase_only() {
    let (mut world, hero) = world_with_player(500, HungerState::Hungry);
    spawn_entity(&mut world, 6 * 80 + 6, &"Goblin".to_string());
    let goblin = Entity { index: 1 };
    world
        .hunger_clocks
        .insert(goblin, HungerClock { state: HungerState::Normal, total_nutrition: 150 });
    HungerSystem {}.run(&mut world);
    assert_eq!(clock(&world, hero).total_nutrition, 499);
    assert_eq!(clock(&world, goblin).total_nutrition, 150);
    world.run_state = RunState::MonsterTurn;
    HungerSystem {}.run(&mut world);
    assert_eq!(clock(&world, hero).total_nutrition, 499);
    assert_eq!(clock(&world, goblin), HungerClock { state: HungerState::Starving, total_nutrition: 149 });
    assert_eq!(world.suffer_damage.get(goblin).unwrap().amount, vec![1]);
    assert!(world.log.entries.is_empty());
    world.run_state = RunState::AwaitingInput;
    HungerSystem {}.run(&mut world);
    assert_eq!(clock(&world, hero).total_nutrition, 499);
    assert_eq!(clock(&world, goblin).total_nutrition, 149);
}

#[test]
fn nutrition_saturates_at_the_lower_limit() {
    let (mut world, hero) = world_with_player(i32::MIN, HungerState::Starving);
    HungerSystem {}.run(&mut world);
    assert_eq!(clock(&world, hero).total_nutrition, i32::MIN);
}
