use rusty_roguelike::components::{CombatStats, Name, WantsToMelee};
use rusty_roguelike::spawner::{player, spawn_entity};
use rusty_roguelike::systems::damage_system::{delete_the_dead, DamageSystem};
use rusty_roguelike::systems::melee_combat_system::MeleeCombatSystem;
use rusty_roguelike::world::{Entity, World};

fn new_world() -> World {
    World::new(rltk::RandomNumberGenerator::seeded(7))
}

fn duel() -> (World, Entity, Entity) {
    let mut world = new_world();
    let hero = player(&mut world, 10, 10);
    world.player = hero;
    spawn_entity(&mut world, 10 * 80 + 11, &"Goblin".to_string());
    let goblin = Entity { index: 1 };
    (world, hero, goblin)
}

fn hit(world: &mut World, attacker: Entity, target: Entity) {
    world.wants_melee.insert(attacker, WantsToMelee { target });
    MeleeCombatSystem {}.run(world);
    DamageSystem {}.run(world);
}

#[test]
fn player_hits_goblin_for_power_less_defense() {
    let (mut world, hero, goblin) = duel();
    hit(&mut world, hero, goblin);
    assert_eq!(world.combat_stats.get(goblin).unwrap().hp, 12);
    assert_eq!(world.log.entries.last().unwrap(), "Player hits Goblin, for 4 hp.");
    assert!(world.wants_melee.get(hero).is_none());
    assert!(world.suffer_damage.get(goblin).is_none());
    assert!(world.fault.is_none());
}

#[test]
fn goblin_dies_when_hit_points_run_out() {
    let (mut world, hero, goblin) = duel();
    for _ in 0..3 {
        hit(&mut world, hero, goblin);
        assert_eq!(delete_the_dead(&mut world), None);
        assert!(world.is_alive(goblin));
    }
    assert_eq!(world.combat_stats.get(goblin).unwrap().hp, 4);
    hit(&mut world, hero, goblin);
    assert_eq!(world.combat_stats.get(goblin).unwrap().hp, 0);
    assert_eq!(delete_the_dead(&mut world), None);
    assert!(!world.is_alive(goblin));
    assert!(world.combat_stats.get(goblin).is_none());
    assert_eq!(world.log.entries.last().unwrap(), "Goblin is dead.");
}

#[test]
fn equal_power_and_defense_hurt_nobody() {
    let (mut world, hero, goblin) = duel();
    world.combat_stats.insert(goblin, CombatStats { max_hp: 16, hp: 16, defense: 5, power: 4 });
    hit(&mut world, hero, goblin);
    assert_eq!(world.combat_stats.get(goblin).unwrap().hp, 16);
    assert_eq!(world.log.entries.last().unwrap(), "Player is unable to hurt Goblin");
}

#[test]
fn two_attackers_make_one_decrement() {
    let (mut world, hero, goblin) = duel();
    spawn_entity(&mut world, 10 * 80 + 12, &"Orc".to_string());
    let orc = Entity { index: 2 };
    world.wants_melee.insert(hero, WantsToMelee { target: goblin });
    world.wants_melee.insert(orc, WantsToMelee { target: goblin });
    MeleeCombatSystem {}.run(&mut world);
    assert_eq!(world.suffer_damage.get(goblin).unwrap().amount, vec![4, 3]);
    assert_eq!(world.combat_stats.get(goblin).unwrap().hp, 16);
    DamageSystem {}.run(&mut world);
    assert_eq!(world.combat_stats.get(goblin).unwrap().hp, 9);
    assert!(world.suffer_damage.get(goblin).is_none());
}

#[test]
fn dying_player_is_reported_and_kept() {
    let (mut world, hero, _goblin) = duel();
    world.combat_stats.insert(hero, CombatStats { max_hp: 30, hp: 0, defense: 2, power: 5 });
    assert_eq!(delete_the_dead(&mut world), Some(true));
    assert!(world.is_alive(hero));
}

#[test]
fn attack_on_target_without_stats_is_a_fault() {
    let (mut world, hero, _goblin) = duel();
    let ghost = world.create_entity();
    world.names.insert(ghost, Name { name: "Ghost".to_string() });
    world.wants_melee.insert(hero, WantsToMelee { target: ghost });
    MeleeCombatSystem {}.run(&mut world);
    assert_eq!(world.fault, Some(rusty_roguelike::world::Fault::MissingComponent));
}

#[test]
fn a_hit_asks_for_a_marker_on_the_target() {
    let (mut world, hero, goblin) = duel();
    world.wants_melee.insert(hero, WantsToMelee { target: goblin });
    MeleeCombatSystem {}.run(&mut world);
    let mark = world.particles.requests[0];
    assert_eq!(
        (mark.x, mark.y, mark.fg, mark.bg, mark.glyph, mark.lifetime),
        (11, 10, 0xFFA500, 0, 19, 130000)
    );
}

#[test]
fn worn_weapons_and_shields_count() {
    let (mut world, hero, goblin) = duel();
    for (name, owner) in [("Longsword", hero), ("Dagger", hero), ("Tower Shield", goblin), ("Shield", hero)] {
        let item = Entity { index: world.capacity() };
        spawn_entity(&mut world, 0, &name.to_string());
        let slot = world.equippable.get(item).unwrap().slot;
        world
            .equipped
            .insert(item, rusty_roguelike::components::Equipped { owner, slot });
    }
    hit(&mut world, hero, goblin);
    // 5 + 4 + 2 against 1 + 3
    assert_eq!(world.combat_stats.get(goblin).unwrap().hp, 16 - 7);
    hit(&mut world, goblin, hero);
    // 4 against 2 + 1
    assert_eq!(world.combat_stats.get(hero).unwrap().hp, 29);
}

#[test]
fn an_invisible_attacker_gives_itself_away() {
    let (mut world, hero, goblin) = duel();
    world.invisible.insert(hero, rusty_roguelike::components::Invisible { turns: Some(9) });
    world.wants_melee.insert(hero, WantsToMelee { target: goblin });
    MeleeCombatSystem {}.run(&mut world);
    assert!(world.invisible.get(hero).is_none());
    assert_eq!(
        world.log.entries,
        vec!["Player attacks, and loses invisibility", "Player hits Goblin, for 4 hp."]
    );
}

#[test]
fn the_dead_do_not_fight() {
    let (mut world, hero, goblin) = duel();
    world.combat_stats.insert(hero, CombatStats { max_hp: 30, hp: 0, defense: 2, power: 5 });
    world.wants_melee.insert(hero, WantsToMelee { target: goblin });
    MeleeCombatSystem {}.run(&mut world);
    assert!(world.suffer_damage.get(goblin).is_none());
    assert!(world.log.entries.is_empty());
    assert!(world.particles.requests.is_empty());
    assert!(world.wants_melee.get(hero).is_none());
    world.combat_stats.insert(hero, CombatStats { max_hp: 30, hp: 30, defense: 2, power: 5 });
    world.combat_stats.insert(goblin, CombatStats { max_hp: 16, hp: 0, defense: 1, power: 4 });
    world.wants_melee.insert(hero, WantsToMelee { target: goblin });
    MeleeCombatSystem {}.run(&mut world);
    assert!(world.suffer_damage.get(goblin).is_none());
    assert!(world.log.entries.is_empty());
    assert_eq!(world.particles.requests.len(), 1);
}

#[test]
fn an_attacker_without_hit_points_stays_hidden() {
    let (mut world, hero, goblin) = duel();
    world.combat_stats.insert(hero, CombatStats { max_hp: 30, hp: 0, defense: 2, power: 5 });
    world.invisible.insert(hero, rusty_roguelike::components::Invisible { turns: Some(9) });
    world.wants_melee.insert(hero, WantsToMelee { target: goblin });
    MeleeCombatSystem {}.run(&mut world);
    assert!(world.invisible.get(hero).is_some());
    assert!(world.log.entries.is_empty());
}
