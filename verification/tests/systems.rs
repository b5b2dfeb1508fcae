use rusty_roguelike::components::{
    ActiveCooldown, CombatStats, Confusion, EntityMoved, Invisible, ParticleLifetime, Position,
    WantsBeInvisible, WantsToMelee,
};
use rusty_roguelike::map::{TileMap, TileType};
use rusty_roguelike::map_builders::common::apply_room_to_map;
use rusty_roguelike::rect::{Point, Rect};
use rusty_roguelike::spawner::{player, spawn_entity};
use rusty_roguelike::state::RunState;
use rusty_roguelike::systems::damage_system::{delete_the_dead, total_of, DamageSystem};
use rusty_roguelike::systems::duration_system::DurationSystem;
use rusty_roguelike::systems::map_indexing_system::MapIndexingSystem;
use rusty_roguelike::systems::monster_ai_system::{monster_act, query, MonsterAI, NavigationPath};
use rusty_roguelike::systems::particle_system::{cull_dead_particles, ParticleSpawnSystem};
use rusty_roguelike::systems::run_systems;
use rusty_roguelike::systems::status_effects_system::StatusEffectsSystem;
use rusty_roguelike::systems::trigger_system::TriggerSystem;
use rusty_roguelike::systems::visibility_system::{look, spot_hidden, VisibilitySystem};
use rusty_roguelike::world::{Entity, Fault, World};

struct Nav<'a>(&'a TileMap);

impl<'a> rltk::BaseMap for Nav<'a> {
    fn is_opaque(&self, idx: usize) -> bool {
        self.0.is_opaque(idx)
    }

    fn get_available_exits(&self, idx: usize) -> rltk::SmallVec<[(usize, f32); 10]> {
        self.0
            .get_available_exits(idx)
            .into_iter()
            .map(|(tile, cost)| (tile, cost as f32 / 100.0))
            .collect()
    }

    fn get_pathing_distance(&self, a: usize, b: usize) -> f32 {
        (self.0.pathing_distance_squared(a, b) as f32).sqrt()
    }
}

impl<'a> rltk::Algorithm2D for Nav<'a> {
    fn dimensions(&self) -> rltk::Point {
        rltk::Point::new(80, 43)
    }
}

fn fov(map: &TileMap, p: Point, range: i32) -> Vec<Point> {
    rltk::field_of_view(rltk::Point::new(p.x, p.y), range, &Nav(map))
        .into_iter()
        .map(|q| Point { x: q.x, y: q.y })
        .collect()
}

fn search(map: &TileMap, from: usize, to: usize) -> NavigationPath {
    let path = rltk::a_star_search(from, to, &Nav(map));
    NavigationPath { success: path.success, steps: path.steps }
}

/// A hall with its inside from (11, 11) to (30, 30) and the player at (20, 20).
fn hall() -> (World, Entity) {
    let mut world = World::new(rltk::RandomNumberGenerator::seeded(9));
    apply_room_to_map(&mut world.map, &Rect::new(10, 10, 20, 20));
    let hero = player(&mut world, 20, 20);
    world.player = hero;
    world.player_pos = Point { x: 20, y: 20 };
    (world, hero)
}

fn make(world: &mut World, name: &str, x: i32, y: i32) -> Entity {
    let e = Entity { index: world.capacity() };
    spawn_entity(world, (y * 80 + x) as usize, &name.to_string());
    assert!(world.is_alive(e), "{} is no known kind", name);
    e
}

fn idx(x: usize, y: usize) -> usize {
    y * 80 + x
}

#[test]
fn indexing_blocks_walls_and_blockers_and_lists_occupants() {
    let (mut world, hero) = hall();
    let goblin = make(&mut world, "Goblin", 15, 12);
    let potion = make(&mut world, "Health Potion", 15, 12);
    world.map.blocked[idx(25, 25)] = true;
    world.map.tile_content[idx(25, 25)].push(goblin);
    MapIndexingSystem {}.run(&mut world);
    for t in 0..3440 {
        let wall = world.map.tiles[t] == TileType::Wall;
        assert_eq!(world.map.blocked[t], wall || t == idx(15, 12), "tile {}", t);
    }
    assert_eq!(world.map.tile_content[idx(15, 12)], vec![goblin, potion]);
    assert_eq!(world.map.tile_content[idx(20, 20)], vec![hero]);
    assert!(world.map.tile_content[idx(25, 25)].is_empty());
    assert!(!world.map.blocked[idx(20, 20)]);
}

#[test]
fn indexing_a_position_off_the_map_is_a_fault() {
    let (mut world, _hero) = hall();
    let stray = world.create_entity();
    world.positions.insert(stray, Position { x: 80, y: 3 });
    MapIndexingSystem {}.run(&mut world);
    assert_eq!(world.fault, Some(Fault::OutOfBounds));
}

#[test]
fn damage_sums_the_hits_and_stains_the_tile() {
    let (mut world, hero) = hall();
    world.suffer_damage.insert(
        hero,
        rusty_roguelike::components::SufferDamage { amount: vec![3, 4, 5] },
    );
    DamageSystem {}.run(&mut world);
    assert_eq!(world.combat_stats.get(hero).unwrap().hp, 18);
    assert!(world.map.bloodstains.contains(&idx(20, 20)));
    assert_eq!(world.map.bloodstains.len(), 1);
    assert!(world.suffer_damage.get(hero).is_none());
    assert_eq!(total_of(&vec![3, 4, 5]), 12);
    assert_eq!(total_of(&vec![]), 0);
    assert_eq!(total_of(&vec![i32::MAX, i32::MAX, -1]), 2 * (i32::MAX as i128) - 1);
}

#[test]
fn hit_points_saturate_instead_of_wrapping() {
    let (mut world, hero) = hall();
    world.combat_stats.insert(hero, CombatStats { max_hp: 30, hp: i32::MIN + 5, defense: 0, power: 0 });
    world.suffer_damage.insert(hero, rusty_roguelike::components::SufferDamage { amount: vec![10] });
    DamageSystem {}.run(&mut world);
    assert_eq!(world.combat_stats.get(hero).unwrap().hp, i32::MIN);
}

#[test]
fn the_dead_are_deleted_in_the_order_of_their_indices() {
    let (mut world, _hero) = hall();
    let a = make(&mut world, "Goblin", 12, 12);
    let b = make(&mut world, "Orc", 13, 12);
    let c = make(&mut world, "Goblin", 14, 12);
    for e in [a, b] {
        world.combat_stats.insert(e, CombatStats { max_hp: 16, hp: -2, defense: 1, power: 4 });
    }
    world.names.remove(b);
    assert_eq!(delete_the_dead(&mut world), None);
    assert!(!world.is_alive(a) && !world.is_alive(b) && world.is_alive(c));
    assert_eq!(world.log.entries, vec!["Goblin is dead."]);
}

#[test]
fn field_of_view_fills_the_viewshed_and_lights_the_map() {
    let (mut world, hero) = hall();
    let goblin = make(&mut world, "Goblin", 28, 28);
    world.map.visible_tiles[idx(1, 1)] = true;
    world.map.revealed_tiles[idx(1, 1)] = true;
    VisibilitySystem {}.run(&mut world, fov);
    let seen = world.viewsheds.get(hero).unwrap().visible_tiles.clone();
    assert!(seen.len() > 100);
    assert!(seen.contains(&Point { x: 20, y: 20 }));
    assert!(seen.contains(&Point { x: 27, y: 20 }));
    assert!(!seen.contains(&Point { x: 30, y: 30 }));
    assert!(seen.iter().all(|p| p.x >= 0 && p.x < 80 && p.y >= 0 && p.y < 43));
    for t in 0..3440 {
        let p = Point { x: (t % 80) as i32, y: (t / 80) as i32 };
        assert_eq!(world.map.visible_tiles[t], seen.contains(&p));
        assert_eq!(world.map.revealed_tiles[t], seen.contains(&p) || t == idx(1, 1));
    }
    assert!(world.viewsheds.get(hero).unwrap().dirty);
    let monster_view = &world.viewsheds.get(goblin).unwrap().visible_tiles;
    assert!(monster_view.contains(&Point { x: 28, y: 28 }));
    assert!(monster_view.iter().all(|p| (p.x - 28).abs() <= 5 && (p.y - 28).abs() <= 5));
}

#[test]
fn clean_viewsheds_are_left_alone() {
    let (mut world, hero) = hall();
    world.viewsheds.get_mut(hero).unwrap().dirty = false;
    VisibilitySystem {}.run(&mut world, fov);
    assert!(world.viewsheds.get(hero).unwrap().visible_tiles.is_empty());
    assert!(world.map.visible_tiles.iter().all(|v| !*v));
}

#[test]
fn look_clips_the_view_to_the_map() {
    let (mut world, hero) = hall();
    let answer = vec![
        Point { x: 20, y: 21 },
        Point { x: -1, y: 5 },
        Point { x: 79, y: 42 },
        Point { x: 80, y: 0 },
        Point { x: 0, y: 43 },
        Point { x: 0, y: 0 },
    ];
    look(&mut world, hero, &answer);
    assert_eq!(
        world.viewsheds.get(hero).unwrap().visible_tiles,
        vec![Point { x: 20, y: 21 }, Point { x: 79, y: 42 }, Point { x: 0, y: 0 }]
    );
    let lit: Vec<usize> = (0..3440).filter(|t| world.map.visible_tiles[*t]).collect();
    assert_eq!(lit, vec![0, idx(20, 21), idx(79, 42)]);
}

#[test]
fn a_one_on_the_die_spots_what_hides() {
    let (mut world, hero) = hall();
    let trap = make(&mut world, "Bear Trap", 21, 20);
    spot_hidden(&mut world, hero, trap, 2);
    spot_hidden(&mut world, hero, trap, 24);
    assert!(world.invisible.contains(trap));
    spot_hidden(&mut world, trap, trap, 1);
    assert!(world.invisible.contains(trap));
    spot_hidden(&mut world, hero, trap, 1);
    assert!(!world.invisible.contains(trap));
    assert_eq!(world.log.entries, vec!["You spotted a Bear Trap."]);
    spot_hidden(&mut world, hero, trap, 1);
    assert_eq!(world.log.entries.len(), 1);
}

#[test]
fn hidden_things_in_sight_are_spotted_by_chance() {
    let (mut world, hero) = hall();
    let trap = make(&mut world, "Bear Trap", 21, 20);
    let unseen = make(&mut world, "Bear Trap", 30, 30);
    MapIndexingSystem {}.run(&mut world);
    let mut passes = 0;
    while world.invisible.contains(trap) {
        VisibilitySystem {}.run(&mut world, fov);
        passes += 1;
        assert!(passes < 2000, "a chance of 1 in 24 should have come up");
    }
    assert_eq!(world.log.entries, vec!["You spotted a Bear Trap."]);
    assert!(world.invisible.contains(unseen));
    assert!(world.is_alive(hero));
}

#[test]
fn monster_next_to_the_player_attacks() {
    let (mut world, hero) = hall();
    let goblin = make(&mut world, "Goblin", 21, 21);
    world.run_state = RunState::MonsterTurn;
    MonsterAI {}.run(&mut world, search);
    assert_eq!(world.wants_melee.get(goblin), Some(&WantsToMelee { target: hero }));
    assert_eq!(world.positions.get(goblin), Some(&Position { x: 21, y: 21 }));
    assert!(world.monsters.get(goblin).unwrap().is_targeting_player);
    let mark = world.particles.requests[0];
    assert_eq!((mark.x, mark.y, mark.glyph, mark.fg, mark.lifetime), (21, 20, 33, 0xFFFF00, 400000));
}

#[test]
fn monster_that_sees_the_player_steps_closer() {
    let (mut world, hero) = hall();
    let goblin = make(&mut world, "Goblin", 24, 20);
    VisibilitySystem {}.run(&mut world, fov);
    MapIndexingSystem {}.run(&mut world);
    assert!(world.map.blocked[idx(24, 20)]);
    world.run_state = RunState::MonsterTurn;
    world.viewsheds.get_mut(goblin).unwrap().dirty = false;
    MonsterAI {}.run(&mut world, search);
    assert_eq!(world.positions.get(goblin), Some(&Position { x: 23, y: 20 }));
    assert!(!world.map.blocked[idx(24, 20)]);
    assert!(world.map.blocked[idx(23, 20)]);
    assert!(world.viewsheds.get(goblin).unwrap().dirty);
    assert!(world.wants_melee.get(goblin).is_none());
    assert!(world.monsters.get(goblin).unwrap().is_targeting_player);
    assert_eq!(world.particles.requests.len(), 1);
    assert_eq!((world.particles.requests[0].x, world.particles.requests[0].y), (23, 19));
    assert_eq!(world.positions.get(hero), Some(&Position { x: 20, y: 20 }));
    MonsterAI {}.run(&mut world, search);
    MonsterAI {}.run(&mut world, search);
    assert_eq!(world.positions.get(goblin), Some(&Position { x: 21, y: 20 }));
    assert_eq!(world.particles.requests.len(), 1);
    MonsterAI {}.run(&mut world, search);
    assert_eq!(world.positions.get(goblin), Some(&Position { x: 21, y: 20 }));
    assert_eq!(world.wants_melee.get(goblin), Some(&WantsToMelee { target: hero }));
}

#[test]
fn monsters_act_in_their_turn_only() {
    let (mut world, _hero) = hall();
    let goblin = make(&mut world, "Goblin", 21, 21);
    for phase in [RunState::PlayerTurn, RunState::PreRun, RunState::AwaitingInput] {
        world.run_state = phase;
        MonsterAI {}.run(&mut world, search);
        assert!(world.wants_melee.get(goblin).is_none());
    }
}

#[test]
fn confused_monsters_and_hidden_players() {
    let (mut world, hero) = hall();
    let goblin = make(&mut world, "Goblin", 21, 21);
    world.run_state = RunState::MonsterTurn;
    world.confusion.insert(goblin, Confusion { turns: 2 });
    MonsterAI {}.run(&mut world, search);
    assert!(world.wants_melee.get(goblin).is_none());
    assert!(world.particles.requests.is_empty());
    world.confusion.remove(goblin);
    world.invisible.insert(hero, Invisible { turns: Some(3) });
    world.monsters.get_mut(goblin).unwrap().is_targeting_player = true;
    MonsterAI {}.run(&mut world, search);
    assert!(world.wants_melee.get(goblin).is_none());
    assert!(!world.monsters.get(goblin).unwrap().is_targeting_player);
    let mark = world.particles.requests[0];
    assert_eq!((mark.x, mark.y, mark.glyph, mark.fg), (21, 20, 63, 0xBEBEBE));
    MonsterAI {}.run(&mut world, search);
    assert_eq!(world.particles.requests.len(), 1);
}

#[test]
fn monster_that_does_not_see_the_player_gives_up() {
    let (mut world, _hero) = hall();
    let goblin = make(&mut world, "Goblin", 29, 29);
    world.run_state = RunState::MonsterTurn;
    world.monsters.get_mut(goblin).unwrap().is_targeting_player = true;
    assert_eq!(query(&world, goblin), None);
    MonsterAI {}.run(&mut world, search);
    assert!(!world.monsters.get(goblin).unwrap().is_targeting_player);
    assert_eq!(world.positions.get(goblin), Some(&Position { x: 29, y: 29 }));
}

#[test]
fn monster_follows_whatever_path_it_is_given() {
    let (mut world, _hero) = hall();
    let goblin = make(&mut world, "Goblin", 24, 20);
    VisibilitySystem {}.run(&mut world, fov);
    MapIndexingSystem {}.run(&mut world);
    world.run_state = RunState::MonsterTurn;
    assert_eq!(query(&world, goblin), Some((idx(24, 20), idx(20, 20))));
    let detour = NavigationPath { success: true, steps: vec![idx(24, 20), idx(25, 21), 0] };
    monster_act(&mut world, goblin, &detour);
    assert_eq!(world.positions.get(goblin), Some(&Position { x: 25, y: 21 }));
    assert!(world.map.blocked[idx(25, 21)] && !world.map.blocked[idx(24, 20)]);
    let failed = NavigationPath { success: false, steps: vec![idx(25, 21), idx(24, 21)] };
    monster_act(&mut world, goblin, &failed);
    assert_eq!(world.positions.get(goblin), Some(&Position { x: 25, y: 21 }));
    let short = NavigationPath { success: true, steps: vec![idx(25, 21)] };
    monster_act(&mut world, goblin, &short);
    assert_eq!(world.positions.get(goblin), Some(&Position { x: 25, y: 21 }));
    assert_eq!(world.fault, None);
    let wild = NavigationPath { success: true, steps: vec![idx(25, 21), 3440] };
    monster_act(&mut world, goblin, &wild);
    assert_eq!(world.fault, Some(Fault::OutOfBounds));
    assert_eq!(world.positions.get(goblin), Some(&Position { x: 25, y: 21 }));
}

#[test]
fn stepping_on_a_trap_springs_it() {
    let (mut world, hero) = hall();
    let trap = make(&mut world, "Bear Trap", 20, 20);
    let potion = make(&mut world, "Health Potion", 20, 20);
    MapIndexingSystem {}.run(&mut world);
    world.entity_moved.insert(hero, EntityMoved {});
    TriggerSystem {}.run(&mut world);
    assert_eq!(world.log.entries, vec!["Bear Trap triggers!"]);
    assert_eq!(world.suffer_damage.get(hero).unwrap().amount, vec![6]);
    assert!(!world.invisible.contains(trap));
    assert_eq!(world.doomed, vec![trap]);
    assert!(world.is_alive(trap));
    assert!(world.entity_moved.get(hero).is_none());
    assert!(world.suffer_damage.get(potion).is_none());
    let mark = world.particles.requests[0];
    assert_eq!((mark.x, mark.y, mark.glyph, mark.lifetime), (20, 20, 19, 200000));
    world.maintain();
    assert!(!world.is_alive(trap));
}

#[test]
fn who_did_not_move_springs_nothing() {
    let (mut world, hero) = hall();
    let trap = make(&mut world, "Bear Trap", 20, 20);
    MapIndexingSystem {}.run(&mut world);
    let goblin = make(&mut world, "Goblin", 25, 25);
    world.entity_moved.insert(goblin, EntityMoved {});
    TriggerSystem {}.run(&mut world);
    assert!(world.log.entries.is_empty());
    assert!(world.suffer_damage.get(hero).is_none());
    assert!(world.invisible.contains(trap));
    assert!(world.entity_moved.get(goblin).is_none());
}

#[test]
fn durations_count_down_in_the_monsters_turn() {
    let (mut world, hero) = hall();
    let trap = make(&mut world, "Bear Trap", 12, 12);
    let goblin = make(&mut world, "Goblin", 14, 14);
    let timer = rusty_roguelike::spawner::invisibility_timer(&mut world);
    world.invisible.insert(hero, Invisible { turns: Some(2) });
    world.confusion.insert(goblin, Confusion { turns: 1 });
    world.active_cooldowns.insert(timer, ActiveCooldown { turns_remaining: 3 });
    world.run_state = RunState::PlayerTurn;
    DurationSystem {}.run(&mut world);
    assert_eq!(world.invisible.get(hero), Some(&Invisible { turns: Some(2) }));
    world.run_state = RunState::MonsterTurn;
    DurationSystem {}.run(&mut world);
    assert_eq!(world.invisible.get(hero), Some(&Invisible { turns: Some(1) }));
    assert_eq!(world.invisible.get(trap), Some(&Invisible { turns: None }));
    assert!(world.confusion.get(goblin).is_none());
    assert_eq!(world.active_cooldowns.get(timer), Some(&ActiveCooldown { turns_remaining: 2 }));
    DurationSystem {}.run(&mut world);
    assert!(world.invisible.get(hero).is_none());
    DurationSystem {}.run(&mut world);
    assert!(world.active_cooldowns.get(timer).is_none());
    assert_eq!(world.invisible.get(trap), Some(&Invisible { turns: None }));
}

#[test]
fn wishes_for_invisibility_are_granted() {
    let (mut world, hero) = hall();
    let goblin = make(&mut world, "Goblin", 14, 14);
    world.wants_be_invisible.insert(hero, WantsBeInvisible { entity: goblin, turns: 7 });
    StatusEffectsSystem {}.run(&mut world);
    assert_eq!(world.invisible.get(goblin), Some(&Invisible { turns: Some(7) }));
    assert!(world.invisible.get(hero).is_none());
    assert!(world.wants_be_invisible.get(hero).is_none());
    world.wants_be_invisible.insert(hero, WantsBeInvisible { entity: Entity { index: 50 }, turns: 7 });
    StatusEffectsSystem {}.run(&mut world);
    assert_eq!(world.fault, Some(Fault::DeadEntity));
}

#[test]
fn particles_are_made_and_die_of_age() {
    let (mut world, _hero) = hall();
    world.particles.request(12, 13, 0xFF0000, 0, 19, 200000);
    world.particles.request(14, 15, 0x00FF00, 0, 3, 130000);
    ParticleSpawnSystem {}.run(&mut world);
    assert!(world.particles.requests.is_empty());
    let (a, b) = (Entity { index: 1 }, Entity { index: 2 });
    assert_eq!(world.positions.get(a), Some(&Position { x: 12, y: 13 }));
    let look = world.renderables.get(b).unwrap();
    assert_eq!((look.layer, look.glyph, look.fg, look.bg), (0, 3, 0x00FF00, 0));
    assert_eq!(world.particle_lifetimes.get(b), Some(&ParticleLifetime { lifetime_us: 130000 }));
    cull_dead_particles(&mut world, 130000);
    assert!(world.is_alive(a) && world.is_alive(b));
    assert_eq!(world.particle_lifetimes.get(b), Some(&ParticleLifetime { lifetime_us: 0 }));
    cull_dead_particles(&mut world, 1);
    assert!(world.is_alive(a) && !world.is_alive(b));
    assert!(world.positions.get(b).is_none());
    cull_dead_particles(&mut world, 70000);
    assert!(!world.is_alive(a));
    cull_dead_particles(&mut world, i64::MAX);
    assert_eq!(world.capacity(), 3);
}

#[test]
fn a_turn_runs_the_systems_in_order() {
    let (mut world, hero) = hall();
    let goblin = make(&mut world, "Goblin", 21, 20);
    world.run_state = RunState::PlayerTurn;
    world.wants_melee.insert(hero, WantsToMelee { target: goblin });
    run_systems(&mut world, &fov, &search);
    assert_eq!(world.fault, None);
    assert_eq!(world.combat_stats.get(goblin).unwrap().hp, 12);
    assert!(world.wants_melee.get(hero).is_none());
    assert!(world.suffer_damage.get(goblin).is_none());
    assert!(world.particles.requests.is_empty());
    assert_eq!(world.hunger_clocks.get(hero).unwrap().total_nutrition, 649);
    assert!(world.map.blocked[idx(21, 20)]);
    assert_eq!(world.map.tile_content[idx(21, 20)], vec![goblin]);
    assert!(world.map.visible_tiles[idx(21, 20)]);
    let spark = Entity { index: 2 };
    assert_eq!(world.positions.get(spark), Some(&Position { x: 21, y: 20 }));
    assert_eq!(world.particle_lifetimes.get(spark), Some(&ParticleLifetime { lifetime_us: 130000 }));
    assert_eq!(
        world.log.entries,
        vec!["Player hits Goblin, for 4 hp.", "You are not hungry."]
    );
    world.run_state = RunState::MonsterTurn;
    run_systems(&mut world, &fov, &search);
    assert_eq!(world.combat_stats.get(hero).unwrap().hp, 28);
    assert_eq!(world.log.entries[2], "Goblin hits Player, for 2 hp.");
    assert!(world.map.bloodstains.contains(&idx(20, 20)));
    assert!(world.map.bloodstains.contains(&idx(21, 20)));
}

#[test]
fn five_rounds_of_melee() {
    let (mut world, hero) = hall();
    let goblin = make(&mut world, "Goblin", 21, 20);
    world.combat_stats.insert(goblin, CombatStats { max_hp: 16, hp: 16, defense: 2, power: 4 });
    for round in 1..=5 {
        world.run_state = RunState::PlayerTurn;
        world.wants_melee.insert(hero, WantsToMelee { target: goblin });
        run_systems(&mut world, &fov, &search);
        assert!(world.wants_melee.get(hero).is_none());
        assert_eq!(world.combat_stats.get(goblin).unwrap().hp, 16 - 3 * round);
        assert_eq!(delete_the_dead(&mut world), None);
        assert!(world.is_alive(goblin));
    }
    world.wants_melee.insert(hero, WantsToMelee { target: goblin });
    run_systems(&mut world, &fov, &search);
    assert_eq!(world.combat_stats.get(goblin).unwrap().hp, -2);
    assert_eq!(delete_the_dead(&mut world), None);
    assert!(!world.is_alive(goblin));
    assert_eq!(world.log.entries.last().unwrap(), "Goblin is dead.");
}

#[test]
fn nothing_is_deleted_after_a_fault() {
    let (mut world, hero) = hall();
    let trap = make(&mut world, "Bear Trap", 20, 20);
    world.entity_moved.insert(hero, EntityMoved {});
    world.run_state = RunState::PlayerTurn;
    MapIndexingSystem {}.run(&mut world);
    world.wants_melee.insert(hero, WantsToMelee { target: Entity { index: 40 } });
    run_systems(&mut world, &fov, &search);
    assert_eq!(world.fault, Some(Fault::MissingComponent));
    assert_eq!(world.doomed, vec![trap]);
    assert!(world.is_alive(trap));
    assert!(world.wants_melee.get(hero).is_some());
    assert_eq!(world.hunger_clocks.get(hero).unwrap().total_nutrition, 650);
}
