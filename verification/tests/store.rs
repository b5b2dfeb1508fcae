use rusty_roguelike::components::{Name, Position, SufferDamage, WantsToMelee};
use rusty_roguelike::rect::Point;
use rusty_roguelike::state::RunState;
use rusty_roguelike::systems::particle_system::ParticleBuilder;
use rusty_roguelike::world::{Entity, Fault, Table, World};

fn new_world() -> World {
    World::new(rltk::RandomNumberGenerator::seeded(5))
}

#[test]
fn new_world_is_empty() {
    let world = new_world();
    assert_eq!(world.capacity(), 0);
    assert!(world.doomed.is_empty());
    assert_eq!(world.player, Entity { index: 0 });
    assert_eq!(world.player_pos, Point { x: 0, y: 0 });
    assert_eq!(world.run_state, RunState::PreRun);
    assert!(world.log.entries.is_empty());
    assert!(world.particles.requests.is_empty());
    assert_eq!(world.fault, None);
    assert_eq!(world.map.depth, 1);
    assert!(!world.is_alive(Entity { index: 0 }));
}

#[test]
fn entities_get_increasing_indices_that_are_not_reused() {
    let mut world = new_world();
    let a = world.create_entity();
    let b = world.create_entity();
    assert_eq!((a.index, b.index), (0, 1));
    assert!(world.delete_entity(a));
    assert!(!world.is_alive(a));
    let c = world.create_entity();
    assert_eq!(c.index, 2);
    assert!(!world.is_alive(a) && world.is_alive(b) && world.is_alive(c));
    assert!(!world.delete_entity(a));
    assert!(!world.delete_entity(Entity { index: 77 }));
}

#[test]
fn table_insert_get_remove() {
    let mut table: Table<Position> = Table::new();
    let e = Entity { index: 3 };
    assert!(table.get(e).is_none());
    assert!(!table.contains(e));
    table.insert(e, Position { x: 1, y: 2 });
    assert_eq!(table.get(e), Some(&Position { x: 1, y: 2 }));
    assert!(table.get(Entity { index: 2 }).is_none());
    assert!(table.get(Entity { index: 4 }).is_none());
    table.insert(e, Position { x: 9, y: 9 });
    assert_eq!(table.get(e), Some(&Position { x: 9, y: 9 }));
    table.get_mut(e).unwrap().x = 4;
    assert_eq!(table.get(e), Some(&Position { x: 4, y: 9 }));
    table.remove(e);
    assert!(table.get(e).is_none());
    table.remove(Entity { index: 100 });
    table.insert(Entity { index: 0 }, Position { x: 0, y: 0 });
    table.clear();
    assert!(!table.contains(Entity { index: 0 }));
}

#[test]
fn immediate_delete_takes_the_components_along() {
    let mut world = new_world();
    let a = world.create_entity();
    let b = world.create_entity();
    world.positions.insert(a, Position { x: 1, y: 1 });
    world.names.insert(a, Name { name: "a".to_string() });
    world.names.insert(b, Name { name: "b".to_string() });
    assert!(world.delete_entity(a));
    assert!(world.positions.get(a).is_none());
    assert!(world.names.get(a).is_none());
    assert_eq!(world.names.get(b).unwrap().name, "b");
    assert_eq!(world.capacity(), 2);
}

#[test]
fn deferred_delete_waits_for_maintain() {
    let mut world = new_world();
    let a = world.create_entity();
    let b = world.create_entity();
    world.names.insert(a, Name { name: "a".to_string() });
    assert!(world.delete(a));
    assert!(world.delete(a));
    assert!(!world.delete(Entity { index: 9 }));
    assert!(world.is_alive(a));
    assert_eq!(world.names.get(a).unwrap().name, "a");
    assert_eq!(world.doomed, vec![a, a]);
    world.maintain();
    assert!(!world.is_alive(a));
    assert!(world.names.get(a).is_none());
    assert!(world.is_alive(b));
    assert!(world.doomed.is_empty());
}

#[test]
fn delete_all_leaves_no_entity() {
    let mut world = new_world();
    for i in 0..5 {
        let e = world.create_entity();
        world.positions.insert(e, Position { x: i, y: i });
    }
    world.delete_all();
    assert_eq!(world.capacity(), 5);
    for i in 0..5 {
        assert!(!world.is_alive(Entity { index: i }));
        assert!(world.positions.get(Entity { index: i }).is_none());
    }
}

#[test]
fn first_fault_is_kept() {
    let mut world = new_world();
    world.fail(Fault::NoTarget);
    world.fail(Fault::DeadEntity);
    assert_eq!(world.fault, Some(Fault::NoTarget));
}

#[test]
fn new_damage_accumulates_hits_in_order() {
    let mut store: Table<SufferDamage> = Table::new();
    let victim = Entity { index: 2 };
    SufferDamage::new_damage(&mut store, victim, 3);
    assert_eq!(store.get(victim).unwrap().amount, vec![3]);
    SufferDamage::new_damage(&mut store, victim, 5);
    SufferDamage::new_damage(&mut store, Entity { index: 0 }, 1);
    assert_eq!(store.get(victim).unwrap().amount, vec![3, 5]);
    assert_eq!(store.get(Entity { index: 0 }).unwrap().amount, vec![1]);
}

#[test]
fn particle_requests_queue_up() {
    let mut builder = ParticleBuilder::new();
    builder.request(1, 2, 0xFF0000, 0, 19, 200000);
    builder.request(3, 4, 0x00FF00, 0, 3, 130000);
    assert_eq!(builder.requests.len(), 2);
    assert_eq!(builder.requests[0].x, 1);
    assert_eq!(builder.requests[0].lifetime, 200000);
    assert_eq!(builder.requests[1].glyph, 3);
    assert_eq!(builder.requests[1].fg, 0x00FF00);
}

#[test]
fn transients_are_forgotten() {
    let mut world = new_world();
    let a = world.create_entity();
    world.positions.insert(a, Position { x: 1, y: 1 });
    world.wants_melee.insert(a, WantsToMelee { target: a });
    world.particles.request(1, 1, 0, 0, 1, 1);
    world.clear_transients();
    assert!(world.wants_melee.get(a).is_none());
    assert!(world.particles.requests.is_empty());
    assert_eq!(world.positions.get(a), Some(&Position { x: 1, y: 1 }));
}

#[test]
fn shown_particles_are_forgotten_too() {
    let mut world = new_world();
    let hero = world.create_entity();
    world.positions.insert(hero, Position { x: 1, y: 1 });
    world.particles.request(2, 2, 0, 0, 1, 1000);
    rusty_roguelike::systems::particle_system::ParticleSpawnSystem {}.run(&mut world);
    let spark = Entity { index: 1 };
    assert!(world.is_alive(spark));
    world.clear_transients();
    assert!(!world.is_alive(spark));
    assert!(world.positions.get(spark).is_none());
    assert!(world.is_alive(hero));
}
