use rusty_roguelike::components::{
    CombatStats, Equipped, EquipmentSlot, HungerClock, HungerState, InInventory, Position,
    WantsToDropItem, WantsToMelee, WantsToPickupItem, WantsToRemoveItem, WantsToUseItem,
};
use rusty_roguelike::gui::{
    choose_item, create_character, drop_item_menu, equipment_of, inventory_of, ranged_target,
    remove_item_menu, show_dead_screen, show_inventory, target_cells, tooltips, ItemMenuResult,
};
use rusty_roguelike::map::{TileMap, TileType};
use rusty_roguelike::map_builders::common::apply_room_to_map;
use rusty_roguelike::menu::{main_menu, MainMenuResult};
use rusty_roguelike::player::{
    decode, get_item, player_input, skip_turn, try_move_player, try_next_level, Command, Key,
};
use rusty_roguelike::rect::{Point, Rect};
use rusty_roguelike::spawner::{player, spawn_entity};
use rusty_roguelike::state::{Effect, FrameInput, MainMenuSelection, RunState, State};
use rusty_roguelike::systems::map_indexing_system::MapIndexingSystem;
use rusty_roguelike::systems::monster_ai_system::NavigationPath;
use rusty_roguelike::world::{Entity, Fault, World};

struct Nav<'a>(&'a TileMap);

impl<'a> rltk::BaseMap for Nav<'a> {
    fn is_opaque(&self, idx: usize) -> bool {
        self.0.is_opaque(idx)
    }

    fn get_available_exits(&self, idx: usize) -> rltk::SmallVec<[(usize, f32); 10]> {
        self.0
            .get_available_exits(idx)
            .into_iter()
            .map(|(tile, cost)| (tile, cost as f32 / 100.0))
            .collect()
    }

    fn get_pathing_distance(&self, a: usize, b: usize) -> f32 {
        (self.0.pathing_distance_squared(a, b) as f32).sqrt()
    }
}

impl<'a> rltk::Algorithm2D for Nav<'a> {
    fn dimensions(&self) -> rltk::Point {
        rltk::Point::new(80, 43)
    }
}

fn fov(map: &TileMap, p: Point, range: i32) -> Vec<Point> {
    rltk::field_of_view(rltk::Point::new(p.x, p.y), range, &Nav(map))
        .into_iter()
        .map(|q| Point { x: q.x, y: q.y })
        .collect()
}

fn search(map: &TileMap, from: usize, to: usize) -> NavigationPath {
    let path = rltk::a_star_search(from, to, &Nav(map));
    NavigationPath { success: path.success, steps: path.steps }
}

fn quiet() -> FrameInput {
    FrameInput {
        key: None,
        selection: -1,
        mouse: Point { x: 0, y: 0 },
        left_click: false,
        frame_time_us: 16000,
        save_exists: false,
    }
}

fn press(key: Key) -> FrameInput {
    FrameInput { key: Some(key), ..quiet() }
}

fn letter(n: i32) -> FrameInput {
    FrameInput { key: Some(Key::Other), selection: n, ..quiet() }
}

fn tick(state: &mut State, input: FrameInput) -> Effect {
    state.tick(&input, &fov, &search)
}

/// A hall with its inside from (11, 11) to (30, 30) and the player at (20, 20).
fn hall() -> (World, Entity) {
    let mut world = World::new(rltk::RandomNumberGenerator::seeded(9));
    apply_room_to_map(&mut world.map, &Rect::new(10, 10, 20, 20));
    let hero = player(&mut world, 20, 20);
    world.player = hero;
    world.player_pos = Point { x: 20, y: 20 };
    (world, hero)
}

fn make(world: &mut World, name: &str, x: i32, y: i32) -> Entity {
    let e = Entity { index: world.capacity() };
    spawn_entity(world, (y * 80 + x) as usize, &name.to_string());
    assert!(world.is_alive(e), "{} is no known kind", name);
    e
}

fn carry(world: &mut World, owner: Entity, name: &str) -> Entity {
    let item = make(world, name, 0, 0);
    world.positions.remove(item);
    world.in_inventory.insert(item, InInventory { owner });
    item
}

fn game_in_hall(phase: RunState) -> (State, Entity) {
    let mut state = State::new(rltk::RandomNumberGenerator::seeded(21));
    let (mut world, hero) = hall();
    world.run_state = phase;
    state.ecs = world;
    (state, hero)
}

fn idx(x: usize, y: usize) -> usize {
    y * 80 + x
}

#[test]
fn keys_stand_for_commands() {
    assert_eq!(decode(Key::G), Some(Command::PickUp));
    assert_eq!(decode(Key::I), Some(Command::Inventory));
    assert_eq!(decode(Key::D), Some(Command::DropMenu));
    assert_eq!(decode(Key::R), Some(Command::RemoveMenu));
    assert_eq!(decode(Key::Escape), Some(Command::Save));
    assert_eq!(decode(Key::Period), Some(Command::Descend));
    for key in [Key::Space, Key::Numpad5] {
        assert_eq!(decode(key), Some(Command::SkipTurn));
    }
    let moves = [
        ([Key::Left, Key::Numpad4, Key::H].to_vec(), (-1, 0)),
        ([Key::Right, Key::Numpad6, Key::L].to_vec(), (1, 0)),
        ([Key::Up, Key::Numpad8, Key::K].to_vec(), (0, -1)),
        ([Key::Down, Key::Numpad2, Key::J].to_vec(), (0, 1)),
        ([Key::Numpad9, Key::U].to_vec(), (1, -1)),
        ([Key::Numpad7, Key::Y].to_vec(), (-1, -1)),
        ([Key::Numpad3, Key::N].to_vec(), (1, 1)),
        ([Key::Numpad1, Key::B].to_vec(), (-1, 1)),
    ];
    for (keys, (dx, dy)) in moves {
        for key in keys {
            assert_eq!(decode(key), Some(Command::Move { dx, dy }));
        }
    }
    for key in [Key::Other, Key::Return, Key::Key1, Key::Key9] {
        assert_eq!(decode(key), None);
    }
}

#[test]
fn moving_into_free_floor() {
    let (mut world, hero) = hall();
    MapIndexingSystem {}.run(&mut world);
    world.viewsheds.get_mut(hero).unwrap().dirty = false;
    try_move_player(1, -1, &mut world);
    assert_eq!(world.positions.get(hero), Some(&Position { x: 21, y: 19 }));
    assert_eq!(world.player_pos, Point { x: 21, y: 19 });
    assert!(world.viewsheds.get(hero).unwrap().dirty);
    assert!(world.entity_moved.contains(hero));
    assert!(world.wants_melee.get(hero).is_none());
}

#[test]
fn walls_stop_the_player() {
    let (mut world, hero) = hall();
    world.positions.insert(hero, Position { x: 11, y: 11 });
    world.player_pos = Point { x: 11, y: 11 };
    MapIndexingSystem {}.run(&mut world);
    world.viewsheds.get_mut(hero).unwrap().dirty = false;
    try_move_player(-1, 0, &mut world);
    try_move_player(0, -1, &mut world);
    try_move_player(-1, -1, &mut world);
    assert_eq!(world.positions.get(hero), Some(&Position { x: 11, y: 11 }));
    assert!(!world.entity_moved.contains(hero));
    assert!(!world.viewsheds.get(hero).unwrap().dirty);
    assert_eq!(world.fault, None);
}

#[test]
fn moving_into_a_monster_attacks_it() {
    let (mut world, hero) = hall();
    let potion = make(&mut world, "Health Potion", 21, 20);
    let goblin = make(&mut world, "Goblin", 21, 20);
    let orc = make(&mut world, "Orc", 21, 20);
    MapIndexingSystem {}.run(&mut world);
    try_move_player(1, 0, &mut world);
    assert_eq!(world.wants_melee.get(hero), Some(&WantsToMelee { target: goblin }));
    assert_eq!(world.positions.get(hero), Some(&Position { x: 20, y: 20 }));
    assert!(!world.entity_moved.contains(hero));
    assert!(world.is_alive(potion) && world.is_alive(orc));
}

#[test]
fn moving_off_the_map_is_a_fault() {
    let (mut world, hero) = hall();
    world.positions.insert(hero, Position { x: 0, y: 5 });
    try_move_player(-1, 0, &mut world);
    assert_eq!(world.fault, Some(Fault::OutOfBounds));
    assert_eq!(world.positions.get(hero), Some(&Position { x: 0, y: 5 }));
}

#[test]
fn stairs_lead_down_only_where_they_are() {
    let (mut world, _hero) = hall();
    assert!(!try_next_level(&mut world));
    assert_eq!(world.log.entries, vec!["There is no way down from here."]);
    world.map.tiles[idx(20, 20)] = TileType::DownStairs;
    assert!(try_next_level(&mut world));
    assert_eq!(world.log.entries.len(), 1);
}

#[test]
fn resting_heals_one_point_when_safe() {
    let (mut world, hero) = hall();
    world.combat_stats.insert(hero, CombatStats { max_hp: 30, hp: 10, defense: 2, power: 5 });
    world.hunger_clocks.insert(hero, HungerClock { state: HungerState::Normal, total_nutrition: 620 });
    let goblin = make(&mut world, "Goblin", 25, 20);
    MapIndexingSystem {}.run(&mut world);
    world.viewsheds.get_mut(hero).unwrap().visible_tiles =
        vec![Point { x: 20, y: 20 }, Point { x: 21, y: 20 }];
    assert_eq!(skip_turn(&mut world), RunState::PlayerTurn);
    assert_eq!(world.combat_stats.get(hero).unwrap().hp, 11);
    world.viewsheds.get_mut(hero).unwrap().visible_tiles.push(Point { x: 25, y: 20 });
    skip_turn(&mut world);
    assert_eq!(world.combat_stats.get(hero).unwrap().hp, 11);
    world.delete_entity(goblin);
    MapIndexingSystem {}.run(&mut world);
    world.combat_stats.insert(hero, CombatStats { max_hp: 30, hp: 30, defense: 2, power: 5 });
    skip_turn(&mut world);
    assert_eq!(world.combat_stats.get(hero).unwrap().hp, 30);
    world.combat_stats.insert(hero, CombatStats { max_hp: 30, hp: 10, defense: 2, power: 5 });
    for state in [HungerState::Hungry, HungerState::Starving] {
        world.hunger_clocks.insert(hero, HungerClock { state, total_nutrition: 300 });
        skip_turn(&mut world);
        assert_eq!(world.combat_stats.get(hero).unwrap().hp, 10);
    }
    world.hunger_clocks.insert(hero, HungerClock { state: HungerState::WellFed, total_nutrition: 650 });
    skip_turn(&mut world);
    assert_eq!(world.combat_stats.get(hero).unwrap().hp, 11);
    assert_eq!(world.fault, None);
}

#[test]
fn reaching_for_an_item() {
    let (mut world, hero) = hall();
    get_item(&mut world);
    assert_eq!(world.log.entries, vec!["There is nothing here to pick up."]);
    let _goblin = make(&mut world, "Goblin", 20, 20);
    let first = make(&mut world, "Dagger", 20, 20);
    let second = make(&mut world, "Shield", 20, 20);
    let _elsewhere = make(&mut world, "Rations", 21, 20);
    get_item(&mut world);
    assert_eq!(
        world.wants_pickup.get(hero),
        Some(&WantsToPickupItem { collected_by: hero, item: second })
    );
    assert!(world.is_alive(first));
    assert_eq!(world.log.entries.len(), 1);
}

#[test]
fn input_leads_to_the_next_phase() {
    let (mut world, hero) = hall();
    MapIndexingSystem {}.run(&mut world);
    assert_eq!(player_input(&mut world, None), RunState::AwaitingInput);
    assert_eq!(player_input(&mut world, Some(Key::Other)), RunState::AwaitingInput);
    assert_eq!(player_input(&mut world, Some(Key::I)), RunState::ShowInventory);
    assert_eq!(player_input(&mut world, Some(Key::D)), RunState::ShowDropItem);
    assert_eq!(player_input(&mut world, Some(Key::R)), RunState::ShowRemoveItem);
    assert_eq!(player_input(&mut world, Some(Key::Escape)), RunState::SaveGame);
    assert!(world.log.entries.is_empty());
    assert_eq!(player_input(&mut world, Some(Key::Period)), RunState::PlayerTurn);
    assert_eq!(world.log.entries, vec!["There is no way down from here."]);
    assert_eq!(player_input(&mut world, Some(Key::G)), RunState::PlayerTurn);
    assert_eq!(world.log.entries.len(), 2);
    assert_eq!(player_input(&mut world, Some(Key::H)), RunState::PlayerTurn);
    assert_eq!(world.positions.get(hero), Some(&Position { x: 19, y: 20 }));
    assert_eq!(player_input(&mut world, Some(Key::Space)), RunState::PlayerTurn);
    world.map.tiles[idx(19, 20)] = TileType::DownStairs;
    assert_eq!(player_input(&mut world, Some(Key::Period)), RunState::NextLevel);
}

#[test]
fn menus_list_what_the_player_has() {
    let (mut world, hero) = hall();
    let goblin = make(&mut world, "Goblin", 12, 12);
    let dagger = carry(&mut world, hero, "Dagger");
    let _theirs = carry(&mut world, goblin, "Shield");
    let potion = carry(&mut world, hero, "Health Potion");
    let sword = make(&mut world, "Longsword", 0, 0);
    world.positions.remove(sword);
    world.equipped.insert(sword, Equipped { owner: hero, slot: EquipmentSlot::Melee });
    assert_eq!(inventory_of(&world), vec![dagger, potion]);
    assert_eq!(equipment_of(&world), vec![sword]);
    assert_eq!(show_inventory(&world, None, 0), (ItemMenuResult::NoResponse, None));
    assert_eq!(show_inventory(&world, Some(Key::Escape), 0), (ItemMenuResult::Cancel, None));
    assert_eq!(show_inventory(&world, Some(Key::Other), 1), (ItemMenuResult::Selected, Some(potion)));
    assert_eq!(show_inventory(&world, Some(Key::Other), 2), (ItemMenuResult::NoResponse, None));
    assert_eq!(show_inventory(&world, Some(Key::Other), -1), (ItemMenuResult::NoResponse, None));
    assert_eq!(drop_item_menu(&world, Some(Key::Other), 0), (ItemMenuResult::Selected, Some(dagger)));
    assert_eq!(remove_item_menu(&world, Some(Key::Other), 0), (ItemMenuResult::Selected, Some(sword)));
    assert_eq!(remove_item_menu(&world, Some(Key::Other), 1), (ItemMenuResult::NoResponse, None));
    assert_eq!(choose_item(&vec![], Some(Key::Other), 0), (ItemMenuResult::NoResponse, None));
}

#[test]
fn targets_must_be_seen_and_in_range() {
    let (mut world, hero) = hall();
    world.viewsheds.get_mut(hero).unwrap().visible_tiles = vec![
        Point { x: 20, y: 20 },
        Point { x: 26, y: 20 },
        Point { x: 27, y: 20 },
        Point { x: 24, y: 24 },
        Point { x: 25, y: 24 },
    ];
    assert_eq!(
        target_cells(&world, 6),
        vec![Point { x: 20, y: 20 }, Point { x: 26, y: 20 }, Point { x: 24, y: 24 }]
    );
    assert!(target_cells(&world, -1).is_empty());
    let at = |x, y, click| ranged_target(&world, 6, Point { x, y }, click);
    assert_eq!(at(26, 20, true), (ItemMenuResult::Selected, Some(Point { x: 26, y: 20 })));
    assert_eq!(at(26, 20, false), (ItemMenuResult::NoResponse, None));
    assert_eq!(at(27, 20, true), (ItemMenuResult::Cancel, None));
    assert_eq!(at(21, 20, true), (ItemMenuResult::Cancel, None));
    assert_eq!(at(21, 20, false), (ItemMenuResult::NoResponse, None));
    let mut blind = World::new(rltk::RandomNumberGenerator::seeded(1));
    blind.create_entity();
    assert_eq!(
        ranged_target(&blind, 6, Point { x: 0, y: 0 }, false),
        (ItemMenuResult::Cancel, None)
    );
}

#[test]
fn tooltips_name_what_is_seen_under_the_cursor() {
    let (mut world, _hero) = hall();
    let _goblin = make(&mut world, "Goblin", 22, 22);
    let _potion = make(&mut world, "Health Potion", 22, 22);
    let _trap = make(&mut world, "Bear Trap", 22, 22);
    let _orc = make(&mut world, "Orc", 23, 22);
    let at = Point { x: 22, y: 22 };
    assert!(tooltips(&world, at).is_empty());
    world.map.visible_tiles[idx(22, 22)] = true;
    assert_eq!(tooltips(&world, at), vec!["Goblin", "Health Potion"]);
    assert!(tooltips(&world, Point { x: 23, y: 22 }).is_empty());
    assert!(tooltips(&world, Point { x: 80, y: 50 }).is_empty());
}

#[test]
fn small_screens() {
    assert_eq!(show_dead_screen(Some(Key::Return)), Some(true));
    assert_eq!(show_dead_screen(Some(Key::Space)), None);
    assert_eq!(show_dead_screen(None), None);
    let items = vec!["Invisibility Timer".to_string(), "Confusion Wand".to_string()];
    assert_eq!(create_character(Some(Key::Key1), &items), Some("Invisibility Timer".to_string()));
    assert_eq!(create_character(Some(Key::Key2), &items), Some("Confusion Wand".to_string()));
    assert_eq!(create_character(Some(Key::Key3), &items), None);
    assert_eq!(create_character(Some(Key::Key9), &items), None);
    assert_eq!(create_character(Some(Key::G), &items), None);
    assert_eq!(create_character(None, &items), None);
}

#[test]
fn main_menu_moves_and_chooses() {
    let (new_game, load_game, quit) =
        (MainMenuSelection::NewGame, MainMenuSelection::LoadGame, MainMenuSelection::Quit);
    let moved = |selected| MainMenuResult::NoSelection { selected };
    assert_eq!(main_menu(new_game, None, true), moved(new_game));
    assert_eq!(main_menu(new_game, Some(Key::Down), true), moved(load_game));
    assert_eq!(main_menu(new_game, Some(Key::Down), false), moved(quit));
    assert_eq!(main_menu(load_game, Some(Key::Down), true), moved(quit));
    assert_eq!(main_menu(quit, Some(Key::Down), false), moved(new_game));
    assert_eq!(main_menu(new_game, Some(Key::Up), false), moved(quit));
    assert_eq!(main_menu(quit, Some(Key::Up), true), moved(load_game));
    assert_eq!(main_menu(quit, Some(Key::Up), false), moved(new_game));
    assert_eq!(main_menu(load_game, Some(Key::Up), true), moved(new_game));
    assert_eq!(main_menu(load_game, Some(Key::Escape), true), moved(quit));
    assert_eq!(main_menu(load_game, Some(Key::G), true), moved(load_game));
    assert_eq!(
        main_menu(load_game, Some(Key::Return), true),
        MainMenuResult::Selected { selected: load_game }
    );
}

#[test]
fn a_game_starts_with_the_show_of_its_first_level() {
    let mut state = State::new(rltk::RandomNumberGenerator::seeded(4));
    assert_eq!(state.ecs.run_state, RunState::MapGeneration);
    assert_eq!(state.ecs.map.depth, 1);
    assert_eq!(state.ecs.log.entries, vec!["Welcome to Rusty Roguelike"]);
    let hero = state.ecs.player;
    assert!(state.ecs.players.contains(hero));
    let start = state.ecs.map.rooms[0].center();
    assert_eq!(state.ecs.positions.get(hero), Some(&Position { x: start.0, y: start.1 }));
    assert_eq!(state.ecs.player_pos, Point { x: start.0, y: start.1 });
    let steps = state.mapgen_history.len();
    assert_eq!(steps, 2 * state.ecs.map.rooms.len());
    let slow = FrameInput { frame_time_us: 100000, ..quiet() };
    for _ in 0..3 {
        assert_eq!(tick(&mut state, slow), Effect::Nothing);
        assert_eq!(state.mapgen_index, 0);
    }
    assert_eq!(tick(&mut state, slow), Effect::Nothing);
    assert_eq!((state.mapgen_index, state.mapgen_timer), (1, 0));
    let fast = FrameInput { frame_time_us: 300001, ..quiet() };
    for shown in 2..steps {
        assert_eq!(state.ecs.run_state, RunState::MapGeneration);
        tick(&mut state, fast);
        assert_eq!(state.mapgen_index, shown);
    }
    tick(&mut state, fast);
    assert_eq!(
        state.ecs.run_state,
        RunState::MainMenu { menu_selection: MainMenuSelection::NewGame }
    );
}

#[test]
fn from_the_menu_into_the_first_turn() {
    let mut state = State::new(rltk::RandomNumberGenerator::seeded(4));
    state.ecs.run_state = RunState::MainMenu { menu_selection: MainMenuSelection::Quit };
    assert_eq!(tick(&mut state, press(Key::Return)), Effect::Quit);
    assert_eq!(tick(&mut state, press(Key::Down)), Effect::Nothing);
    assert_eq!(
        state.ecs.run_state,
        RunState::MainMenu { menu_selection: MainMenuSelection::NewGame }
    );
    let before = state.ecs.capacity();
    assert_eq!(tick(&mut state, press(Key::Return)), Effect::DeleteSave);
    assert_eq!(state.ecs.run_state, RunState::CharacterCreation);
    let hero = state.ecs.player;
    assert_eq!(hero.index, before);
    assert!(state.ecs.players.contains(hero));
    assert!((0..before).all(|i| !state.ecs.is_alive(Entity { index: i })));
    assert_eq!(state.ecs.log.entries, vec!["Welcome to Rusty Roguelike"]);
    assert_eq!(tick(&mut state, press(Key::Key3)), Effect::Nothing);
    assert_eq!(state.ecs.run_state, RunState::CharacterCreation);
    let next = state.ecs.capacity();
    assert_eq!(tick(&mut state, press(Key::Key2)), Effect::Nothing);
    assert_eq!(state.ecs.run_state, RunState::PreRun);
    let wand = Entity { index: next };
    assert_eq!(state.ecs.names.get(wand).unwrap().name, "Confusion Wand");
    assert_eq!(state.ecs.in_inventory.get(wand), Some(&InInventory { owner: hero }));
    tick(&mut state, quiet());
    assert_eq!(state.ecs.run_state, RunState::AwaitingInput);
    assert!(state.ecs.viewsheds.get(hero).unwrap().visible_tiles.len() > 20);
    tick(&mut state, quiet());
    assert_eq!(state.ecs.run_state, RunState::AwaitingInput);
    tick(&mut state, press(Key::Space));
    assert_eq!(state.ecs.run_state, RunState::PlayerTurn);
    tick(&mut state, quiet());
    assert_eq!(state.ecs.run_state, RunState::MonsterTurn);
    tick(&mut state, quiet());
    assert_eq!(state.ecs.run_state, RunState::AwaitingInput);
    assert_eq!(state.ecs.fault, None);
    assert_eq!(state.ecs.hunger_clocks.get(hero).unwrap().total_nutrition, 649);
}

#[test]
fn loading_and_saving_are_left_to_the_caller() {
    let (mut state, _hero) = game_in_hall(RunState::MainMenu {
        menu_selection: MainMenuSelection::LoadGame,
    });
    let with_save = FrameInput { save_exists: true, ..press(Key::Return) };
    assert_eq!(tick(&mut state, with_save), Effect::LoadGame);
    assert_eq!(state.ecs.run_state, RunState::AwaitingInput);
    MapIndexingSystem {}.run(&mut state.ecs);
    assert_eq!(tick(&mut state, press(Key::Escape)), Effect::Nothing);
    assert_eq!(state.ecs.run_state, RunState::SaveGame);
    assert_eq!(tick(&mut state, quiet()), Effect::SaveGame);
    assert_eq!(
        state.ecs.run_state,
        RunState::MainMenu { menu_selection: MainMenuSelection::LoadGame }
    );
}

#[test]
fn the_dead_player_starts_over() {
    let (mut state, hero) = game_in_hall(RunState::AwaitingInput);
    let goblin = make(&mut state.ecs, "Goblin", 25, 25);
    state.ecs.combat_stats.insert(hero, CombatStats { max_hp: 30, hp: 0, defense: 2, power: 5 });
    state
        .ecs
        .combat_stats
        .insert(goblin, CombatStats { max_hp: 16, hp: 0, defense: 1, power: 4 });
    assert_eq!(tick(&mut state, press(Key::H)), Effect::Nothing);
    assert_eq!(state.ecs.run_state, RunState::Dead);
    assert_eq!(state.ecs.positions.get(hero), Some(&Position { x: 20, y: 20 }));
    assert!(state.ecs.is_alive(goblin));
    tick(&mut state, press(Key::Space));
    assert_eq!(state.ecs.run_state, RunState::Dead);
    tick(&mut state, press(Key::Return));
    assert_eq!(
        state.ecs.run_state,
        RunState::MainMenu { menu_selection: MainMenuSelection::NewGame }
    );
    assert!(!state.ecs.is_alive(hero) && !state.ecs.is_alive(goblin));
    let reborn = state.ecs.player;
    assert_eq!(state.ecs.combat_stats.get(reborn).unwrap().hp, 30);
    assert_eq!(state.ecs.map.depth, 1);
    let start = state.ecs.map.rooms[0].center();
    assert_eq!(state.ecs.positions.get(reborn), Some(&Position { x: start.0, y: start.1 }));
}

#[test]
fn going_down_keeps_the_player_and_its_things() {
    let (mut state, hero) = game_in_hall(RunState::NextLevel);
    let goblin = make(&mut state.ecs, "Goblin", 25, 25);
    let lying = make(&mut state.ecs, "Rations", 26, 25);
    let carried = carry(&mut state.ecs, hero, "Health Potion");
    let theirs = carry(&mut state.ecs, goblin, "Dagger");
    let worn = make(&mut state.ecs, "Shield", 0, 0);
    state.ecs.positions.remove(worn);
    state.ecs.equipped.insert(worn, Equipped { owner: hero, slot: EquipmentSlot::Shield });
    state.ecs.combat_stats.insert(hero, CombatStats { max_hp: 31, hp: 4, defense: 2, power: 5 });
    assert_eq!(
        state.entities_to_remove_on_level_change(),
        vec![goblin, lying, theirs]
    );
    assert_eq!(tick(&mut state, quiet()), Effect::Nothing);
    assert_eq!(state.ecs.run_state, RunState::PreRun);
    assert_eq!(state.ecs.map.depth, 2);
    assert!(state.ecs.is_alive(hero) && state.ecs.is_alive(carried) && state.ecs.is_alive(worn));
    assert!(!state.ecs.is_alive(goblin) && !state.ecs.is_alive(lying) && !state.ecs.is_alive(theirs));
    assert_eq!(state.ecs.combat_stats.get(hero).unwrap().hp, 15);
    assert_eq!(
        state.ecs.log.entries,
        vec!["You descend to the next level, and take a moment to heal."]
    );
    let start = state.ecs.map.rooms[0].center();
    assert_eq!(state.ecs.positions.get(hero), Some(&Position { x: start.0, y: start.1 }));
    assert!(state.ecs.viewsheds.get(hero).unwrap().dirty);
    assert_eq!((state.mapgen_index, state.mapgen_timer), (0, 0));
    state.ecs.combat_stats.insert(hero, CombatStats { max_hp: 30, hp: 29, defense: 2, power: 5 });
    state.goto_next_level();
    assert_eq!(state.ecs.map.depth, 3);
    assert_eq!(state.ecs.combat_stats.get(hero).unwrap().hp, 29);
}

#[test]
fn the_map_is_revealed_row_by_row() {
    let (mut state, _hero) = game_in_hall(RunState::MagicMapReveal { row: 0 });
    for row in 0..43 {
        assert_eq!(state.ecs.run_state, RunState::MagicMapReveal { row });
        tick(&mut state, quiet());
        for t in 0..3440 {
            assert_eq!(state.ecs.map.revealed_tiles[t], t / 80 <= row as usize);
        }
    }
    assert_eq!(state.ecs.run_state, RunState::MonsterTurn);
    state.ecs.run_state = RunState::MagicMapReveal { row: 43 };
    tick(&mut state, quiet());
    assert_eq!(state.ecs.fault, Some(Fault::OutOfBounds));
}

#[test]
fn a_magic_map_interrupts_the_turn() {
    let (mut state, hero) = game_in_hall(RunState::PlayerTurn);
    let scroll = carry(&mut state.ecs, hero, "Magic Mapping Scroll");
    state.ecs.wants_use.insert(hero, WantsToUseItem { item: scroll, target: None });
    tick(&mut state, quiet());
    assert_eq!(state.ecs.run_state, RunState::MagicMapReveal { row: 0 });
    assert!(!state.ecs.is_alive(scroll));
}

#[test]
fn the_inventory_uses_or_aims() {
    let (mut state, hero) = game_in_hall(RunState::ShowInventory);
    let potion = carry(&mut state.ecs, hero, "Health Potion");
    let missile = carry(&mut state.ecs, hero, "Magic Missile Scroll");
    tick(&mut state, quiet());
    assert_eq!(state.ecs.run_state, RunState::ShowInventory);
    tick(&mut state, letter(5));
    assert_eq!(state.ecs.run_state, RunState::ShowInventory);
    tick(&mut state, letter(1));
    assert_eq!(state.ecs.run_state, RunState::ShowTargeting { range: 6, item: missile });
    assert!(state.ecs.wants_use.get(hero).is_none());
    state.ecs.viewsheds.get_mut(hero).unwrap().visible_tiles = vec![Point { x: 22, y: 20 }];
    tick(&mut state, FrameInput { mouse: Point { x: 22, y: 20 }, ..quiet() });
    assert_eq!(state.ecs.run_state, RunState::ShowTargeting { range: 6, item: missile });
    tick(&mut state, FrameInput { mouse: Point { x: 22, y: 20 }, left_click: true, ..quiet() });
    assert_eq!(state.ecs.run_state, RunState::PlayerTurn);
    assert_eq!(
        state.ecs.wants_use.get(hero),
        Some(&WantsToUseItem { item: missile, target: Some(Point { x: 22, y: 20 }) })
    );
    state.ecs.wants_use.clear();
    state.ecs.run_state = RunState::ShowTargeting { range: 6, item: missile };
    tick(&mut state, FrameInput { mouse: Point { x: 23, y: 20 }, left_click: true, ..quiet() });
    assert_eq!(state.ecs.run_state, RunState::AwaitingInput);
    state.ecs.run_state = RunState::ShowInventory;
    tick(&mut state, letter(0));
    assert_eq!(state.ecs.run_state, RunState::PlayerTurn);
    assert_eq!(state.ecs.wants_use.get(hero), Some(&WantsToUseItem { item: potion, target: None }));
    state.ecs.run_state = RunState::ShowInventory;
    tick(&mut state, press(Key::Escape));
    assert_eq!(state.ecs.run_state, RunState::AwaitingInput);
}

#[test]
fn the_other_menus_announce_their_intent() {
    let (mut state, hero) = game_in_hall(RunState::ShowDropItem);
    let dagger = carry(&mut state.ecs, hero, "Dagger");
    tick(&mut state, letter(0));
    assert_eq!(state.ecs.run_state, RunState::PlayerTurn);
    assert_eq!(state.ecs.wants_drop.get(hero), Some(&WantsToDropItem { item: dagger }));
    state.ecs.in_inventory.remove(dagger);
    state.ecs.equipped.insert(dagger, Equipped { owner: hero, slot: EquipmentSlot::Melee });
    state.ecs.run_state = RunState::ShowRemoveItem;
    tick(&mut state, press(Key::Escape));
    assert_eq!(state.ecs.run_state, RunState::AwaitingInput);
    state.ecs.run_state = RunState::ShowRemoveItem;
    tick(&mut state, letter(0));
    assert_eq!(state.ecs.run_state, RunState::PlayerTurn);
    assert_eq!(state.ecs.wants_remove.get(hero), Some(&WantsToRemoveItem { item: dagger }));
}

#[test]
fn frames_age_the_particles_and_bury_the_dead() {
    let (mut state, _hero) = game_in_hall(RunState::ShowInventory);
    let goblin = make(&mut state.ecs, "Goblin", 25, 25);
    state
        .ecs
        .combat_stats
        .insert(goblin, CombatStats { max_hp: 16, hp: 0, defense: 1, power: 4 });
    state.ecs.particles.request(12, 12, 0, 0, 1, 20000);
    rusty_roguelike::systems::particle_system::ParticleSpawnSystem {}.run(&mut state.ecs);
    let spark = Entity { index: 2 };
    tick(&mut state, quiet());
    assert!(!state.ecs.is_alive(goblin));
    assert_eq!(state.ecs.log.entries, vec!["Goblin is dead."]);
    assert_eq!(state.ecs.particle_lifetimes.get(spark).unwrap().lifetime_us, 4000);
    tick(&mut state, quiet());
    assert!(!state.ecs.is_alive(spark));
    state.ecs.run_state = RunState::CharacterCreation;
    let orc = make(&mut state.ecs, "Orc", 25, 25);
    state.ecs.combat_stats.insert(orc, CombatStats { max_hp: 16, hp: 0, defense: 1, power: 4 });
    tick(&mut state, quiet());
    assert!(state.ecs.is_alive(orc));
}

#[test]
fn higher_layers_are_drawn_first_and_invisible_things_not_at_all() {
    let (mut world, hero) = hall();
    let potion = make(&mut world, "Health Potion", 20, 20);
    let trap = make(&mut world, "Bear Trap", 21, 20);
    let goblin = make(&mut world, "Goblin", 22, 20);
    let dagger = make(&mut world, "Dagger", 22, 20);
    let _unseen = make(&mut world, "Orc", 25, 25);
    for x in 20..=22 {
        world.map.visible_tiles[idx(x, 20)] = true;
    }
    let drawn: Vec<(i32, i32, i32, u16)> = rusty_roguelike::gui::draw_list(&world)
        .iter()
        .map(|d| (d.x, d.y, d.layer, d.glyph))
        .collect();
    assert_eq!(
        drawn,
        vec![(20, 20, 5, 173), (22, 20, 5, 47), (20, 20, 3, 64), (22, 20, 3, 103)]
    );
    world.invisible.remove(trap);
    world.invisible.insert(hero, rusty_roguelike::components::Invisible { turns: Some(3) });
    world.invisible.insert(goblin, rusty_roguelike::components::Invisible { turns: Some(3) });
    let drawn = rusty_roguelike::gui::draw_list(&world);
    let seen: Vec<(i32, i32, u32)> = drawn.iter().map(|d| (d.x, d.layer, d.fg)).collect();
    assert_eq!(
        seen,
        vec![(20, 5, 0xFF00FF), (22, 5, 0x00FFFF), (21, 4, 0xFF0000), (20, 3, 0xA6A6A6)]
    );
    assert!(world.is_alive(potion) && world.is_alive(dagger));
}

#[test]
fn the_newest_messages_come_first() {
    let (mut world, _hero) = hall();
    assert!(rusty_roguelike::gui::recent_messages(&world, 5).is_empty());
    for n in 1..=7 {
        world.log.say(&format!("line {}", n));
    }
    assert_eq!(
        rusty_roguelike::gui::recent_messages(&world, 5),
        vec!["line 7", "line 6", "line 5", "line 4", "line 3"]
    );
    assert_eq!(rusty_roguelike::gui::recent_messages(&world, 9).len(), 7);
    assert!(rusty_roguelike::gui::recent_messages(&world, 0).is_empty());
}

#[test]
fn random_play_keeps_the_world_in_shape() {
    let keys = [
        Key::H, Key::J, Key::K, Key::L, Key::Y, Key::U, Key::B, Key::N, Key::G, Key::I, Key::D,
        Key::R, Key::Space, Key::Period, Key::Escape, Key::Return, Key::Key1, Key::Key2,
        Key::Other, Key::Up, Key::Down,
    ];
    let mut faults = 0;
    let mut turns = 0;
    for seed in 1..=3u64 {
        let mut state = State::new(rltk::RandomNumberGenerator::seeded(seed));
        let mut dice = rltk::RandomNumberGenerator::seeded(seed * 1000);
        for _ in 0..400 {
            let hero = state.ecs.player;
            let near = state.ecs.positions.get(hero).copied().unwrap_or(Position { x: 40, y: 20 });
            let input = FrameInput {
                key: if dice.range(0, 4) == 0 { None } else { Some(keys[dice.range(0, 21) as usize]) },
                selection: dice.range(-1, 5),
                mouse: Point { x: near.x + dice.range(-7, 8), y: near.y + dice.range(-7, 8) },
                left_click: dice.range(0, 3) == 0,
                frame_time_us: dice.range(1, 400) as i64 * 1000,
                save_exists: dice.range(0, 2) == 0,
            };
            if state.ecs.run_state == RunState::MonsterTurn {
                turns += 1;
            }
            tick(&mut state, input);
            assert!(state.ecs.map.is_wf());
            if state.ecs.fault.is_some() {
                faults += 1;
                state.ecs.fault = None;
            }
        }
    }
    assert!(turns > 30, "only {} turns were played", turns);
    assert!(faults < 20, "{} faults", faults);
}
