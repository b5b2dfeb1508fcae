//! Making the entities of the game: the player, the monsters, the items.

use vstd::prelude::*;
use crate::components::{
    cp437, glyph, AppliesInvisiblity, AreaOfEffect, BlocksTile, CausesConfusion, CombatStats,
    Consumable, Cooldown, DefenseBonus, EntryTrigger, EquipmentSlot, Equippable, Food, HungerClock,
    HungerState, InflictsDamage, Invisible, Item, MagicMapper, MeleePowerBonus, Monster, Name,
    Player, Position, ProvidesHealing, Ranged, Renderable, SingleActivation, Viewshed,
    ViewshedView, BLACK, CYAN, CYAN3, GREEN, MAGENTA, ORANGE, PINK, RED, SILVER, YELLOW,
};
use crate::dice::roll_dice;
use crate::map::{index_of, TileType};
use crate::random_table::{RandomTable, TableView};
use crate::rect::Rect;
use crate::systems::hunger_system::WELL_FED_NUTRITION;
use crate::world::{Entity, World, WorldView};
use crate::{MAP_COUNT, MAP_HEIGHT, MAP_WIDTH};

verus! {

/// The most entities that a room of the first level gets.
pub const MAX_SPAWNS: i32 = 4;

/// Layer in which items are drawn.
pub const ITEM_LAYER: i32 = 5;

/// Layer in which traps are drawn.
pub const TRAP_LAYER: i32 = 4;

/// Layer in which the player and the monsters are drawn.
pub const CHARACTER_LAYER: i32 = 3;

/// The world after one more entity was made: a player with 30 of 30 hit
/// points, defense 2 and power 5, well fed, and able to see 8 tiles far.
pub open spec fn with_player(w: WorldView, x: i32, y: i32) -> WorldView {
    let e = w.capacity();
    WorldView {
        alive: w.alive.push(true),
        positions: w.positions.insert(e, Position { x, y }),
        renderables: w.renderables.insert(
            e,
            Renderable { layer: CHARACTER_LAYER, glyph: cp437('@'), fg: YELLOW, bg: BLACK },
        ),
        players: w.players.insert(e, Player {  }),
        viewsheds: w.viewsheds.insert(
            e,
            ViewshedView { visible_tiles: Seq::empty(), range: 8, dirty: true },
        ),
        names: w.names.insert(e, "Player"@),
        combat_stats: w.combat_stats.insert(
            e,
            CombatStats { max_hp: 30, hp: 30, defense: 2, power: 5 },
        ),
        hunger_clocks: w.hunger_clocks.insert(
            e,
            HungerClock { state: HungerState::WellFed, total_nutrition: WELL_FED_NUTRITION },
        ),
        ..w
    }
}

/// A player with 30 of 30 hit points, defense 2 and power 5, well fed, and
/// able to see 8 tiles far.
pub fn player(world: &mut World, x: i32, y: i32) -> (e: Entity)
    ensures
        e.index == old(world)@.capacity(),
        final(world)@ == with_player(old(world)@, x, y),
{
    let e = world.create_entity();
    world.positions.insert(e, Position { x, y });
    world.renderables.insert(
        e,
        Renderable { layer: CHARACTER_LAYER, glyph: glyph('@'), fg: YELLOW, bg: BLACK },
    );
    world.players.insert(e, Player {  });
    world.viewsheds.insert(e, Viewshed { visible_tiles: Vec::new(), range: 8, dirty: true });
    world.names.insert(e, Name { name: String::from_str("Player") });
    world.combat_stats.insert(e, CombatStats { max_hp: 30, hp: 30, defense: 2, power: 5 });
    world.hunger_clocks.insert(
        e,
        HungerClock { state: HungerState::WellFed, total_nutrition: WELL_FED_NUTRITION },
    );
    e
}

/// The world after one more entity was made: a timer that makes its user
/// invisible for 18 turns, once every 60 turns.
pub open spec fn with_invisibility_timer(w: WorldView) -> WorldView {
    let e = w.capacity();
    WorldView {
        alive: w.alive.push(true),
        renderables: w.renderables.insert(
            e,
            Renderable { layer: CHARACTER_LAYER, glyph: cp437('v'), fg: SILVER, bg: BLACK },
        ),
        names: w.names.insert(e, "Invisibility Timer"@),
        items: w.items.insert(e, Item {  }),
        applies_invisibility: w.applies_invisibility.insert(e, AppliesInvisiblity { turns: 18 }),
        cooldowns: w.cooldowns.insert(e, Cooldown { turns: 60 }),
        ..w
    }
}

/// A timer that makes its user invisible for 18 turns, once every 60 turns.
pub fn invisibility_timer(world: &mut World) -> (e: Entity)
    ensures
        e.index == old(world)@.capacity(),
        final(world)@ == with_invisibility_timer(old(world)@),
{
    let e = world.create_entity();
    world.renderables.insert(
        e,
        Renderable { layer: CHARACTER_LAYER, glyph: glyph('v'), fg: SILVER, bg: BLACK },
    );
    world.names.insert(e, Name { name: String::from_str("Invisibility Timer") });
    world.items.insert(e, Item {  });
    world.applies_invisibility.insert(e, AppliesInvisiblity { turns: 18 });
    world.cooldowns.insert(e, Cooldown { turns: 60 });
    e
}

/// The world after one more entity was made: a wand that confuses a target
/// within 6 tiles for 5 turns, once every 45 turns.
pub open spec fn with_confusion_wand(w: WorldView) -> WorldView {
    let e = w.capacity();
    WorldView {
        alive: w.alive.push(true),
        renderables: w.renderables.insert(
            e,
            Renderable { layer: CHARACTER_LAYER, glyph: cp437('/'), fg: PINK, bg: BLACK },
        ),
        names: w.names.insert(e, "Confusion Wand"@),
        items: w.items.insert(e, Item {  }),
        causes_confusion: w.causes_confusion.insert(e, CausesConfusion { turns: 5 }),
        ranged: w.ranged.insert(e, Ranged { range: 6 }),
        cooldowns: w.cooldowns.insert(e, Cooldown { turns: 45 }),
        ..w
    }
}

/// A wand that confuses a target within 6 tiles for 5 turns, once every 45
/// turns.
pub fn confusion_wand(world: &mut World) -> (e: Entity)
    ensures
        e.index == old(world)@.capacity(),
        final(world)@ == with_confusion_wand(old(world)@),
{
    let e = world.create_entity();
    world.renderables.insert(
        e,
        Renderable { layer: CHARACTER_LAYER, glyph: glyph('/'), fg: PINK, bg: BLACK },
    );
    world.names.insert(e, Name { name: String::from_str("Confusion Wand") });
    world.items.insert(e, Item {  });
    world.causes_confusion.insert(e, CausesConfusion { turns: 5 });
    world.ranged.insert(e, Ranged { range: 6 });
    world.cooldowns.insert(e, Cooldown { turns: 45 });
    e
}

/// The world after one more entity was made: a goblin.
pub open spec fn with_goblin(w: WorldView, x: i32, y: i32) -> WorldView {
    let e = w.capacity();
    WorldView {
        alive: w.alive.push(true),
        positions: w.positions.insert(e, Position { x, y }),
        renderables: w.renderables.insert(
            e,
            Renderable { layer: CHARACTER_LAYER, glyph: cp437('g'), fg: RED, bg: BLACK },
        ),
        viewsheds: w.viewsheds.insert(
            e,
            ViewshedView { visible_tiles: Seq::empty(), range: 5, dirty: true },
        ),
        monsters: w.monsters.insert(e, Monster { is_targeting_player: false }),
        names: w.names.insert(e, "Goblin"@),
        blocks_tile: w.blocks_tile.insert(e, BlocksTile {  }),
        combat_stats: w.combat_stats.insert(
            e,
            CombatStats { max_hp: 16, hp: 16, defense: 1, power: 4 },
        ),
        ..w
    }
}

/// A goblin.
pub fn goblin(world: &mut World, x: i32, y: i32) -> (e: Entity)
    ensures
        e.index == old(world)@.capacity(),
        final(world)@ == with_goblin(old(world)@, x, y),
{
    let e = world.create_entity();
    world.positions.insert(e, Position { x, y });
    world.renderables.insert(
        e,
        Renderable { layer: CHARACTER_LAYER, glyph: glyph('g'), fg: RED, bg: BLACK },
    );
    world.viewsheds.insert(e, Viewshed { visible_tiles: Vec::new(), range: 5, dirty: true });
    world.monsters.insert(e, Monster { is_targeting_player: false });
    world.names.insert(e, Name { name: String::from_str("Goblin") });
    world.blocks_tile.insert(e, BlocksTile {  });
    world.combat_stats.insert(e, CombatStats { max_hp: 16, hp: 16, defense: 1, power: 4 });
    e
}

/// The world after one more entity was made: an orc.
pub open spec fn with_orc(w: WorldView, x: i32, y: i32) -> WorldView {
    let e = w.capacity();
    WorldView {
        alive: w.alive.push(true),
        positions: w.positions.insert(e, Position { x, y }),
        renderables: w.renderables.insert(
            e,
            Renderable { layer: CHARACTER_LAYER, glyph: cp437('o'), fg: RED, bg: BLACK },
        ),
        viewsheds: w.viewsheds.insert(
            e,
            ViewshedView { visible_tiles: Seq::empty(), range: 5, dirty: true },
        ),
        monsters: w.monsters.insert(e, Monster { is_targeting_player: false }),
        names: w.names.insert(e, "Orc"@),
        blocks_tile: w.blocks_tile.insert(e, BlocksTile {  }),
        combat_stats: w.combat_stats.insert(
            e,
            CombatStats { max_hp: 16, hp: 16, defense: 1, power: 4 },
        ),
        ..w
    }
}

/// An orc.
pub fn orc(world: &mut World, x: i32, y: i32) -> (e: Entity)
    ensures
        e.index == old(world)@.capacity(),
        final(world)@ == with_orc(old(world)@, x, y),
{
    let e = world.create_entity();
    world.positions.insert(e, Position { x, y });
    world.renderables.insert(
        e,
        Renderable { layer: CHARACTER_LAYER, glyph: glyph('o'), fg: RED, bg: BLACK },
    );
    world.viewsheds.insert(e, Viewshed { visible_tiles: Vec::new(), range: 5, dirty: true });
    world.monsters.insert(e, Monster { is_targeting_player: false });
    world.names.insert(e, Name { name: String::from_str("Orc") });
    world.blocks_tile.insert(e, BlocksTile {  });
    world.combat_stats.insert(e, CombatStats { max_hp: 16, hp: 16, defense: 1, power: 4 });
    e
}

/// The world after one more entity was made: a potion that heals 8 hit
/// points.
pub open spec fn with_health_potion(w: WorldView, x: i32, y: i32) -> WorldView {
    let e = w.capacity();
    WorldView {
        alive: w.alive.push(true),
        positions: w.positions.insert(e, Position { x, y }),
        renderables: w.renderables.insert(
            e,
            Renderable { layer: ITEM_LAYER, glyph: cp437('¡'), fg: MAGENTA, bg: BLACK },
        ),
        names: w.names.insert(e, "Health Potion"@),
        items: w.items.insert(e, Item {  }),
        consumables: w.consumables.insert(e, Consumable {  }),
        provides_healing: w.provides_healing.insert(e, ProvidesHealing { heal_amount: 8 }),
        ..w
    }
}

/// A potion that heals 8 hit points.
pub fn health_potion(world: &mut World, x: i32, y: i32) -> (e: Entity)
    ensures
        e.index == old(world)@.capacity(),
        final(world)@ == with_health_potion(old(world)@, x, y),
{
    let e = world.create_entity();
    world.positions.insert(e, Position { x, y });
    world.renderables.insert(
        e,
        Renderable { layer: ITEM_LAYER, glyph: glyph('¡'), fg: MAGENTA, bg: BLACK },
    );
    world.names.insert(e, Name { name: String::from_str("Health Potion") });
    world.items.insert(e, Item {  });
    world.consumables.insert(e, Consumable {  });
    world.provides_healing.insert(e, ProvidesHealing { heal_amount: 8 });
    e
}

/// The world after one more entity was made: a scroll that hurts one target
/// within 6 tiles by 8.
pub open spec fn with_magic_missile_scroll(w: WorldView, x: i32, y: i32) -> WorldView {
    let e = w.capacity();
    WorldView {
        alive: w.alive.push(true),
        positions: w.positions.insert(e, Position { x, y }),
        renderables: w.renderables.insert(
            e,
            Renderable { layer: ITEM_LAYER, glyph: cp437(')'), fg: CYAN, bg: BLACK },
        ),
        names: w.names.insert(e, "Magic Missile Scroll"@),
        items: w.items.insert(e, Item {  }),
        consumables: w.consumables.insert(e, Consumable {  }),
        ranged: w.ranged.insert(e, Ranged { range: 6 }),
        inflicts_damage: w.inflicts_damage.insert(e, InflictsDamage { damage: 8 }),
        ..w
    }
}

/// A scroll that hurts one target within 6 tiles by 8.
pub fn magic_missile_scroll(world: &mut World, x: i32, y: i32) -> (e: Entity)
    ensures
        e.index == old(world)@.capacity(),
        final(world)@ == with_magic_missile_scroll(old(world)@, x, y),
{
    let e = world.create_entity();
    world.positions.insert(e, Position { x, y });
    world.renderables.insert(
        e,
        Renderable { layer: ITEM_LAYER, glyph: glyph(')'), fg: CYAN, bg: BLACK },
    );
    world.names.insert(e, Name { name: String::from_str("Magic Missile Scroll") });
    world.items.insert(e, Item {  });
    world.consumables.insert(e, Consumable {  });
    world.ranged.insert(e, Ranged { range: 6 });
    world.inflicts_damage.insert(e, InflictsDamage { damage: 8 });
    e
}

/// The world after one more entity was made: a scroll that hurts by 20
/// whatever is within 3 tiles of its target.
pub open spec fn with_fireball_scroll(w: WorldView, x: i32, y: i32) -> WorldView {
    let e = w.capacity();
    WorldView {
        alive: w.alive.push(true),
        positions: w.positions.insert(e, Position { x, y }),
        renderables: w.renderables.insert(
            e,
            Renderable { layer: ITEM_LAYER, glyph: cp437(')'), fg: ORANGE, bg: BLACK },
        ),
        names: w.names.insert(e, "Fireball Scroll"@),
        items: w.items.insert(e, Item {  }),
        consumables: w.consumables.insert(e, Consumable {  }),
        ranged: w.ranged.insert(e, Ranged { range: 6 }),
        inflicts_damage: w.inflicts_damage.insert(e, InflictsDamage { damage: 20 }),
        area_of_effect: w.area_of_effect.insert(e, AreaOfEffect { radius: 3 }),
        ..w
    }
}

/// A scroll that hurts by 20 whatever is within 3 tiles of its target.
pub fn fireball_scroll(world: &mut World, x: i32, y: i32) -> (e: Entity)
    ensures
        e.index == old(world)@.capacity(),
        final(world)@ == with_fireball_scroll(old(world)@, x, y),
{
    let e = world.create_entity();
    world.positions.insert(e, Position { x, y });
    world.renderables.insert(
        e,
        Renderable { layer: ITEM_LAYER, glyph: glyph(')'), fg: ORANGE, bg: BLACK },
    );
    world.names.insert(e, Name { name: String::from_str("Fireball Scroll") });
    world.items.insert(e, Item {  });
    world.consumables.insert(e, Consumable {  });
    world.ranged.insert(e, Ranged { range: 6 });
    world.inflicts_damage.insert(e, InflictsDamage { damage: 20 });
    world.area_of_effect.insert(e, AreaOfEffect { radius: 3 });
    e
}

/// The world after one more entity was made: a scroll that confuses its
/// target for 4 turns.
pub open spec fn with_confusion_scroll(w: WorldView, x: i32, y: i32) -> WorldView {
    let e = w.capacity();
    WorldView {
        alive: w.alive.push(true),
        positions: w.positions.insert(e, Position { x, y }),
        renderables: w.renderables.insert(
            e,
            Renderable { layer: ITEM_LAYER, glyph: cp437(')'), fg: PINK, bg: BLACK },
        ),
        names: w.names.insert(e, "Confusion Scroll"@),
        items: w.items.insert(e, Item {  }),
        consumables: w.consumables.insert(e, Consumable {  }),
        ranged: w.ranged.insert(e, Ranged { range: 6 }),
        causes_confusion: w.causes_confusion.insert(e, CausesConfusion { turns: 4 }),
        ..w
    }
}

/// A scroll that confuses its target for 4 turns.
pub fn confusion_scroll(world: &mut World, x: i32, y: i32) -> (e: Entity)
    ensures
        e.index == old(world)@.capacity(),
        final(world)@ == with_confusion_scroll(old(world)@, x, y),
{
    let e = world.create_entity();
    world.positions.insert(e, Position { x, y });
    world.renderables.insert(
        e,
        Renderable { layer: ITEM_LAYER, glyph: glyph(')'), fg: PINK, bg: BLACK },
    );
    world.names.insert(e, Name { name: String::from_str("Confusion Scroll") });
    world.items.insert(e, Item {  });
    world.consumables.insert(e, Consumable {  });
    world.ranged.insert(e, Ranged { range: 6 });
    world.causes_confusion.insert(e, CausesConfusion { turns: 4 });
    e
}

/// The world after one more entity was made: a dagger: 2 more power.
pub open spec fn with_dagger(w: WorldView, x: i32, y: i32) -> WorldView {
    let e = w.capacity();
    WorldView {
        alive: w.alive.push(true),
        positions: w.positions.insert(e, Position { x, y }),
        renderables: w.renderables.insert(
            e,
            Renderable { layer: ITEM_LAYER, glyph: cp437('/'), fg: CYAN, bg: BLACK },
        ),
        names: w.names.insert(e, "Dagger"@),
        items: w.items.insert(e, Item {  }),
        equippable: w.equippable.insert(e, Equippable { slot: EquipmentSlot::Melee }),
        melee_power_bonus: w.melee_power_bonus.insert(e, MeleePowerBonus { power: 2 }),
        ..w
    }
}

/// A dagger: 2 more power.
pub fn dagger(world: &mut World, x: i32, y: i32) -> (e: Entity)
    ensures
        e.index == old(world)@.capacity(),
        final(world)@ == with_dagger(old(world)@, x, y),
{
    let e = world.create_entity();
    world.positions.insert(e, Position { x, y });
    world.renderables.insert(
        e,
        Renderable { layer: ITEM_LAYER, glyph: glyph('/'), fg: CYAN, bg: BLACK },
    );
    world.names.insert(e, Name { name: String::from_str("Dagger") });
    world.items.insert(e, Item {  });
    world.equippable.insert(e, Equippable { slot: EquipmentSlot::Melee });
    world.melee_power_bonus.insert(e, MeleePowerBonus { power: 2 });
    e
}

/// The world after one more entity was made: a shield: 1 more defense.
pub open spec fn with_shield(w: WorldView, x: i32, y: i32) -> WorldView {
    let e = w.capacity();
    WorldView {
        alive: w.alive.push(true),
        positions: w.positions.insert(e, Position { x, y }),
        renderables: w.renderables.insert(
            e,
            Renderable { layer: ITEM_LAYER, glyph: cp437('('), fg: CYAN, bg: BLACK },
        ),
        names: w.names.insert(e, "Shield"@),
        items: w.items.insert(e, Item {  }),
        equippable: w.equippable.insert(e, Equippable { slot: EquipmentSlot::Shield }),
        defense_bonus: w.defense_bonus.insert(e, DefenseBonus { defense: 1 }),
        ..w
    }
}

/// A shield: 1 more defense.
pub fn shield(world: &mut World, x: i32, y: i32) -> (e: Entity)
    ensures
        e.index == old(world)@.capacity(),
        final(world)@ == with_shield(old(world)@, x, y),
{
    let e = world.create_entity();
    world.positions.insert(e, Position { x, y });
    world.renderables.insert(
        e,
        Renderable { layer: ITEM_LAYER, glyph: glyph('('), fg: CYAN, bg: BLACK },
    );
    world.names.insert(e, Name { name: String::from_str("Shield") });
    world.items.insert(e, Item {  });
    world.equippable.insert(e, Equippable { slot: EquipmentSlot::Shield });
    world.defense_bonus.insert(e, DefenseBonus { defense: 1 });
    e
}

/// The world after one more entity was made: a longsword: 4 more power.
pub open spec fn with_longsword(w: WorldView, x: i32, y: i32) -> WorldView {
    let e = w.capacity();
    WorldView {
        alive: w.alive.push(true),
        positions: w.positions.insert(e, Position { x, y }),
        renderables: w.renderables.insert(
            e,
            Renderable { layer: ITEM_LAYER, glyph: cp437('/'), fg: YELLOW, bg: BLACK },
        ),
        names: w.names.insert(e, "Longsword"@),
        items: w.items.insert(e, Item {  }),
        equippable: w.equippable.insert(e, Equippable { slot: EquipmentSlot::Melee }),
        melee_power_bonus: w.melee_power_bonus.insert(e, MeleePowerBonus { power: 4 }),
        ..w
    }
}

/// A longsword: 4 more power.
pub fn longsword(world: &mut World, x: i32, y: i32) -> (e: Entity)
    ensures
        e.index == old(world)@.capacity(),
        final(world)@ == with_longsword(old(world)@, x, y),
{
    let e = world.create_entity();
    world.positions.insert(e, Position { x, y });
    world.renderables.insert(
        e,
        Renderable { layer: ITEM_LAYER, glyph: glyph('/'), fg: YELLOW, bg: BLACK },
    );
    world.names.insert(e, Name { name: String::from_str("Longsword") });
    world.items.insert(e, Item {  });
    world.equippable.insert(e, Equippable { slot: EquipmentSlot::Melee });
    world.melee_power_bonus.insert(e, MeleePowerBonus { power: 4 });
    e
}

/// The world after one more entity was made: a tower shield: 3 more
/// defense.
pub open spec fn with_tower_shield(w: WorldView, x: i32, y: i32) -> WorldView {
    let e = w.capacity();
    WorldView {
        alive: w.alive.push(true),
        positions: w.positions.insert(e, Position { x, y }),
        renderables: w.renderables.insert(
            e,
            Renderable { layer: ITEM_LAYER, glyph: cp437('('), fg: YELLOW, bg: BLACK },
        ),
        names: w.names.insert(e, "Tower Shield"@),
        items: w.items.insert(e, Item {  }),
        equippable: w.equippable.insert(e, Equippable { slot: EquipmentSlot::Shield }),
        defense_bonus: w.defense_bonus.insert(e, DefenseBonus { defense: 3 }),
        ..w
    }
}

/// A tower shield: 3 more defense.
pub fn tower_shield(world: &mut World, x: i32, y: i32) -> (e: Entity)
    ensures
        e.index == old(world)@.capacity(),
        final(world)@ == with_tower_shield(old(world)@, x, y),
{
    let e = world.create_entity();
    world.positions.insert(e, Position { x, y });
    world.renderables.insert(
        e,
        Renderable { layer: ITEM_LAYER, glyph: glyph('('), fg: YELLOW, bg: BLACK },
    );
    world.names.insert(e, Name { name: String::from_str("Tower Shield") });
    world.items.insert(e, Item {  });
    world.equippable.insert(e, Equippable { slot: EquipmentSlot::Shield });
    world.defense_bonus.insert(e, DefenseBonus { defense: 3 });
    e
}

/// The world after one more entity was made: rations: 350 points of
/// nutrition.
pub open spec fn with_rations(w: WorldView, x: i32, y: i32) -> WorldView {
    let e = w.capacity();
    WorldView {
        alive: w.alive.push(true),
        positions: w.positions.insert(e, Position { x, y }),
        renderables: w.renderables.insert(
            e,
            Renderable { layer: ITEM_LAYER, glyph: cp437('%'), fg: GREEN, bg: BLACK },
        ),
        names: w.names.insert(e, "Rations"@),
        items: w.items.insert(e, Item {  }),
        food: w.food.insert(e, Food { nutrition: 350 }),
        consumables: w.consumables.insert(e, Consumable {  }),
        ..w
    }
}

/// Rations: 350 points of nutrition.
pub fn rations(world: &mut World, x: i32, y: i32) -> (e: Entity)
    ensures
        e.index == old(world)@.capacity(),
        final(world)@ == with_rations(old(world)@, x, y),
{
    let e = world.create_entity();
    world.positions.insert(e, Position { x, y });
    world.renderables.insert(
        e,
        Renderable { layer: ITEM_LAYER, glyph: glyph('%'), fg: GREEN, bg: BLACK },
    );
    world.names.insert(e, Name { name: String::from_str("Rations") });
    world.items.insert(e, Item {  });
    world.food.insert(e, Food { nutrition: 350 });
    world.consumables.insert(e, Consumable {  });
    e
}

/// The world after one more entity was made: a scroll that reveals the
/// level.
pub open spec fn with_magic_mapping_scroll(w: WorldView, x: i32, y: i32) -> WorldView {
    let e = w.capacity();
    WorldView {
        alive: w.alive.push(true),
        positions: w.positions.insert(e, Position { x, y }),
        renderables: w.renderables.insert(
            e,
            Renderable { layer: ITEM_LAYER, glyph: cp437(')'), fg: CYAN3, bg: BLACK },
        ),
        names: w.names.insert(e, "Scroll of Magic Mapping"@),
        items: w.items.insert(e, Item {  }),
        magic_mappers: w.magic_mappers.insert(e, MagicMapper {  }),
        consumables: w.consumables.insert(e, Consumable {  }),
        ..w
    }
}

/// A scroll that reveals the level.
pub fn magic_mapping_scroll(world: &mut World, x: i32, y: i32) -> (e: Entity)
    ensures
        e.index == old(world)@.capacity(),
        final(world)@ == with_magic_mapping_scroll(old(world)@, x, y),
{
    let e = world.create_entity();
    world.positions.insert(e, Position { x, y });
    world.renderables.insert(
        e,
        Renderable { layer: ITEM_LAYER, glyph: glyph(')'), fg: CYAN3, bg: BLACK },
    );
    world.names.insert(e, Name { name: String::from_str("Scroll of Magic Mapping") });
    world.items.insert(e, Item {  });
    world.magic_mappers.insert(e, MagicMapper {  });
    world.consumables.insert(e, Consumable {  });
    e
}

/// The world after one more entity was made: a hidden trap that hurts by 6
/// whoever steps on it, once.
pub open spec fn with_bear_trap(w: WorldView, x: i32, y: i32) -> WorldView {
    let e = w.capacity();
    WorldView {
        alive: w.alive.push(true),
        positions: w.positions.insert(e, Position { x, y }),
        renderables: w.renderables.insert(
            e,
            Renderable { layer: TRAP_LAYER, glyph: cp437('^'), fg: RED, bg: BLACK },
        ),
        names: w.names.insert(e, "Bear Trap"@),
        invisible: w.invisible.insert(e, Invisible { turns: None }),
        inflicts_damage: w.inflicts_damage.insert(e, InflictsDamage { damage: 6 }),
        entry_triggers: w.entry_triggers.insert(e, EntryTrigger {  }),
        single_activations: w.single_activations.insert(e, SingleActivation {  }),
        ..w
    }
}

/// A hidden trap that hurts by 6 whoever steps on it, once.
pub fn bear_trap(world: &mut World, x: i32, y: i32) -> (e: Entity)
    ensures
        e.index == old(world)@.capacity(),
        final(world)@ == with_bear_trap(old(world)@, x, y),
{
    let e = world.create_entity();
    world.positions.insert(e, Position { x, y });
    world.renderables.insert(
        e,
        Renderable { layer: TRAP_LAYER, glyph: glyph('^'), fg: RED, bg: BLACK },
    );
    world.names.insert(e, Name { name: String::from_str("Bear Trap") });
    world.invisible.insert(e, Invisible { turns: None });
    world.inflicts_damage.insert(e, InflictsDamage { damage: 6 });
    world.entry_triggers.insert(e, EntryTrigger {  });
    world.single_activations.insert(e, SingleActivation {  });
    e
}

/// The world after the thing called `name` was made at `(x, y)`. A name
/// that stands for nothing makes nothing.
pub open spec fn with_kind(w: WorldView, name: Seq<char>, x: i32, y: i32) -> WorldView {
    if name == "Goblin"@ {
        with_goblin(w, x, y)
    } else if name == "Orc"@ {
        with_orc(w, x, y)
    } else if name == "Health Potion"@ {
        with_health_potion(w, x, y)
    } else if name == "Magic Missile Scroll"@ {
        with_magic_missile_scroll(w, x, y)
    } else if name == "Fireball Scroll"@ {
        with_fireball_scroll(w, x, y)
    } else if name == "Confusion Scroll"@ {
        with_confusion_scroll(w, x, y)
    } else if name == "Dagger"@ {
        with_dagger(w, x, y)
    } else if name == "Shield"@ {
        with_shield(w, x, y)
    } else if name == "Longsword"@ {
        with_longsword(w, x, y)
    } else if name == "Tower Shield"@ {
        with_tower_shield(w, x, y)
    } else if name == "Rations"@ {
        with_rations(w, x, y)
    } else if name == "Magic Mapping Scroll"@ {
        with_magic_mapping_scroll(w, x, y)
    } else if name == "Bear Trap"@ {
        with_bear_trap(w, x, y)
    } else {
        w
    }
}

/// Whether `a` reads `b`.
pub(crate) fn same(a: &String, b: &str) -> (r: bool)
    ensures
        r == (a@ == b@),
{
    *a == String::from_str(b)
}

/// Makes the thing called `name` on tile `idx`.
pub fn spawn_entity(world: &mut World, idx: usize, name: &String)
    requires
        idx <= i32::MAX,
    ensures
        final(world)@ == with_kind(
            old(world)@,
            name@,
            (idx % (MAP_WIDTH as usize)) as i32,
            (idx / (MAP_WIDTH as usize)) as i32,
        ),
{
    let x: i32 = (idx % 80) as i32;
    let y: i32 = (idx / 80) as i32;
    if same(name, "Goblin") {
        goblin(world, x, y);
    } else if same(name, "Orc") {
        orc(world, x, y);
    } else if same(name, "Health Potion") {
        health_potion(world, x, y);
    } else if same(name, "Magic Missile Scroll") {
        magic_missile_scroll(world, x, y);
    } else if same(name, "Fireball Scroll") {
        fireball_scroll(world, x, y);
    } else if same(name, "Confusion Scroll") {
        confusion_scroll(world, x, y);
    } else if same(name, "Dagger") {
        dagger(world, x, y);
    } else if same(name, "Shield") {
        shield(world, x, y);
    } else if same(name, "Longsword") {
        longsword(world, x, y);
    } else if same(name, "Tower Shield") {
        tower_shield(world, x, y);
    } else if same(name, "Rations") {
        rations(world, x, y);
    } else if same(name, "Magic Mapping Scroll") {
        magic_mapping_scroll(world, x, y);
    } else if same(name, "Bear Trap") {
        bear_trap(world, x, y);
    }
}

/// The table that the rooms of a level at `depth` are filled from. Orcs
/// and the scrolls of fire and confusion get more common with depth;
/// longswords and tower shields are found from the second level on.
pub open spec fn room_table_view(depth: int) -> TableView {
    TableView { names: Seq::empty(), weights: Seq::empty(), total: 0 }.add("Goblin"@, 10).add(
        "Orc"@,
        1 + depth,
    ).add("Health Potion"@, 7).add("Fireball Scroll"@, 2 + depth).add(
        "Confusion Scroll"@,
        2 + depth,
    ).add("Magic Missile Scroll"@, 4).add("Dagger"@, 3).add("Shield"@, 3).add(
        "Longsword"@,
        depth - 1,
    ).add("Tower Shield"@, depth - 1).add("Magic Mapping Scroll"@, 2).add("Rations"@, 10).add(
        "Bear Trap"@,
        3,
    )
}

/// The depths for which the weights of the room table fit into `i32`.
pub open spec fn depth_in_range(depth: int) -> bool {
    -2147483647 <= depth <= 429496720
}

/// Makes the table that the rooms of a level at `map_depth` are filled
/// from.
pub fn room_table(map_depth: i32) -> (t: RandomTable)
    requires
        depth_in_range(map_depth as int),
    ensures
        t.wf(),
        t@ == room_table_view(map_depth as int),
        t@.total > 0,
{
    let t = RandomTable::new();
    let t = t.add("Goblin", 10);
    let t = t.add("Orc", 1 + map_depth);
    let t = t.add("Health Potion", 7);
    let t = t.add("Fireball Scroll", 2 + map_depth);
    let t = t.add("Confusion Scroll", 2 + map_depth);
    let t = t.add("Magic Missile Scroll", 4);
    let t = t.add("Dagger", 3);
    let t = t.add("Shield", 3);
    let t = t.add("Longsword", map_depth - 1);
    let t = t.add("Tower Shield", map_depth - 1);
    let t = t.add("Magic Mapping Scroll", 2);
    let t = t.add("Rations", 10);
    t.add("Bear Trap", 3)
}

/// The world after the first `n` of `picks` were made, each a tile and the
/// name of what is made there.
pub open spec fn spawn_all(w: WorldView, picks: Seq<(usize, Seq<char>)>, n: int) -> WorldView
    decreases n,
{
    if n <= 0 {
        w
    } else {
        with_kind(
            spawn_all(w, picks, n - 1),
            picks[n - 1].1,
            (picks[n - 1].0 % (MAP_WIDTH as usize)) as i32,
            (picks[n - 1].0 / (MAP_WIDTH as usize)) as i32,
        )
    }
}

/// How many entities a region of `tiles` tiles gets at `depth` when the
/// die shows `roll`: the roll with the depth, less 4, but no more than
/// there are tiles and no less than none.
pub open spec fn spawn_count(tiles: int, roll: int, depth: int) -> int {
    let wanted = roll + (depth - 1) - 3;
    let capped = if tiles < wanted {
        tiles
    } else {
        wanted
    };
    if capped < 0 {
        0
    } else {
        capped
    }
}

/// Whether the tiles of `picks` are tiles of `area`, no two of them the
/// same place in `area`, and the names are names of `table`.
pub open spec fn picks_from(picks: Seq<(usize, Seq<char>)>, area: Seq<usize>, table: TableView) -> bool {
    &&& forall|k: int| 0 <= k < picks.len() ==> area.contains((#[trigger] picks[k]).0)
    &&& area.no_duplicates() ==> forall|j: int, k: int|
        0 <= j < k < picks.len() ==> (#[trigger] picks[j]).0 != (#[trigger] picks[k]).0
    &&& forall|k: int| 0 <= k < picks.len() ==> table.names.contains((#[trigger] picks[k]).1)
}

/// Makes each of `picks` in turn.
pub fn spawn_picks(world: &mut World, picks: &Vec<(usize, String)>)
    requires
        forall|k: int| 0 <= k < picks@.len() ==> (#[trigger] picks@[k]).0 <= i32::MAX,
    ensures
        final(world)@ == spawn_all(old(world)@, pick_views(picks@), picks@.len() as int),
        final(world)@.map == old(world)@.map,
{
    let mut k: usize = 0;
    while k < picks.len()
        invariant
            k <= picks@.len(),
            forall|j: int| 0 <= j < picks@.len() ==> (#[trigger] picks@[j]).0 <= i32::MAX,
            world@.map == old(world)@.map,
            world@ == spawn_all(old(world)@, pick_views(picks@), k as int),
        decreases picks@.len() - k,
    {
        spawn_entity(world, picks[k].0, &picks[k].1);
        k = k + 1;
    }
}

/// The tiles and names of `picks`.
pub open spec fn pick_views(picks: Seq<(usize, String)>) -> Seq<(usize, Seq<char>)> {
    Seq::new(picks.len(), |k: int| (picks[k].0, picks[k].1@))
}

/// Fills the tiles of `area` at `map_depth`: the number of entities is
/// [`spawn_count`] for a die of 7 sides; each gets a tile of `area` that
/// no other gets, and is what the room table gives.
pub fn spawn_region(world: &mut World, area: &Vec<usize>, map_depth: i32)
    requires
        depth_in_range(map_depth as int),
        area@.len() < i32::MAX,
        forall|k: int| 0 <= k < area@.len() ==> #[trigger] area@[k] <= i32::MAX,
    ensures
        final(world)@.map == old(world)@.map,
        exists|picks: Seq<(usize, Seq<char>)>, roll: int|
            #[trigger] spawn_all(old(world)@, picks, picks.len() as int) == final(world)@ && 1 <= roll
                <= MAX_SPAWNS + 3 && picks.len() == #[trigger] spawn_count(
                area@.len() as int,
                roll,
                map_depth as int,
            ) && picks_from(picks, area@, room_table_view(map_depth as int)),
{
    let spawn_table = room_table(map_depth);
    let mut spawn_points: Vec<(usize, String)> = Vec::new();
    let mut areas: Vec<usize> = Vec::new();
    let mut c: usize = 0;
    while c < area.len()
        invariant
            c <= area@.len(),
            areas@ == area@.take(c as int),
        decreases area@.len() - c,
    {
        areas.push(area[c]);
        assert(areas@ =~= area@.take(c + 1));
        c = c + 1;
    }
    assert(area@.take(c as int) =~= area@);
    let roll: i32 = roll_dice(&mut world.rng, 1, MAX_SPAWNS + 3);
    let wanted: i64 = roll as i64 + (map_depth as i64 - 1) - 3;
    let num_spawns: i64 = if (areas.len() as i64) < wanted {
        areas.len() as i64
    } else {
        wanted
    };
    let mut i: i64 = 0;
    while i < num_spawns
        invariant
            0 <= i,
            i <= num_spawns || (num_spawns < 0 && i == 0),
            forall|k: int| 0 <= k < areas@.len() ==> #[trigger] areas@[k] <= i32::MAX,
            num_spawns <= area@.len(),
            areas@.len() == area@.len() - i,
            area@.len() < i32::MAX,
            spawn_table.wf(),
            spawn_table@ == room_table_view(map_depth as int),
            spawn_table@.total > 0,
            spawn_points@.len() == i,
            world@ == old(world)@,
            forall|k: int| 0 <= k < areas@.len() ==> area@.contains(#[trigger] areas@[k]),
            area@.no_duplicates() ==> areas@.no_duplicates(),
            area@.no_duplicates() ==> forall|j: int, k: int|
                0 <= j < spawn_points@.len() && 0 <= k < areas@.len() ==> (#[trigger] spawn_points@[j]).0
                    != #[trigger] areas@[k],
            forall|k: int| 0 <= k < spawn_points@.len() ==> (#[trigger] spawn_points@[k]).0 <= i32::MAX,
            picks_from(pick_views(spawn_points@), area@, spawn_table@),
        decreases num_spawns - i,
    {
        let array_index: usize = if areas.len() == 1 {
            0
        } else {
            (roll_dice(&mut world.rng, 1, areas.len() as i32) - 1) as usize
        };
        let map_idx: usize = areas[array_index];
        let name = spawn_table.roll(&mut world.rng);
        let ghost before = spawn_points@;
        let ghost rest = areas@;
        spawn_points.push((map_idx, name));
        areas.remove(array_index);
        proof {
            let picks = pick_views(spawn_points@);
            assert(area@.contains(map_idx));
            assert forall|k: int| 0 <= k < areas@.len() implies area@.contains(#[trigger] areas@[k])
                && areas@[k] <= i32::MAX by {
                if k < array_index {
                    assert(areas@[k] == rest[k]);
                } else {
                    assert(areas@[k] == rest[k + 1]);
                }
            }
            assert forall|k: int| 0 <= k < spawn_points@.len() implies (#[trigger] spawn_points@[k]).0
                <= i32::MAX by {
                if k < before.len() {
                    assert(spawn_points@[k] == before[k]);
                }
            }
            assert forall|k: int| 0 <= k < picks.len() implies area@.contains((#[trigger] picks[k]).0) by {
                if k < before.len() {
                    assert(picks[k] == pick_views(before)[k]);
                }
            }
            assert forall|k: int| 0 <= k < picks.len() implies spawn_table@.names.contains(
                (#[trigger] picks[k]).1,
            ) by {
                if k < before.len() {
                    assert(picks[k] == pick_views(before)[k]);
                }
            }
            if area@.no_duplicates() {
                assert forall|j: int, k: int| 0 <= j < k < areas@.len() implies areas@[j] != areas@[k] by {
                    let jj = if j < array_index { j } else { j + 1 };
                    let kk = if k < array_index { k } else { k + 1 };
                    assert(areas@[j] == rest[jj] && areas@[k] == rest[kk]);
                }
                assert forall|j: int, k: int|
                    0 <= j < spawn_points@.len() && 0 <= k < areas@.len() implies (
                #[trigger] spawn_points@[j]).0 != #[trigger] areas@[k] by {
                    let kk = if k < array_index { k } else { k + 1 };
                    assert(areas@[k] == rest[kk]);
                    if j < before.len() {
                        assert(spawn_points@[j] == before[j]);
                    }
                }
                assert forall|j: int, k: int| 0 <= j < k < picks.len() implies (#[trigger] picks[j]).0 != (
                #[trigger] picks[k]).0 by {
                    if k < before.len() {
                        assert(picks[j] == pick_views(before)[j] && picks[k] == pick_views(before)[k]);
                    } else {
                        assert(before[j].0 != rest[array_index as int]);
                    }
                }
            }
        }
        i = i + 1;
    }
    spawn_picks(world, &spawn_points);
    proof {
        let picks = pick_views(spawn_points@);
        assert(picks.len() == spawn_count(area@.len() as int, roll as int, map_depth as int));
        assert(spawn_all(old(world)@, picks, picks.len() as int) == world@);
    }
}

/// The floor tiles in the rows after `y1` and before `y`, and in row `y`
/// the columns after `x1` and before `x`, of the room, row by row.
pub open spec fn floor_upto(tiles: Seq<TileType>, room: Rect, y: int, x: int) -> Seq<usize>
    decreases y - room.y1, x - room.x1,
{
    if y <= room.y1 {
        Seq::empty()
    } else if x <= room.x1 + 1 {
        if y <= room.y1 + 1 {
            Seq::empty()
        } else {
            floor_upto(tiles, room, y - 1, room.x2 as int)
        }
    } else if tiles[index_of(x - 1, y)] == TileType::Floor {
        floor_upto(tiles, room, y, x - 1).push(index_of(x - 1, y) as usize)
    } else {
        floor_upto(tiles, room, y, x - 1)
    }
}

/// The floor tiles strictly inside `room`, row by row.
pub open spec fn room_floor(tiles: Seq<TileType>, room: Rect) -> Seq<usize> {
    if room.y2 <= room.y1 + 1 || room.x2 <= room.x1 + 1 {
        Seq::empty()
    } else {
        floor_upto(tiles, room, room.y2 - 1, room.x2 as int)
    }
}

/// The floor tiles strictly inside `room`, row by row.
pub fn floor_of(world: &World, room: &Rect) -> (targets: Vec<usize>)
    requires
        world.wf(),
        0 <= room.x1 <= room.x2 < MAP_WIDTH,
        0 <= room.y1 <= room.y2 < MAP_HEIGHT,
    ensures
        targets@ == room_floor(world@.map.tiles, *room),
        targets@.len() < i32::MAX,
        forall|k: int| 0 <= k < targets@.len() ==> #[trigger] targets@[k] < MAP_COUNT,
{
    let mut targets: Vec<usize> = Vec::new();
    if room.y2 <= room.y1 + 1 || room.x2 <= room.x1 + 1 {
        return targets;
    }
    let mut y: i32 = room.y1 + 1;
    while y < room.y2
        invariant
            world.wf(),
            0 <= room.x1,
            room.x1 + 1 < room.x2 < MAP_WIDTH,
            0 <= room.y1,
            room.y1 + 1 < room.y2 < MAP_HEIGHT,
            room.y1 + 1 <= y <= room.y2,
            targets@ == floor_upto(world@.map.tiles, *room, y as int, room.x1 + 1),
            targets@.len() <= (y - room.y1 - 1) * 80,
            forall|k: int| 0 <= k < targets@.len() ==> #[trigger] targets@[k] < MAP_COUNT,
        decreases room.y2 - y,
    {
        let mut x: i32 = room.x1 + 1;
        while x < room.x2
            invariant
                world.wf(),
                0 <= room.x1,
                room.x1 + 1 < room.x2 < MAP_WIDTH,
                0 <= room.y1,
                room.y1 + 1 <= y < room.y2 < MAP_HEIGHT,
                room.x1 + 1 <= x <= room.x2,
                targets@ == floor_upto(world@.map.tiles, *room, y as int, x as int),
                targets@.len() <= (y - room.y1 - 1) * 80 + (x - room.x1 - 1),
                forall|k: int| 0 <= k < targets@.len() ==> #[trigger] targets@[k] < MAP_COUNT,
            decreases room.x2 - x,
        {
            let idx = world.map.xy_idx(x, y);
            if world.map.tiles[idx] == TileType::Floor {
                targets.push(idx);
            }
            x = x + 1;
        }
        y = y + 1;
    }
    targets
}

/// Fills `room` at `map_depth`: see [`spawn_region`], the region being
/// the floor tiles strictly inside the room.
pub fn spawn_room(world: &mut World, room: &Rect, map_depth: i32)
    requires
        old(world).wf(),
        depth_in_range(map_depth as int),
        0 <= room.x1 <= room.x2 < MAP_WIDTH,
        0 <= room.y1 <= room.y2 < MAP_HEIGHT,
    ensures
        final(world)@.map == old(world)@.map,
        exists|picks: Seq<(usize, Seq<char>)>, roll: int|
            #[trigger] spawn_all(old(world)@, picks, picks.len() as int) == final(world)@ && 1 <= roll
                <= MAX_SPAWNS + 3 && picks.len() == #[trigger] spawn_count(
                room_floor(old(world)@.map.tiles, *room).len() as int,
                roll,
                map_depth as int,
            ) && picks_from(
                picks,
                room_floor(old(world)@.map.tiles, *room),
                room_table_view(map_depth as int),
            ),
{
    let possible_targets = floor_of(world, room);
    spawn_region(world, &possible_targets, map_depth);
}

/// Making things changes neither the map nor the resources of the world.
pub proof fn lemma_spawn_frame(w: WorldView, picks: Seq<(usize, Seq<char>)>, n: int)
    ensures
        spawn_all(w, picks, n).fault == w.fault,
        spawn_all(w, picks, n).map == w.map,
        spawn_all(w, picks, n).run_state == w.run_state,
        spawn_all(w, picks, n).player == w.player,
        spawn_all(w, picks, n).log == w.log,
    decreases n,
{
    if n > 0 {
        lemma_spawn_frame(w, picks, n - 1);
    }
}

/// Making two lists of things one after the other is making the joined
/// list.
pub proof fn lemma_spawn_concat(
    w: WorldView,
    a: Seq<(usize, Seq<char>)>,
    b: Seq<(usize, Seq<char>)>,
    n: int,
)
    requires
        0 <= n <= b.len(),
    ensures
        spawn_all(spawn_all(w, a, a.len() as int), b, n) == spawn_all(w, a + b, a.len() + n),
    decreases n,
{
    if n > 0 {
        lemma_spawn_concat(w, a, b, n - 1);
        assert((a + b)[a.len() + n - 1] == b[n - 1]);
    } else {
        lemma_spawn_prefix(w, a, a + b, a.len() as int);
    }
}

/// Making the first `n` things of a list depends on these alone.
pub proof fn lemma_spawn_prefix(
    w: WorldView,
    a: Seq<(usize, Seq<char>)>,
    b: Seq<(usize, Seq<char>)>,
    n: int,
)
    requires
        0 <= n <= a.len(),
        n <= b.len(),
        forall|k: int| 0 <= k < n ==> a[k] == b[k],
    ensures
        spawn_all(w, a, n) == spawn_all(w, b, n),
    decreases n,
{
    if n > 0 {
        lemma_spawn_prefix(w, a, b, n - 1);
    }
}

} // verus!
