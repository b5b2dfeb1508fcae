//! The entity store: entities, one table per component type, and the
//! resources that exist once per world.

use vstd::prelude::*;
use rltk::RandomNumberGenerator;
use crate::components::{
    ActiveCooldown, AppliesInvisiblity, AreaOfEffect, BlocksTile, CausesConfusion, CombatStats,
    Confusion, Consumable, Cooldown, DefenseBonus, EntityMoved, EntryTrigger, Equippable, Equipped,
    Food, HungerClock, InInventory, InflictsDamage, Invisible, Item, MagicMapper, MeleePowerBonus,
    Monster, Name, ParticleLifetime, Player, Position, ProvidesHealing, Ranged, Renderable,
    SingleActivation, SufferDamage, Viewshed, WantsBeInvisible, WantsToDropItem, WantsToMelee,
    WantsToPickupItem, WantsToRemoveItem, WantsToUseItem, ViewshedView,
};
use crate::game_log::GameLog;
use crate::map::{MapView, TileMap};
use crate::rect::Point;
use crate::state::RunState;
use crate::systems::particle_system::{ParticleBuilder, ParticleRequest};

verus! {

/// Identifies one entity for as long as the world exists: indices are
/// handed out in increasing order and never reused.
#[derive(Clone, Copy, PartialEq, Eq, Debug, Structural)]
pub struct Entity {
    pub index: usize,
}

/// The components of one type, by entity. An entity has at most one
/// component of each type.
#[derive(Clone, Debug)]
pub struct Table<T> {
    pub slots: Vec<Option<T>>,
}

impl<T: View> View for Table<T> {
    type V = Map<int, T::V>;

    open spec fn view(&self) -> Map<int, T::V> {
        Map::new(
            |i: int| 0 <= i < self.slots@.len() && self.slots@[i].is_some(),
            |i: int| self.slots@[i].unwrap()@,
        )
    }
}

impl<T: View> Table<T> {
    /// The table in which no entity has a component.
    pub fn new() -> (t: Self)
        ensures
            t@ == Map::<int, T::V>::empty(),
    {
        let t = Table { slots: Vec::new() };
        assert(t@ =~= Map::<int, T::V>::empty());
        t
    }

    /// The component of `e`, if it has one.
    pub fn get(&self, e: Entity) -> (r: Option<&T>)
        ensures
            match r {
                Some(v) => self@.contains_key(e.index as int) && v@ == self@[e.index as int],
                None => !self@.contains_key(e.index as int),
            },
    {
        if e.index < self.slots.len() {
            self.slots[e.index].as_ref()
        } else {
            None
        }
    }

    /// Whether `e` has a component in this table.
    pub fn contains(&self, e: Entity) -> (b: bool)
        ensures
            b == self@.contains_key(e.index as int),
    {
        if e.index < self.slots.len() {
            self.slots[e.index].is_some()
        } else {
            false
        }
    }

    /// The component of `e` for writing, if it has one.
    pub fn get_mut(&mut self, e: Entity) -> (r: Option<&mut T>)
        ensures
            match r {
                Some(v) => old(self)@.contains_key(e.index as int) && v@ == old(self)@[e.index as int]
                    && final(self)@ == old(self)@.insert(e.index as int, final(v)@),
                None => !old(self)@.contains_key(e.index as int) && final(self)@ == old(self)@,
            },
    {
        if e.index < self.slots.len() {
            self.slots[e.index].as_mut()
        } else {
            None
        }
    }

    /// Gives `e` the component `value`, in place of the one it had.
    pub fn insert(&mut self, e: Entity, value: T)
        ensures
            final(self)@ == old(self)@.insert(e.index as int, value@),
    {
        while self.slots.len() <= e.index
            invariant
                self@ == old(self)@,
            decreases e.index + 1 - self.slots.len(),
        {
            let ghost before = self@;
            self.slots.push(None);
            assert(self@ =~= before);
        }
        self.slots[e.index] = Some(value);
        assert(self@ =~= old(self)@.insert(e.index as int, value@));
    }

    /// Takes the component of `e` away, if it has one.
    pub fn remove(&mut self, e: Entity)
        ensures
            final(self)@ == old(self)@.remove(e.index as int),
    {
        if e.index < self.slots.len() {
            self.slots[e.index] = None;
        }
        assert(self@ =~= old(self)@.remove(e.index as int));
    }

    /// Takes every component of the table away.
    pub fn clear(&mut self)
        ensures
            final(self)@ == Map::<int, T::V>::empty(),
    {
        self.slots.clear();
        assert(self@ =~= Map::<int, T::V>::empty());
    }
}


/// A broken invariant that a system met: the store lacks what the order
/// of the systems should have put there. The first one is kept in
/// [`World::fault`], and from then on the systems leave the world as it is.
#[derive(Clone, Copy, PartialEq, Eq, Debug, Structural)]
pub enum Fault {
    /// An entity lacks a component that the system has to read.
    MissingComponent,
    /// A component was to be given to an entity that does not exist.
    DeadEntity,
    /// A position lies outside the map.
    OutOfBounds,
    /// An item that needs a target was used where there is none.
    NoTarget,
}

/// Entities, their components and the resources of one game.
pub struct World {
    /// For each index handed out so far, whether its entity still exists.
    pub alive: Vec<bool>,
    /// Entities to delete at the next [`World::maintain`].
    pub doomed: Vec<Entity>,
    pub positions: Table<Position>,
    pub renderables: Table<Renderable>,
    pub viewsheds: Table<Viewshed>,
    pub players: Table<Player>,
    pub monsters: Table<Monster>,
    pub names: Table<Name>,
    pub blocks_tile: Table<BlocksTile>,
    pub combat_stats: Table<CombatStats>,
    pub wants_melee: Table<WantsToMelee>,
    pub suffer_damage: Table<SufferDamage>,
    pub items: Table<Item>,
    pub provides_healing: Table<ProvidesHealing>,
    pub in_inventory: Table<InInventory>,
    pub wants_pickup: Table<WantsToPickupItem>,
    pub wants_use: Table<WantsToUseItem>,
    pub wants_drop: Table<WantsToDropItem>,
    pub consumables: Table<Consumable>,
    pub ranged: Table<Ranged>,
    pub inflicts_damage: Table<InflictsDamage>,
    pub area_of_effect: Table<AreaOfEffect>,
    pub causes_confusion: Table<CausesConfusion>,
    pub confusion: Table<Confusion>,
    pub invisible: Table<Invisible>,
    pub wants_be_invisible: Table<WantsBeInvisible>,
    pub applies_invisibility: Table<AppliesInvisiblity>,
    pub cooldowns: Table<Cooldown>,
    pub active_cooldowns: Table<ActiveCooldown>,
    pub particle_lifetimes: Table<ParticleLifetime>,
    pub equippable: Table<Equippable>,
    pub equipped: Table<Equipped>,
    pub melee_power_bonus: Table<MeleePowerBonus>,
    pub defense_bonus: Table<DefenseBonus>,
    pub wants_remove: Table<WantsToRemoveItem>,
    pub magic_mappers: Table<MagicMapper>,
    pub hunger_clocks: Table<HungerClock>,
    pub food: Table<Food>,
    pub entry_triggers: Table<EntryTrigger>,
    pub entity_moved: Table<EntityMoved>,
    pub single_activations: Table<SingleActivation>,
    /// The current level.
    pub map: TileMap,
    /// The entity that the player controls.
    pub player: Entity,
    /// Where the player stands, kept beside the player's `Position`.
    pub player_pos: Point,
    pub rng: RandomNumberGenerator,
    pub run_state: RunState,
    pub log: GameLog,
    pub particles: ParticleBuilder,
    /// The first broken invariant that a system met, if any.
    pub fault: Option<Fault>,
}

/// The mathematical content of a [`World`]: each table as a map from
/// entity index to component. The state of the random number generator
/// is no part of it.
pub struct WorldView {
    pub alive: Seq<bool>,
    pub doomed: Seq<Entity>,
    pub positions: Map<int, Position>,
    pub renderables: Map<int, Renderable>,
    pub viewsheds: Map<int, ViewshedView>,
    pub players: Map<int, Player>,
    pub monsters: Map<int, Monster>,
    pub names: Map<int, Seq<char>>,
    pub blocks_tile: Map<int, BlocksTile>,
    pub combat_stats: Map<int, CombatStats>,
    pub wants_melee: Map<int, WantsToMelee>,
    pub suffer_damage: Map<int, Seq<i32>>,
    pub items: Map<int, Item>,
    pub provides_healing: Map<int, ProvidesHealing>,
    pub in_inventory: Map<int, InInventory>,
    pub wants_pickup: Map<int, WantsToPickupItem>,
    pub wants_use: Map<int, WantsToUseItem>,
    pub wants_drop: Map<int, WantsToDropItem>,
    pub consumables: Map<int, Consumable>,
    pub ranged: Map<int, Ranged>,
    pub inflicts_damage: Map<int, InflictsDamage>,
    pub area_of_effect: Map<int, AreaOfEffect>,
    pub causes_confusion: Map<int, CausesConfusion>,
    pub confusion: Map<int, Confusion>,
    pub invisible: Map<int, Invisible>,
    pub wants_be_invisible: Map<int, WantsBeInvisible>,
    pub applies_invisibility: Map<int, AppliesInvisiblity>,
    pub cooldowns: Map<int, Cooldown>,
    pub active_cooldowns: Map<int, ActiveCooldown>,
    pub particle_lifetimes: Map<int, ParticleLifetime>,
    pub equippable: Map<int, Equippable>,
    pub equipped: Map<int, Equipped>,
    pub melee_power_bonus: Map<int, MeleePowerBonus>,
    pub defense_bonus: Map<int, DefenseBonus>,
    pub wants_remove: Map<int, WantsToRemoveItem>,
    pub magic_mappers: Map<int, MagicMapper>,
    pub hunger_clocks: Map<int, HungerClock>,
    pub food: Map<int, Food>,
    pub entry_triggers: Map<int, EntryTrigger>,
    pub entity_moved: Map<int, EntityMoved>,
    pub single_activations: Map<int, SingleActivation>,
    pub map: MapView,
    pub player: Entity,
    pub player_pos: Point,
    pub run_state: RunState,
    pub log: Seq<Seq<char>>,
    pub particles: Seq<ParticleRequest>,
    pub fault: Option<Fault>,
}

impl View for World {
    type V = WorldView;

    open spec fn view(&self) -> WorldView {
        WorldView {
            alive: self.alive@,
            doomed: self.doomed@,
            positions: self.positions@,
            renderables: self.renderables@,
            viewsheds: self.viewsheds@,
            players: self.players@,
            monsters: self.monsters@,
            names: self.names@,
            blocks_tile: self.blocks_tile@,
            combat_stats: self.combat_stats@,
            wants_melee: self.wants_melee@,
            suffer_damage: self.suffer_damage@,
            items: self.items@,
            provides_healing: self.provides_healing@,
            in_inventory: self.in_inventory@,
            wants_pickup: self.wants_pickup@,
            wants_use: self.wants_use@,
            wants_drop: self.wants_drop@,
            consumables: self.consumables@,
            ranged: self.ranged@,
            inflicts_damage: self.inflicts_damage@,
            area_of_effect: self.area_of_effect@,
            causes_confusion: self.causes_confusion@,
            confusion: self.confusion@,
            invisible: self.invisible@,
            wants_be_invisible: self.wants_be_invisible@,
            applies_invisibility: self.applies_invisibility@,
            cooldowns: self.cooldowns@,
            active_cooldowns: self.active_cooldowns@,
            particle_lifetimes: self.particle_lifetimes@,
            equippable: self.equippable@,
            equipped: self.equipped@,
            melee_power_bonus: self.melee_power_bonus@,
            defense_bonus: self.defense_bonus@,
            wants_remove: self.wants_remove@,
            magic_mappers: self.magic_mappers@,
            hunger_clocks: self.hunger_clocks@,
            food: self.food@,
            entry_triggers: self.entry_triggers@,
            entity_moved: self.entity_moved@,
            single_activations: self.single_activations@,
            map: self.map@,
            player: self.player,
            player_pos: self.player_pos,
            run_state: self.run_state,
            log: self.log@,
            particles: self.particles@,
            fault: self.fault,
        }
    }
}

impl WorldView {
    /// The grids of the map have the size of a level.
    pub open spec fn wf(self) -> bool {
        self.map.wf()
    }

    /// Number of entity indices handed out so far.
    pub open spec fn capacity(self) -> int {
        self.alive.len() as int
    }

    /// Whether the entity with index `i` exists.
    pub open spec fn is_alive(self, i: int) -> bool {
        0 <= i < self.alive.len() && self.alive[i]
    }

    /// The world with one more message in its log.
    pub open spec fn say(self, message: Seq<char>) -> WorldView {
        WorldView { log: self.log.push(message), ..self }
    }

    /// The world in which `fault` is recorded, unless one already is.
    pub open spec fn fail(self, fault: Fault) -> WorldView {
        if self.fault.is_some() {
            self
        } else {
            WorldView { fault: Some(fault), ..self }
        }
    }

    /// The world with one more particle asked for.
    pub open spec fn request(self, r: ParticleRequest) -> WorldView {
        WorldView { particles: self.particles.push(r), ..self }
    }

    /// No entity has any component.
    pub open spec fn no_components(self) -> bool {
        &&& self.positions == Map::<int, Position>::empty()
        &&& self.renderables == Map::<int, Renderable>::empty()
        &&& self.viewsheds == Map::<int, ViewshedView>::empty()
        &&& self.players == Map::<int, Player>::empty()
        &&& self.monsters == Map::<int, Monster>::empty()
        &&& self.names == Map::<int, Seq<char>>::empty()
        &&& self.blocks_tile == Map::<int, BlocksTile>::empty()
        &&& self.combat_stats == Map::<int, CombatStats>::empty()
        &&& self.wants_melee == Map::<int, WantsToMelee>::empty()
        &&& self.suffer_damage == Map::<int, Seq<i32>>::empty()
        &&& self.items == Map::<int, Item>::empty()
        &&& self.provides_healing == Map::<int, ProvidesHealing>::empty()
        &&& self.in_inventory == Map::<int, InInventory>::empty()
        &&& self.wants_pickup == Map::<int, WantsToPickupItem>::empty()
        &&& self.wants_use == Map::<int, WantsToUseItem>::empty()
        &&& self.wants_drop == Map::<int, WantsToDropItem>::empty()
        &&& self.consumables == Map::<int, Consumable>::empty()
        &&& self.ranged == Map::<int, Ranged>::empty()
        &&& self.inflicts_damage == Map::<int, InflictsDamage>::empty()
        &&& self.area_of_effect == Map::<int, AreaOfEffect>::empty()
        &&& self.causes_confusion == Map::<int, CausesConfusion>::empty()
        &&& self.confusion == Map::<int, Confusion>::empty()
        &&& self.invisible == Map::<int, Invisible>::empty()
        &&& self.wants_be_invisible == Map::<int, WantsBeInvisible>::empty()
        &&& self.applies_invisibility == Map::<int, AppliesInvisiblity>::empty()
        &&& self.cooldowns == Map::<int, Cooldown>::empty()
        &&& self.active_cooldowns == Map::<int, ActiveCooldown>::empty()
        &&& self.particle_lifetimes == Map::<int, ParticleLifetime>::empty()
        &&& self.equippable == Map::<int, Equippable>::empty()
        &&& self.equipped == Map::<int, Equipped>::empty()
        &&& self.melee_power_bonus == Map::<int, MeleePowerBonus>::empty()
        &&& self.defense_bonus == Map::<int, DefenseBonus>::empty()
        &&& self.wants_remove == Map::<int, WantsToRemoveItem>::empty()
        &&& self.magic_mappers == Map::<int, MagicMapper>::empty()
        &&& self.hunger_clocks == Map::<int, HungerClock>::empty()
        &&& self.food == Map::<int, Food>::empty()
        &&& self.entry_triggers == Map::<int, EntryTrigger>::empty()
        &&& self.entity_moved == Map::<int, EntityMoved>::empty()
        &&& self.single_activations == Map::<int, SingleActivation>::empty()
    }

    /// The world without any component of entity `i`.
    pub open spec fn strip(self, i: int) -> WorldView {
        WorldView {
            positions: self.positions.remove(i),
            renderables: self.renderables.remove(i),
            viewsheds: self.viewsheds.remove(i),
            players: self.players.remove(i),
            monsters: self.monsters.remove(i),
            names: self.names.remove(i),
            blocks_tile: self.blocks_tile.remove(i),
            combat_stats: self.combat_stats.remove(i),
            wants_melee: self.wants_melee.remove(i),
            suffer_damage: self.suffer_damage.remove(i),
            items: self.items.remove(i),
            provides_healing: self.provides_healing.remove(i),
            in_inventory: self.in_inventory.remove(i),
            wants_pickup: self.wants_pickup.remove(i),
            wants_use: self.wants_use.remove(i),
            wants_drop: self.wants_drop.remove(i),
            consumables: self.consumables.remove(i),
            ranged: self.ranged.remove(i),
            inflicts_damage: self.inflicts_damage.remove(i),
            area_of_effect: self.area_of_effect.remove(i),
            causes_confusion: self.causes_confusion.remove(i),
            confusion: self.confusion.remove(i),
            invisible: self.invisible.remove(i),
            wants_be_invisible: self.wants_be_invisible.remove(i),
            applies_invisibility: self.applies_invisibility.remove(i),
            cooldowns: self.cooldowns.remove(i),
            active_cooldowns: self.active_cooldowns.remove(i),
            particle_lifetimes: self.particle_lifetimes.remove(i),
            equippable: self.equippable.remove(i),
            equipped: self.equipped.remove(i),
            melee_power_bonus: self.melee_power_bonus.remove(i),
            defense_bonus: self.defense_bonus.remove(i),
            wants_remove: self.wants_remove.remove(i),
            magic_mappers: self.magic_mappers.remove(i),
            hunger_clocks: self.hunger_clocks.remove(i),
            food: self.food.remove(i),
            entry_triggers: self.entry_triggers.remove(i),
            entity_moved: self.entity_moved.remove(i),
            single_activations: self.single_activations.remove(i),
            ..self
        }
    }

    /// The world after entity `i` was deleted: it no longer exists and has
    /// no component. Nothing changes if it did not exist.
    pub open spec fn delete(self, i: int) -> WorldView {
        if self.is_alive(i) {
            WorldView { alive: self.alive.update(i, false), ..self.strip(i) }
        } else {
            self
        }
    }

    /// The world after the first `n` of the doomed entities were deleted.
    pub open spec fn reap(self, n: int) -> WorldView
        decreases n,
    {
        if n <= 0 {
            self
        } else {
            self.reap(n - 1).delete(self.doomed[n - 1].index as int)
        }
    }

    /// The world after the entities with index below `n` were deleted.
    pub open spec fn purge(self, n: int) -> WorldView
        decreases n,
    {
        if n <= 0 {
            self
        } else {
            self.purge(n - 1).delete(n - 1)
        }
    }

    /// The world without the particles among the entities with index
    /// below `n`.
    pub open spec fn swept(self, n: int) -> WorldView
        decreases n,
    {
        if n <= 0 {
            self
        } else if self.swept(n - 1).particle_lifetimes.contains_key(n - 1) {
            self.swept(n - 1).delete(n - 1)
        } else {
            self.swept(n - 1)
        }
    }

    /// The world without what lasts no longer than a turn: the intents, the
    /// move markers, the particles asked for and the particles shown.
    pub open spec fn without_transients(self) -> WorldView {
        WorldView {
            wants_melee: Map::empty(),
            wants_pickup: Map::empty(),
            wants_use: Map::empty(),
            wants_drop: Map::empty(),
            wants_remove: Map::empty(),
            wants_be_invisible: Map::empty(),
            entity_moved: Map::empty(),
            particles: Seq::empty(),
            ..self
        }.swept(self.capacity())
    }

    /// The world after every doomed entity was deleted.
    pub open spec fn maintained(self) -> WorldView {
        WorldView { doomed: Seq::empty(), ..self.reap(self.doomed.len() as int) }
    }
}

impl World {
    /// See [`WorldView::wf`].
    pub open spec fn wf(&self) -> bool {
        self@.wf()
    }

    /// A world without entities: an unexplored level of solid rock at
    /// depth 1, an empty log, no particle asked for, no fault. The player
    /// is the entity that will be created first.
    pub fn new(rng: RandomNumberGenerator) -> (w: World)
        ensures
            w.wf(),
            w@.alive == Seq::<bool>::empty(),
            w@.doomed == Seq::<Entity>::empty(),
            w@.no_components(),
            w@.player == (Entity { index: 0 }),
            w@.player_pos == (Point { x: 0, y: 0 }),
            w@.run_state == RunState::PreRun,
            w@.log == Seq::<Seq<char>>::empty(),
            w@.particles == Seq::<ParticleRequest>::empty(),
            w@.fault.is_none(),
            w@.map.depth == 1,
    {
        let w = World {
            alive: Vec::new(),
            doomed: Vec::new(),
            positions: Table::new(),
            renderables: Table::new(),
            viewsheds: Table::new(),
            players: Table::new(),
            monsters: Table::new(),
            names: Table::new(),
            blocks_tile: Table::new(),
            combat_stats: Table::new(),
            wants_melee: Table::new(),
            suffer_damage: Table::new(),
            items: Table::new(),
            provides_healing: Table::new(),
            in_inventory: Table::new(),
            wants_pickup: Table::new(),
            wants_use: Table::new(),
            wants_drop: Table::new(),
            consumables: Table::new(),
            ranged: Table::new(),
            inflicts_damage: Table::new(),
            area_of_effect: Table::new(),
            causes_confusion: Table::new(),
            confusion: Table::new(),
            invisible: Table::new(),
            wants_be_invisible: Table::new(),
            applies_invisibility: Table::new(),
            cooldowns: Table::new(),
            active_cooldowns: Table::new(),
            particle_lifetimes: Table::new(),
            equippable: Table::new(),
            equipped: Table::new(),
            melee_power_bonus: Table::new(),
            defense_bonus: Table::new(),
            wants_remove: Table::new(),
            magic_mappers: Table::new(),
            hunger_clocks: Table::new(),
            food: Table::new(),
            entry_triggers: Table::new(),
            entity_moved: Table::new(),
            single_activations: Table::new(),
            map: TileMap::new(1),
            player: Entity { index: 0 },
            player_pos: Point { x: 0, y: 0 },
            rng,
            run_state: RunState::PreRun,
            log: GameLog::new(),
            particles: ParticleBuilder::new(),
            fault: None,
        };
        w
    }

    /// Number of entity indices handed out so far.
    pub fn capacity(&self) -> (n: usize)
        ensures
            n == self@.capacity(),
    {
        self.alive.len()
    }

    /// Whether `e` exists.
    pub fn is_alive(&self, e: Entity) -> (b: bool)
        ensures
            b == self@.is_alive(e.index as int),
    {
        e.index < self.alive.len() && self.alive[e.index]
    }

    /// Creates an entity without components. Its index is the number of
    /// entities created before it.
    pub fn create_entity(&mut self) -> (e: Entity)
        ensures
            e.index == old(self)@.capacity(),
            final(self)@ == (WorldView { alive: old(self)@.alive.push(true), ..old(self)@ }),
    {
        let e = Entity { index: self.alive.len() };
        self.alive.push(true);
        e
    }

    /// Records the first fault; a later one changes nothing.
    pub fn fail(&mut self, fault: Fault)
        ensures
            final(self)@ == old(self)@.fail(fault),
    {
        if self.fault.is_none() {
            self.fault = Some(fault);
        }
    }

    /// Takes every component of `e` away.
    pub fn strip(&mut self, e: Entity)
        ensures
            final(self)@ == old(self)@.strip(e.index as int),
    {
        self.positions.remove(e);
        self.renderables.remove(e);
        self.viewsheds.remove(e);
        self.players.remove(e);
        self.monsters.remove(e);
        self.names.remove(e);
        self.blocks_tile.remove(e);
        self.combat_stats.remove(e);
        self.wants_melee.remove(e);
        self.suffer_damage.remove(e);
        self.items.remove(e);
        self.provides_healing.remove(e);
        self.in_inventory.remove(e);
        self.wants_pickup.remove(e);
        self.wants_use.remove(e);
        self.wants_drop.remove(e);
        self.consumables.remove(e);
        self.ranged.remove(e);
        self.inflicts_damage.remove(e);
        self.area_of_effect.remove(e);
        self.causes_confusion.remove(e);
        self.confusion.remove(e);
        self.invisible.remove(e);
        self.wants_be_invisible.remove(e);
        self.applies_invisibility.remove(e);
        self.cooldowns.remove(e);
        self.active_cooldowns.remove(e);
        self.particle_lifetimes.remove(e);
        self.equippable.remove(e);
        self.equipped.remove(e);
        self.melee_power_bonus.remove(e);
        self.defense_bonus.remove(e);
        self.wants_remove.remove(e);
        self.magic_mappers.remove(e);
        self.hunger_clocks.remove(e);
        self.food.remove(e);
        self.entry_triggers.remove(e);
        self.entity_moved.remove(e);
        self.single_activations.remove(e);
    }

    /// Deletes `e` at once, with all its components. Returns whether `e`
    /// existed.
    pub fn delete_entity(&mut self, e: Entity) -> (deleted: bool)
        ensures
            deleted == old(self)@.is_alive(e.index as int),
            final(self)@ == old(self)@.delete(e.index as int),
    {
        if self.is_alive(e) {
            self.strip(e);
            self.alive[e.index] = false;
            true
        } else {
            false
        }
    }

    /// Marks `e` for deletion at the next [`World::maintain`]; until then
    /// it exists and keeps its components. Returns whether `e` exists;
    /// if not, nothing is marked.
    pub fn delete(&mut self, e: Entity) -> (marked: bool)
        ensures
            marked == old(self)@.is_alive(e.index as int),
            final(self)@ == if marked {
                WorldView { doomed: old(self)@.doomed.push(e), ..old(self)@ }
            } else {
                old(self)@
            },
    {
        if self.is_alive(e) {
            self.doomed.push(e);
            true
        } else {
            false
        }
    }

    /// Forgets what lasts no longer than a turn: the intents, the move
    /// markers, the particles asked for and the particles shown. None of
    /// these is kept when a game is saved.
    pub fn clear_transients(&mut self)
        ensures
            final(self)@ == old(self)@.without_transients(),
            final(self)@.map == old(self)@.map,
    {
        self.wants_melee.clear();
        self.wants_pickup.clear();
        self.wants_use.clear();
        self.wants_drop.clear();
        self.wants_remove.clear();
        self.wants_be_invisible.clear();
        self.entity_moved.clear();
        self.particles.requests.clear();
        let ghost cleared = self@;
        let n: usize = self.alive.len();
        let mut k: usize = 0;
        while k < n
            invariant
                k <= n,
                n == cleared.capacity(),
                n == self@.capacity(),
                self@.map == old(self)@.map,
                self@ == cleared.swept(k as int),
            decreases n - k,
        {
            let e = Entity { index: k };
            if self.particle_lifetimes.contains(e) {
                self.delete_entity(e);
            }
            k = k + 1;
        }
    }

    /// Deletes every entity at once.
    pub fn delete_all(&mut self)
        ensures
            final(self)@ == old(self)@.purge(old(self)@.capacity()),
            final(self)@.map == old(self)@.map,
            final(self)@.capacity() == old(self)@.capacity(),
    {
        let n: usize = self.alive.len();
        let mut k: usize = 0;
        while k < n
            invariant
                k <= n,
                n == old(self)@.capacity(),
                n == self@.capacity(),
                self@.map == old(self)@.map,
                self@ == old(self)@.purge(k as int),
            decreases n - k,
        {
            self.delete_entity(Entity { index: k });
            k = k + 1;
        }
    }

    /// Deletes the entities that were marked since the last call.
    pub fn maintain(&mut self)
        ensures
            final(self)@ == old(self)@.maintained(),
            final(self)@.map == old(self)@.map,
    {
        let n: usize = self.doomed.len();
        let mut k: usize = 0;
        while k < n
            invariant
                k <= n,
                n == old(self)@.doomed.len(),
                self@.doomed == old(self)@.doomed,
                self@.map == old(self)@.map,
                self@ == old(self)@.reap(k as int),
            decreases n - k,
        {
            let e = self.doomed[k];
            self.delete_entity(e);
            k = k + 1;
        }
        self.doomed.clear();
    }
}

} // verus!
