//! The components that entities are made of.

use vstd::prelude::*;
use crate::rect::Point;
use crate::world::{Entity, Table};

verus! {

/// A colour, packed as `0xRRGGBB`.
pub type Color = u32;

/// Black.
pub const BLACK: Color = 0x000000;

/// White.
pub const WHITE: Color = 0xFFFFFF;

/// Red.
pub const RED: Color = 0xFF0000;

/// Green.
pub const GREEN: Color = 0x00FF00;

/// Yellow.
pub const YELLOW: Color = 0xFFFF00;

/// Orange.
pub const ORANGE: Color = 0xFFA500;

/// Pink.
pub const PINK: Color = 0xFFC0CB;

/// Magenta.
pub const MAGENTA: Color = 0xFF00FF;

/// Cyan.
pub const CYAN: Color = 0x00FFFF;

/// A darker cyan.
pub const CYAN3: Color = 0x00CDCD;

/// Grey.
pub const GREY: Color = 0xBEBEBE;

/// Silver.
pub const SILVER: Color = 0xC0C0C0;

/// The grey in which an invisible player is drawn.
pub const GRAY65: Color = 0xA6A6A6;

/// The number that code page 437 gives to the character `c`: the glyph
/// under which it is drawn.
pub uninterp spec fn cp437(c: char) -> u16;

/// Calls `rltk::to_cp437`, a fixed table from characters to the glyph
/// numbers of code page 437. The table is not written out here: the result
/// is known as `cp437(c)`.
#[verifier::external_body]
pub(crate) fn glyph(c: char) -> (g: u16)
    ensures
        g == cp437(c),
{
    rltk::to_cp437(c)
}

/// Where an item is worn.
#[derive(Clone, Copy, PartialEq, Eq, Debug, Structural)]
pub enum EquipmentSlot {
    Melee,
    Shield,
}

/// The four bands of the hunger clock.
#[derive(Clone, Copy, PartialEq, Eq, Debug, Structural)]
pub enum HungerState {
    WellFed,
    Normal,
    Hungry,
    Starving,
}

/// Where an entity stands on the map.
#[derive(Clone, Copy, PartialEq, Eq, Debug, Structural)]
pub struct Position {
    pub x: i32,
    pub y: i32,
}

impl View for Position {
    type V = Position;

    open spec fn view(&self) -> Position {
        *self
    }
}

/// How an entity is drawn; a higher layer is drawn first.
#[derive(Clone, Copy, PartialEq, Eq, Debug, Structural)]
pub struct Renderable {
    pub layer: i32,
    pub glyph: u16,
    pub fg: Color,
    pub bg: Color,
}

impl View for Renderable {
    type V = Renderable;

    open spec fn view(&self) -> Renderable {
        *self
    }
}

/// Marks the entity that the player controls.
#[derive(Clone, Copy, PartialEq, Eq, Debug, Structural)]
pub struct Player {
}

impl View for Player {
    type V = Player;

    open spec fn view(&self) -> Player {
        *self
    }
}

/// Marks a hostile creature.
#[derive(Clone, Copy, PartialEq, Eq, Debug, Structural)]
pub struct Monster {
    pub is_targeting_player: bool,
}

impl View for Monster {
    type V = Monster;

    open spec fn view(&self) -> Monster {
        *self
    }
}

/// Marks an entity that no other can share a tile with.
#[derive(Clone, Copy, PartialEq, Eq, Debug, Structural)]
pub struct BlocksTile {
}

impl View for BlocksTile {
    type V = BlocksTile;

    open spec fn view(&self) -> BlocksTile {
        *self
    }
}

/// Health and fighting strength.
#[derive(Clone, Copy, PartialEq, Eq, Debug, Structural)]
pub struct CombatStats {
    pub max_hp: i32,
    pub hp: i32,
    pub defense: i32,
    pub power: i32,
}

impl View for CombatStats {
    type V = CombatStats;

    open spec fn view(&self) -> CombatStats {
        *self
    }
}

/// Intent: attack `target` this turn.
#[derive(Clone, Copy, PartialEq, Eq, Debug, Structural)]
pub struct WantsToMelee {
    pub target: Entity,
}

impl View for WantsToMelee {
    type V = WantsToMelee;

    open spec fn view(&self) -> WantsToMelee {
        *self
    }
}

/// Marks an entity that can be carried.
#[derive(Clone, Copy, PartialEq, Eq, Debug, Structural)]
pub struct Item {
}

impl View for Item {
    type V = Item;

    open spec fn view(&self) -> Item {
        *self
    }
}

/// Using the item restores hit points.
#[derive(Clone, Copy, PartialEq, Eq, Debug, Structural)]
pub struct ProvidesHealing {
    pub heal_amount: i32,
}

impl View for ProvidesHealing {
    type V = ProvidesHealing;

    open spec fn view(&self) -> ProvidesHealing {
        *self
    }
}

/// The item is carried by `owner`.
#[derive(Clone, Copy, PartialEq, Eq, Debug, Structural)]
pub struct InInventory {
    pub owner: Entity,
}

impl View for InInventory {
    type V = InInventory;

    open spec fn view(&self) -> InInventory {
        *self
    }
}

/// Intent: `collected_by` picks `item` up.
#[derive(Clone, Copy, PartialEq, Eq, Debug, Structural)]
pub struct WantsToPickupItem {
    pub collected_by: Entity,
    pub item: Entity,
}

impl View for WantsToPickupItem {
    type V = WantsToPickupItem;

    open spec fn view(&self) -> WantsToPickupItem {
        *self
    }
}

/// Intent: use `item`, on the tile `target` if one is given.
#[derive(Clone, Copy, PartialEq, Eq, Debug, Structural)]
pub struct WantsToUseItem {
    pub item: Entity,
    pub target: Option<Point>,
}

impl View for WantsToUseItem {
    type V = WantsToUseItem;

    open spec fn view(&self) -> WantsToUseItem {
        *self
    }
}

/// Intent: drop `item` where the owner stands.
#[derive(Clone, Copy, PartialEq, Eq, Debug, Structural)]
pub struct WantsToDropItem {
    pub item: Entity,
}

impl View for WantsToDropItem {
    type V = WantsToDropItem;

    open spec fn view(&self) -> WantsToDropItem {
        *self
    }
}

/// The item is used up by its first use.
#[derive(Clone, Copy, PartialEq, Eq, Debug, Structural)]
pub struct Consumable {
}

impl View for Consumable {
    type V = Consumable;

    open spec fn view(&self) -> Consumable {
        *self
    }
}

/// The item is aimed at a tile within `range`.
#[derive(Clone, Copy, PartialEq, Eq, Debug, Structural)]
pub struct Ranged {
    pub range: i32,
}

impl View for Ranged {
    type V = Ranged;

    open spec fn view(&self) -> Ranged {
        *self
    }
}

/// The item or trap hurts what it hits.
#[derive(Clone, Copy, PartialEq, Eq, Debug, Structural)]
pub struct InflictsDamage {
    pub damage: i32,
}

impl View for InflictsDamage {
    type V = InflictsDamage;

    open spec fn view(&self) -> InflictsDamage {
        *self
    }
}

/// The item affects every tile within `radius` of its target.
#[derive(Clone, Copy, PartialEq, Eq, Debug, Structural)]
pub struct AreaOfEffect {
    pub radius: i32,
}

impl View for AreaOfEffect {
    type V = AreaOfEffect;

    open spec fn view(&self) -> AreaOfEffect {
        *self
    }
}

/// The item confuses what it hits.
#[derive(Clone, Copy, PartialEq, Eq, Debug, Structural)]
pub struct CausesConfusion {
    pub turns: i32,
}

impl View for CausesConfusion {
    type V = CausesConfusion;

    open spec fn view(&self) -> CausesConfusion {
        *self
    }
}

/// The entity loses its next `turns` actions.
#[derive(Clone, Copy, PartialEq, Eq, Debug, Structural)]
pub struct Confusion {
    pub turns: i32,
}

impl View for Confusion {
    type V = Confusion;

    open spec fn view(&self) -> Confusion {
        *self
    }
}

/// The entity cannot be seen; for `turns` more turns, or until found.
#[derive(Clone, Copy, PartialEq, Eq, Debug, Structural)]
pub struct Invisible {
    pub turns: Option<i32>,
}

impl View for Invisible {
    type V = Invisible;

    open spec fn view(&self) -> Invisible {
        *self
    }
}

/// Intent: `entity` turns invisible for `turns` turns.
#[derive(Clone, Copy, PartialEq, Eq, Debug, Structural)]
pub struct WantsBeInvisible {
    pub entity: Entity,
    pub turns: i32,
}

impl View for WantsBeInvisible {
    type V = WantsBeInvisible;

    open spec fn view(&self) -> WantsBeInvisible {
        *self
    }
}

/// Using the item makes its targets invisible.
#[derive(Clone, Copy, PartialEq, Eq, Debug, Structural)]
pub struct AppliesInvisiblity {
    pub turns: i32,
}

impl View for AppliesInvisiblity {
    type V = AppliesInvisiblity;

    open spec fn view(&self) -> AppliesInvisiblity {
        *self
    }
}

/// Turns that must pass between two uses of the item.
#[derive(Clone, Copy, PartialEq, Eq, Debug, Structural)]
pub struct Cooldown {
    pub turns: i32,
}

impl View for Cooldown {
    type V = Cooldown;

    open spec fn view(&self) -> Cooldown {
        *self
    }
}

/// The item cannot be used for `turns_remaining` more turns.
#[derive(Clone, Copy, PartialEq, Eq, Debug, Structural)]
pub struct ActiveCooldown {
    pub turns_remaining: i32,
}

impl View for ActiveCooldown {
    type V = ActiveCooldown;

    open spec fn view(&self) -> ActiveCooldown {
        *self
    }
}

/// Microseconds for which a particle is still shown.
#[derive(Clone, Copy, PartialEq, Eq, Debug, Structural)]
pub struct ParticleLifetime {
    pub lifetime_us: i64,
}

impl View for ParticleLifetime {
    type V = ParticleLifetime;

    open spec fn view(&self) -> ParticleLifetime {
        *self
    }
}

/// The item can be worn in `slot`.
#[derive(Clone, Copy, PartialEq, Eq, Debug, Structural)]
pub struct Equippable {
    pub slot: EquipmentSlot,
}

impl View for Equippable {
    type V = Equippable;

    open spec fn view(&self) -> Equippable {
        *self
    }
}

/// The item is worn by `owner` in `slot`.
#[derive(Clone, Copy, PartialEq, Eq, Debug, Structural)]
pub struct Equipped {
    pub owner: Entity,
    pub slot: EquipmentSlot,
}

impl View for Equipped {
    type V = Equipped;

    open spec fn view(&self) -> Equipped {
        *self
    }
}

/// Worn, the item adds to its owner's power.
#[derive(Clone, Copy, PartialEq, Eq, Debug, Structural)]
pub struct MeleePowerBonus {
    pub power: i32,
}

impl View for MeleePowerBonus {
    type V = MeleePowerBonus;

    open spec fn view(&self) -> MeleePowerBonus {
        *self
    }
}

/// Worn, the item adds to its owner's defense.
#[derive(Clone, Copy, PartialEq, Eq, Debug, Structural)]
pub struct DefenseBonus {
    pub defense: i32,
}

impl View for DefenseBonus {
    type V = DefenseBonus;

    open spec fn view(&self) -> DefenseBonus {
        *self
    }
}

/// Intent: take `item` off.
#[derive(Clone, Copy, PartialEq, Eq, Debug, Structural)]
pub struct WantsToRemoveItem {
    pub item: Entity,
}

impl View for WantsToRemoveItem {
    type V = WantsToRemoveItem;

    open spec fn view(&self) -> WantsToRemoveItem {
        *self
    }
}

/// Using the item reveals the whole level.
#[derive(Clone, Copy, PartialEq, Eq, Debug, Structural)]
pub struct MagicMapper {
}

impl View for MagicMapper {
    type V = MagicMapper;

    open spec fn view(&self) -> MagicMapper {
        *self
    }
}

/// How well fed an entity is.
#[derive(Clone, Copy, PartialEq, Eq, Debug, Structural)]
pub struct HungerClock {
    pub state: HungerState,
    pub total_nutrition: i32,
}

impl View for HungerClock {
    type V = HungerClock;

    open spec fn view(&self) -> HungerClock {
        *self
    }
}

/// Eating the item adds to the eater's nutrition.
#[derive(Clone, Copy, PartialEq, Eq, Debug, Structural)]
pub struct Food {
    pub nutrition: i32,
}

impl View for Food {
    type V = Food;

    open spec fn view(&self) -> Food {
        *self
    }
}

/// The entity acts on whoever steps on its tile.
#[derive(Clone, Copy, PartialEq, Eq, Debug, Structural)]
pub struct EntryTrigger {
}

impl View for EntryTrigger {
    type V = EntryTrigger;

    open spec fn view(&self) -> EntryTrigger {
        *self
    }
}

/// The entity changed tile this turn.
#[derive(Clone, Copy, PartialEq, Eq, Debug, Structural)]
pub struct EntityMoved {
}

impl View for EntityMoved {
    type V = EntityMoved;

    open spec fn view(&self) -> EntityMoved {
        *self
    }
}

/// The trap is gone once it was triggered.
#[derive(Clone, Copy, PartialEq, Eq, Debug, Structural)]
pub struct SingleActivation {
}

impl View for SingleActivation {
    type V = SingleActivation;

    open spec fn view(&self) -> SingleActivation {
        *self
    }
}

/// What an entity is called in the log.
#[derive(Clone, Debug)]
pub struct Name {
    pub name: String,
}

impl View for Name {
    type V = Seq<char>;

    open spec fn view(&self) -> Seq<char> {
        self.name@
    }
}

/// The tiles that an entity sees, and whether they must be computed anew.
#[derive(Clone, Debug)]
pub struct Viewshed {
    pub visible_tiles: Vec<Point>,
    pub range: i32,
    pub dirty: bool,
}

/// The mathematical content of a [`Viewshed`].
pub struct ViewshedView {
    pub visible_tiles: Seq<Point>,
    pub range: i32,
    pub dirty: bool,
}

impl View for Viewshed {
    type V = ViewshedView;

    open spec fn view(&self) -> ViewshedView {
        ViewshedView { visible_tiles: self.visible_tiles@, range: self.range, dirty: self.dirty }
    }
}

/// Damage that an entity has taken this turn and that is not yet
/// subtracted from its hit points, one amount per hit.
#[derive(Clone, Debug)]
pub struct SufferDamage {
    pub amount: Vec<i32>,
}

impl View for SufferDamage {
    type V = Seq<i32>;

    open spec fn view(&self) -> Seq<i32> {
        self.amount@
    }
}

/// The pending damage of every entity after `victim` took one more hit.
pub open spec fn with_damage(store: Map<int, Seq<i32>>, victim: int, amount: i32) -> Map<
    int,
    Seq<i32>,
> {
    store.insert(
        victim,
        if store.contains_key(victim) {
            store[victim].push(amount)
        } else {
            seq![amount]
        },
    )
}

impl SufferDamage {
    /// Adds one hit of `amount` to what `victim` has to suffer.
    pub fn new_damage(store: &mut Table<SufferDamage>, victim: Entity, amount: i32)
        ensures
            final(store)@ == with_damage(old(store)@, victim.index as int, amount),
    {
        match store.get_mut(victim) {
            Some(suffering) => {
                suffering.amount.push(amount);
            },
            None => {
                let mut hits: Vec<i32> = Vec::new();
                hits.push(amount);
                store.insert(victim, SufferDamage { amount: hits });
            },
        }
    }
}

} // verus!
