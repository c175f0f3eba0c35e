//! Component values attached to entities.
//!
//! An entity is an index into the typed component tables of a
//! [`crate::world::World`]; every capability of an entity is expressed by
//! the presence of a component value, never by an inherent type.

use vstd::prelude::*;

verus! {

/// Index of an entity in the world's component tables.
pub type EntityId = usize;

/// A tile-grid position of an entity on the current level.
#[derive(Clone, Copy, Debug, PartialEq, Eq, Structural)]
pub struct Position {
    pub x: i32,
    pub y: i32,
}

/// Where an entity was left when its level was frozen.
#[derive(Clone, Copy, Debug, PartialEq, Eq, Structural)]
pub struct OtherLevelPosition {
    pub x: i32,
    pub y: i32,
    pub depth: i32,
}

/// Per-entity countdown deciding when the entity acts next.
#[derive(Clone, Copy, Debug, PartialEq, Eq, Structural)]
pub struct Initiative {
    pub current: i32,
}

/// One attribute: a permanent base, temporary modifiers, and the
/// derived bonus used by rolls.
#[derive(Clone, Copy, Debug, PartialEq, Eq, Structural)]
pub struct Attribute {
    pub base: i32,
    pub modifiers: i32,
    pub bonus: i32,
}

/// The four attributes of a creature.
#[derive(Clone, Copy, Debug, PartialEq, Eq, Structural)]
pub struct Attributes {
    pub might: Attribute,
    pub fitness: Attribute,
    pub quickness: Attribute,
    pub intelligence: Attribute,
}

/// Trained skill ranks of a creature.
#[derive(Clone, Copy, Debug, PartialEq, Eq, Structural)]
pub struct Skills {
    pub melee: i32,
    pub defense: i32,
    pub magic: i32,
}

/// A bounded resource: current value and its maximum.
#[derive(Clone, Copy, Debug, PartialEq, Eq, Structural)]
pub struct Pool {
    pub max: i32,
    pub current: i32,
}

/// Per-entity resources. Weights and penalties are whole units; the
/// initiative penalty is kept already floored, as the scheduler reads it.
#[derive(Clone, Copy, Debug, PartialEq, Eq, Structural)]
pub struct Pools {
    pub hit_points: Pool,
    pub mana: Pool,
    pub xp: i32,
    pub level: i32,
    pub total_weight: i32,
    pub total_initiative_penalty: i32,
    pub gold: i32,
    pub god_mode: bool,
}

/// How hungry an entity currently is.
#[derive(Clone, Copy, Debug, PartialEq, Eq, Structural)]
pub enum HungerState {
    WellFed,
    Normal,
    Hungry,
    Starving,
}

/// Hunger state plus the turns left before the next transition.
#[derive(Clone, Copy, Debug, PartialEq, Eq, Structural)]
pub struct HungerClock {
    pub state: HungerState,
    pub duration: i32,
}

/// Marks an entity as a timed status effect aimed at another entity.
/// The effect is its own entity, so arbitrarily many can stack on one
/// target and expire independently.
#[derive(Clone, Copy, Debug, PartialEq, Eq, Structural)]
pub struct StatusEffect {
    pub target: EntityId,
}

/// Remaining rounds before a status effect expires.
#[derive(Clone, Copy, Debug, PartialEq, Eq, Structural)]
pub struct Duration {
    pub turns: i32,
}

/// Initiative penalty applied by a slowing (or, negative, hastening) status.
#[derive(Clone, Copy, Debug, PartialEq, Eq, Structural)]
pub struct Slow {
    pub initiative_penalty: i32,
}

/// Damage dealt to the status target once per round.
#[derive(Clone, Copy, Debug, PartialEq, Eq, Structural)]
pub struct DamageOverTime {
    pub damage: i32,
}

/// Temporary attribute modifiers granted by a status effect or item.
#[derive(Clone, Copy, Debug, PartialEq, Eq, Structural)]
pub struct AttributeBonus {
    pub might: Option<i32>,
    pub fitness: Option<i32>,
    pub quickness: Option<i32>,
    pub intelligence: Option<i32>,
}

/// Body slot an item can be worn or wielded in.
#[derive(Clone, Copy, Debug, PartialEq, Eq, Structural)]
pub enum EquipmentSlot {
    Melee,
    Shield,
    Head,
    Torso,
    Legs,
    Feet,
    Hands,
}

/// The slot an item can be equipped to.
#[derive(Clone, Copy, Debug, PartialEq, Eq, Structural)]
pub struct Equippable {
    pub slot: EquipmentSlot,
}

/// An item currently worn or wielded by its owner.
#[derive(Clone, Copy, Debug, PartialEq, Eq, Structural)]
pub struct Equipped {
    pub owner: EntityId,
    pub slot: EquipmentSlot,
}

/// Bulk data of an item; weights are whole units and the initiative
/// penalty is kept already floored.
#[derive(Clone, Copy, Debug, PartialEq, Eq, Structural)]
pub struct Item {
    pub initiative_penalty: i32,
    pub weight: i32,
    pub base_value: i32,
}

/// A consumable item and its remaining charges.
#[derive(Clone, Copy, Debug, PartialEq, Eq, Structural)]
pub struct Consumable {
    pub max_charges: i32,
    pub charges: i32,
}

/// An item carried in an entity's backpack.
#[derive(Clone, Copy, Debug, PartialEq, Eq, Structural)]
pub struct InBackpack {
    pub owner: EntityId,
}

/// A pending teleport destination.
#[derive(Clone, Copy, Debug, PartialEq, Eq, Structural)]
pub struct TeleportTo {
    pub x: i32,
    pub y: i32,
    pub depth: i32,
    pub player_only: bool,
}

/// Static data of a castable spell.
#[derive(Clone, Copy, Debug, PartialEq, Eq, Structural)]
pub struct SpellTemplate {
    pub mana_cost: i32,
}

/// One spell an entity knows.
#[derive(Clone, Debug)]
pub struct KnownSpell {
    pub display_name: String,
    pub mana_cost: i32,
}

/// An RGB colour for cosmetic feedback, eight bits per channel.
#[derive(Clone, Copy, Debug, PartialEq, Eq, Structural)]
pub struct Color {
    pub r: u8,
    pub g: u8,
    pub b: u8,
}

/// Line of transient particles emitted when a projectile-like effect fires.
#[derive(Clone, Copy, Debug, PartialEq, Eq, Structural)]
pub struct SpawnParticleLine {
    pub glyph: char,
    pub color: Color,
    pub lifetime_ms: i32,
}

/// Burst of transient particles emitted at the affected tiles.
#[derive(Clone, Copy, Debug, PartialEq, Eq, Structural)]
pub struct SpawnParticleBurst {
    pub glyph: char,
    pub color: Color,
    pub lifetime_ms: i32,
}

/// A request for the rendering collaborator to show a transient particle.
/// Purely cosmetic: recorded, never read back by the simulation.
#[derive(Clone, Copy, Debug, PartialEq, Eq, Structural)]
pub struct ParticleRequest {
    pub x: i32,
    pub y: i32,
    pub fg: Color,
    pub bg: Color,
    pub glyph: char,
    pub lifetime_ms: i32,
}

/// Intent of an entity to attack another in melee.
#[derive(Clone, Copy, Debug, PartialEq, Eq, Structural)]
pub struct WantsToMelee {
    pub target: EntityId,
}

/// Intent of an entity to use an item, optionally aimed at a tile.
#[derive(Clone, Copy, Debug, PartialEq, Eq, Structural)]
pub struct WantsToUseItem {
    pub item: EntityId,
    pub target: Option<Position>,
}

/// Intent of an entity to pick an item up.
#[derive(Clone, Copy, Debug, PartialEq, Eq, Structural)]
pub struct WantsToPickupItem {
    pub collected_by: EntityId,
    pub item: EntityId,
}

/// Global mode of the simulation loop. The scheduler switches between
/// ticking and awaiting player input; item effects may demand one of the
/// interface modes from the outside collaborator.
#[derive(Clone, Copy, Debug, PartialEq, Eq, Structural)]
pub enum RunState {
    AwaitingInput,
    Ticking,
    MagicMapReveal { row: i32 },
    ShowIdentify,
    ShowRemoveCurse,
    TownPortal,
}

/// Ordered log of messages for the interface collaborator; the
/// simulation only ever appends to it.
#[derive(Clone, Debug)]
pub struct GameLog {
    pub entries: Vec<String>,
}

impl GameLog {
    /// An empty log.
    pub fn new() -> (r: GameLog)
        ensures
            r.entries@.len() == 0,
    {
        GameLog { entries: Vec::new() }
    }

    /// Append one line to the log.
    pub fn push(&mut self, line: String)
        ensures
            final(self).entries@ == old(self).entries@.push(line),
    {
        self.entries.push(line);
    }
}

/// A trainable skill.
#[derive(Clone, Copy, Debug, PartialEq, Eq, Structural)]
pub enum Skill {
    Melee,
    Defense,
    Magic,
}

/// Rank bonus an entity has in a skill.
pub open spec fn spec_skill_bonus(skill: Skill, skills: Skills) -> int {
    match skill {
        Skill::Melee => skills.melee as int,
        Skill::Defense => skills.defense as int,
        Skill::Magic => skills.magic as int,
    }
}

/// Rank bonus an entity has in a skill.
pub fn skill_bonus(skill: Skill, skills: &Skills) -> (r: i32)
    ensures
        r == spec_skill_bonus(skill, *skills),
{
    match skill {
        Skill::Melee => skills.melee,
        Skill::Defense => skills.defense,
        Skill::Magic => skills.magic,
    }
}

} // verus!
