//! The component store: typed tables indexed by entity id.
//!
//! An entity is an index; what it can do is decided by which tables hold
//! a value for it. Deleting an entity clears its alive flag; every system
//! skips dead entities.

use vstd::prelude::*;
use crate::components::{
    AttributeBonus, Attributes, Consumable, DamageOverTime, Duration, EntityId, Equippable,
    Equipped, HungerClock, InBackpack, Initiative, Item, KnownSpell, OtherLevelPosition, Pools,
    Position, Skills, Slow, SpawnParticleBurst, SpawnParticleLine, SpellTemplate, StatusEffect,
    TeleportTo, WantsToMelee, WantsToPickupItem, WantsToUseItem,
};

verus! {

/// Typed component tables, one row per entity ever created.
#[derive(Clone, Debug)]
pub struct World {
    pub alive: Vec<bool>,
    pub player: Vec<bool>,
    pub position: Vec<Option<Position>>,
    pub other_level_position: Vec<Option<OtherLevelPosition>>,
    pub initiative: Vec<Option<Initiative>>,
    pub my_turn: Vec<bool>,
    pub attributes: Vec<Option<Attributes>>,
    pub skills: Vec<Option<Skills>>,
    pub pools: Vec<Option<Pools>>,
    pub hunger: Vec<Option<HungerClock>>,
    pub name: Vec<Option<String>>,
    pub status_effect: Vec<Option<StatusEffect>>,
    pub duration: Vec<Option<Duration>>,
    pub confusion: Vec<bool>,
    pub slow: Vec<Option<Slow>>,
    pub damage_over_time: Vec<Option<DamageOverTime>>,
    pub attribute_bonus: Vec<Option<AttributeBonus>>,
    pub equipment_changed: Vec<bool>,
    pub blocks_tile: Vec<bool>,
    pub item: Vec<Option<Item>>,
    pub consumable: Vec<Option<Consumable>>,
    pub equippable: Vec<Option<Equippable>>,
    pub equipped: Vec<Option<Equipped>>,
    pub in_backpack: Vec<Option<InBackpack>>,
    pub magic_item: Vec<bool>,
    pub obfuscated_name: Vec<Option<String>>,
    pub identified_item: Vec<Option<String>>,
    pub cursed_item: Vec<bool>,
    pub provides_healing: Vec<Option<i32>>,
    pub provides_mana: Vec<Option<i32>>,
    pub inflicts_damage: Vec<Option<i32>>,
    pub provides_food: Vec<bool>,
    pub magic_mapper: Vec<bool>,
    pub provides_identification: Vec<bool>,
    pub provides_remove_curse: Vec<bool>,
    pub town_portal: Vec<bool>,
    pub teleport_to: Vec<Option<TeleportTo>>,
    pub single_activation: Vec<bool>,
    pub hidden: Vec<bool>,
    pub entry_trigger: Vec<bool>,
    pub area_of_effect: Vec<Option<i32>>,
    pub spawn_particle_line: Vec<Option<SpawnParticleLine>>,
    pub spawn_particle_burst: Vec<Option<SpawnParticleBurst>>,
    pub teaches_spell: Vec<Option<String>>,
    pub spell_template: Vec<Option<SpellTemplate>>,
    pub known_spells: Vec<Option<Vec<KnownSpell>>>,
    pub entity_moved: Vec<bool>,
    pub wants_melee: Vec<Option<WantsToMelee>>,
    pub wants_use_item: Vec<Option<WantsToUseItem>>,
    pub wants_pickup: Vec<Option<WantsToPickupItem>>,
    pub wants_drop: Vec<Option<EntityId>>,
    pub wants_remove: Vec<Option<EntityId>>,
}

impl World {
    /// Number of entity rows ever created.
    pub open spec fn spec_len(self) -> int {
        self.alive@.len() as int
    }

    /// Well-formed: every component table has one row per entity.
    pub open spec fn wf(self) -> bool {
        &&& self.player@.len() == self.spec_len()
        &&& self.position@.len() == self.spec_len()
        &&& self.other_level_position@.len() == self.spec_len()
        &&& self.initiative@.len() == self.spec_len()
        &&& self.my_turn@.len() == self.spec_len()
        &&& self.attributes@.len() == self.spec_len()
        &&& self.skills@.len() == self.spec_len()
        &&& self.pools@.len() == self.spec_len()
        &&& self.hunger@.len() == self.spec_len()
        &&& self.name@.len() == self.spec_len()
        &&& self.status_effect@.len() == self.spec_len()
        &&& self.duration@.len() == self.spec_len()
        &&& self.confusion@.len() == self.spec_len()
        &&& self.slow@.len() == self.spec_len()
        &&& self.damage_over_time@.len() == self.spec_len()
        &&& self.attribute_bonus@.len() == self.spec_len()
        &&& self.equipment_changed@.len() == self.spec_len()
        &&& self.blocks_tile@.len() == self.spec_len()
        &&& self.item@.len() == self.spec_len()
        &&& self.consumable@.len() == self.spec_len()
        &&& self.equippable@.len() == self.spec_len()
        &&& self.equipped@.len() == self.spec_len()
        &&& self.in_backpack@.len() == self.spec_len()
        &&& self.magic_item@.len() == self.spec_len()
        &&& self.obfuscated_name@.len() == self.spec_len()
        &&& self.identified_item@.len() == self.spec_len()
        &&& self.cursed_item@.len() == self.spec_len()
        &&& self.provides_healing@.len() == self.spec_len()
        &&& self.provides_mana@.len() == self.spec_len()
        &&& self.inflicts_damage@.len() == self.spec_len()
        &&& self.provides_food@.len() == self.spec_len()
        &&& self.magic_mapper@.len() == self.spec_len()
        &&& self.provides_identification@.len() == self.spec_len()
        &&& self.provides_remove_curse@.len() == self.spec_len()
        &&& self.town_portal@.len() == self.spec_len()
        &&& self.teleport_to@.len() == self.spec_len()
        &&& self.single_activation@.len() == self.spec_len()
        &&& self.hidden@.len() == self.spec_len()
        &&& self.entry_trigger@.len() == self.spec_len()
        &&& self.area_of_effect@.len() == self.spec_len()
        &&& self.spawn_particle_line@.len() == self.spec_len()
        &&& self.spawn_particle_burst@.len() == self.spec_len()
        &&& self.teaches_spell@.len() == self.spec_len()
        &&& self.spell_template@.len() == self.spec_len()
        &&& self.known_spells@.len() == self.spec_len()
        &&& self.entity_moved@.len() == self.spec_len()
        &&& self.wants_melee@.len() == self.spec_len()
        &&& self.wants_use_item@.len() == self.spec_len()
        &&& self.wants_pickup@.len() == self.spec_len()
        &&& self.wants_drop@.len() == self.spec_len()
        &&& self.wants_remove@.len() == self.spec_len()
    }

    /// A world with no entities.
    pub fn new() -> (r: World)
        ensures
            r.wf(),
            r.spec_len() == 0,
    {
        World {
            alive: Vec::new(),
            player: Vec::new(),
            position: Vec::new(),
            other_level_position: Vec::new(),
            initiative: Vec::new(),
            my_turn: Vec::new(),
            attributes: Vec::new(),
            skills: Vec::new(),
            pools: Vec::new(),
            hunger: Vec::new(),
            name: Vec::new(),
            status_effect: Vec::new(),
            duration: Vec::new(),
            confusion: Vec::new(),
            slow: Vec::new(),
            damage_over_time: Vec::new(),
            attribute_bonus: Vec::new(),
            equipment_changed: Vec::new(),
            blocks_tile: Vec::new(),
            item: Vec::new(),
            consumable: Vec::new(),
            equippable: Vec::new(),
            equipped: Vec::new(),
            in_backpack: Vec::new(),
            magic_item: Vec::new(),
            obfuscated_name: Vec::new(),
            identified_item: Vec::new(),
            cursed_item: Vec::new(),
            provides_healing: Vec::new(),
            provides_mana: Vec::new(),
            inflicts_damage: Vec::new(),
            provides_food: Vec::new(),
            magic_mapper: Vec::new(),
            provides_identification: Vec::new(),
            provides_remove_curse: Vec::new(),
            town_portal: Vec::new(),
            teleport_to: Vec::new(),
            single_activation: Vec::new(),
            hidden: Vec::new(),
            entry_trigger: Vec::new(),
            area_of_effect: Vec::new(),
            spawn_particle_line: Vec::new(),
            spawn_particle_burst: Vec::new(),
            teaches_spell: Vec::new(),
            spell_template: Vec::new(),
            known_spells: Vec::new(),
            entity_moved: Vec::new(),
            wants_melee: Vec::new(),
            wants_use_item: Vec::new(),
            wants_pickup: Vec::new(),
            wants_drop: Vec::new(),
            wants_remove: Vec::new(),
        }
    }

    /// Number of entity rows ever created.
    pub fn len(&self) -> (r: usize)
        ensures
            r == self.spec_len(),
    {
        self.alive.len()
    }

    /// Whether `e` names a live entity.
    pub fn is_alive(&self, e: EntityId) -> (r: bool)
        ensures
            r == (e < self.spec_len() && self.alive@[e as int]),
    {
        e < self.alive.len() && self.alive[e]
    }

    /// Add one fresh, live entity carrying no components; its id is the
    /// previous table length.
    pub fn create_entity(&mut self) -> (r: EntityId)
        requires
            old(self).wf(),
            old(self).spec_len() < 1_000_000_000,
        ensures
            final(self).wf(),
            r == old(self).spec_len(),
            final(self).spec_len() == old(self).spec_len() + 1,
            final(self).alive@ == old(self).alive@.push(true),
            final(self).player@ == old(self).player@.push(false),
            final(self).position@ == old(self).position@.push(Option::None),
            final(self).other_level_position@ == old(self).other_level_position@.push(
                Option::None,
            ),
            final(self).initiative@ == old(self).initiative@.push(Option::None),
            final(self).my_turn@ == old(self).my_turn@.push(false),
            final(self).attributes@ == old(self).attributes@.push(Option::None),
            final(self).skills@ == old(self).skills@.push(Option::None),
            final(self).pools@ == old(self).pools@.push(Option::None),
            final(self).hunger@ == old(self).hunger@.push(Option::None),
            final(self).name@ == old(self).name@.push(Option::None),
            final(self).status_effect@ == old(self).status_effect@.push(Option::None),
            final(self).duration@ == old(self).duration@.push(Option::None),
            final(self).confusion@ == old(self).confusion@.push(false),
            final(self).slow@ == old(self).slow@.push(Option::None),
            final(self).damage_over_time@ == old(self).damage_over_time@.push(Option::None),
            final(self).attribute_bonus@ == old(self).attribute_bonus@.push(Option::None),
            final(self).equipment_changed@ == old(self).equipment_changed@.push(false),
            final(self).blocks_tile@ == old(self).blocks_tile@.push(false),
            final(self).item@ == old(self).item@.push(Option::None),
            final(self).consumable@ == old(self).consumable@.push(Option::None),
            final(self).equippable@ == old(self).equippable@.push(Option::None),
            final(self).equipped@ == old(self).equipped@.push(Option::None),
            final(self).in_backpack@ == old(self).in_backpack@.push(Option::None),
            final(self).magic_item@ == old(self).magic_item@.push(false),
            final(self).obfuscated_name@ == old(self).obfuscated_name@.push(Option::None),
            final(self).identified_item@ == old(self).identified_item@.push(Option::None),
            final(self).cursed_item@ == old(self).cursed_item@.push(false),
            final(self).provides_healing@ == old(self).provides_healing@.push(Option::None),
            final(self).provides_mana@ == old(self).provides_mana@.push(Option::None),
            final(self).inflicts_damage@ == old(self).inflicts_damage@.push(Option::None),
            final(self).provides_food@ == old(self).provides_food@.push(false),
            final(self).magic_mapper@ == old(self).magic_mapper@.push(false),
            final(self).provides_identification@ == old(self).provides_identification@.push(false),
            final(self).provides_remove_curse@ == old(self).provides_remove_curse@.push(false),
            final(self).town_portal@ == old(self).town_portal@.push(false),
            final(self).teleport_to@ == old(self).teleport_to@.push(Option::None),
            final(self).single_activation@ == old(self).single_activation@.push(false),
            final(self).hidden@ == old(self).hidden@.push(false),
            final(self).entry_trigger@ == old(self).entry_trigger@.push(false),
            final(self).area_of_effect@ == old(self).area_of_effect@.push(Option::None),
            final(self).spawn_particle_line@ == old(self).spawn_particle_line@.push(Option::None),
            final(self).spawn_particle_burst@ == old(self).spawn_particle_burst@.push(
                Option::None,
            ),
            final(self).teaches_spell@ == old(self).teaches_spell@.push(Option::None),
            final(self).spell_template@ == old(self).spell_template@.push(Option::None),
            final(self).known_spells@ == old(self).known_spells@.push(Option::None),
            final(self).entity_moved@ == old(self).entity_moved@.push(false),
            final(self).wants_melee@ == old(self).wants_melee@.push(Option::None),
            final(self).wants_use_item@ == old(self).wants_use_item@.push(Option::None),
            final(self).wants_pickup@ == old(self).wants_pickup@.push(Option::None),
            final(self).wants_drop@ == old(self).wants_drop@.push(Option::None),
            final(self).wants_remove@ == old(self).wants_remove@.push(Option::None),
    {
        let id = self.alive.len();
        self.alive.push(true);
        self.player.push(false);
        self.position.push(Option::None);
        self.other_level_position.push(Option::None);
        self.initiative.push(Option::None);
        self.my_turn.push(false);
        self.attributes.push(Option::None);
        self.skills.push(Option::None);
        self.pools.push(Option::None);
        self.hunger.push(Option::None);
        self.name.push(Option::None);
        self.status_effect.push(Option::None);
        self.duration.push(Option::None);
        self.confusion.push(false);
        self.slow.push(Option::None);
        self.damage_over_time.push(Option::None);
        self.attribute_bonus.push(Option::None);
        self.equipment_changed.push(false);
        self.blocks_tile.push(false);
        self.item.push(Option::None);
        self.consumable.push(Option::None);
        self.equippable.push(Option::None);
        self.equipped.push(Option::None);
        self.in_backpack.push(Option::None);
        self.magic_item.push(false);
        self.obfuscated_name.push(Option::None);
        self.identified_item.push(Option::None);
        self.cursed_item.push(false);
        self.provides_healing.push(Option::None);
        self.provides_mana.push(Option::None);
        self.inflicts_damage.push(Option::None);
        self.provides_food.push(false);
        self.magic_mapper.push(false);
        self.provides_identification.push(false);
        self.provides_remove_curse.push(false);
        self.town_portal.push(false);
        self.teleport_to.push(Option::None);
        self.single_activation.push(false);
        self.hidden.push(false);
        self.entry_trigger.push(false);
        self.area_of_effect.push(Option::None);
        self.spawn_particle_line.push(Option::None);
        self.spawn_particle_burst.push(Option::None);
        self.teaches_spell.push(Option::None);
        self.spell_template.push(Option::None);
        self.known_spells.push(Option::None);
        self.entity_moved.push(false);
        self.wants_melee.push(Option::None);
        self.wants_use_item.push(Option::None);
        self.wants_pickup.push(Option::None);
        self.wants_drop.push(Option::None);
        self.wants_remove.push(Option::None);
        id
    }

    /// How every table not specific to a status effect looks after one
    /// status-effect entity was created: extended by one default row.
    pub open spec fn status_core_extension(self, new: World) -> bool {
        &&& new.alive@ == self.alive@.push(true)
        &&& new.player@ == self.player@.push(false)
        &&& new.position@ == self.position@.push(Option::<Position>::None)
        &&& new.other_level_position@ == self.other_level_position@.push(
            Option::<OtherLevelPosition>::None,
        )
        &&& new.initiative@ == self.initiative@.push(Option::<Initiative>::None)
        &&& new.my_turn@ == self.my_turn@.push(false)
        &&& new.attributes@ == self.attributes@.push(Option::<Attributes>::None)
        &&& new.skills@ == self.skills@.push(Option::<Skills>::None)
        &&& new.pools@ == self.pools@.push(Option::<Pools>::None)
        &&& new.hunger@ == self.hunger@.push(Option::<HungerClock>::None)
        &&& new.blocks_tile@ == self.blocks_tile@.push(false)
        &&& new.item@ == self.item@.push(Option::<Item>::None)
        &&& new.consumable@ == self.consumable@.push(Option::<Consumable>::None)
        &&& new.equippable@ == self.equippable@.push(Option::<Equippable>::None)
        &&& new.equipped@ == self.equipped@.push(Option::<Equipped>::None)
        &&& new.in_backpack@ == self.in_backpack@.push(Option::<InBackpack>::None)
        &&& new.magic_item@ == self.magic_item@.push(false)
        &&& new.obfuscated_name@ == self.obfuscated_name@.push(Option::<String>::None)
        &&& new.identified_item@ == self.identified_item@.push(Option::<String>::None)
        &&& new.cursed_item@ == self.cursed_item@.push(false)
        &&& new.provides_healing@ == self.provides_healing@.push(Option::<i32>::None)
        &&& new.provides_mana@ == self.provides_mana@.push(Option::<i32>::None)
        &&& new.inflicts_damage@ == self.inflicts_damage@.push(Option::<i32>::None)
        &&& new.provides_food@ == self.provides_food@.push(false)
        &&& new.magic_mapper@ == self.magic_mapper@.push(false)
        &&& new.provides_identification@ == self.provides_identification@.push(false)
        &&& new.provides_remove_curse@ == self.provides_remove_curse@.push(false)
        &&& new.town_portal@ == self.town_portal@.push(false)
        &&& new.teleport_to@ == self.teleport_to@.push(Option::<TeleportTo>::None)
        &&& new.single_activation@ == self.single_activation@.push(false)
        &&& new.hidden@ == self.hidden@.push(false)
        &&& new.entry_trigger@ == self.entry_trigger@.push(false)
        &&& new.area_of_effect@ == self.area_of_effect@.push(Option::<i32>::None)
        &&& new.spawn_particle_line@ == self.spawn_particle_line@.push(
            Option::<SpawnParticleLine>::None,
        )
        &&& new.spawn_particle_burst@ == self.spawn_particle_burst@.push(
            Option::<SpawnParticleBurst>::None,
        )
        &&& new.teaches_spell@ == self.teaches_spell@.push(Option::<String>::None)
        &&& new.spell_template@ == self.spell_template@.push(Option::<SpellTemplate>::None)
        &&& new.known_spells@ == self.known_spells@.push(Option::<Vec<KnownSpell>>::None)
        &&& new.entity_moved@ == self.entity_moved@.push(false)
        &&& new.wants_melee@ == self.wants_melee@.push(Option::<WantsToMelee>::None)
        &&& new.wants_use_item@ == self.wants_use_item@.push(Option::<WantsToUseItem>::None)
        &&& new.wants_pickup@ == self.wants_pickup@.push(Option::<WantsToPickupItem>::None)
        &&& new.wants_drop@ == self.wants_drop@.push(Option::<EntityId>::None)
        &&& new.wants_remove@ == self.wants_remove@.push(Option::<EntityId>::None)
    }

    /// Mark an entity dead; its rows stay but every system skips it.
    pub fn delete_entity(&mut self, e: EntityId)
        requires
            old(self).wf(),
            e < old(self).spec_len(),
        ensures
            final(self).wf(),
            *final(self) == (World { alive: final(self).alive, ..*old(self) }),
            final(self).alive@ == old(self).alive@.update(e as int, false),
    {
        self.alive.set(e, false);
    }
}

} // verus!
