//! Scenario tests for the scheduler and the effects pipeline.

use dungeon_core::ai::initiative::advance_tick;
use dungeon_core::ai::turn_status::turn_status_pass;
use dungeon_core::ai::encumbrance::encumbrance_pass;
use dungeon_core::components::{
    Attribute, Attributes, Duration, EntityId, GameLog, HungerClock, HungerState, Initiative,
    Item, Equipped, EquipmentSlot, Pool, Pools, Position, RunState, StatusEffect, WantsToMelee,
};
use dungeon_core::effects::damage::{add_confusion, heal_damage, inflict_damage, restore_mana};
use dungeon_core::effects::{
    run_effects_queue, add_effect, EffectQueue, EffectType, Targets,
};
use dungeon_core::gamesystem::{attr_bonus, mana_at_level, player_hp_at_level};
use dungeon_core::hunger::hunger_pass;
use dungeon_core::map::LevelMap;
use dungeon_core::melee::{melee_combat_pass, melee_outcome};
use dungeon_core::spatial::SpatialIndex;
use dungeon_core::world::World;

fn flat_map() -> LevelMap {
    let mut map = LevelMap::new(1, 20, 20, String::from("Test"));
    for t in 0..map.tiles.len() {
        map.tiles[t] = dungeon_core::map::TileType::Floor;
    }
    map
}

fn creature(world: &mut World, x: i32, y: i32, hp: i32, initiative: i32) -> EntityId {
    let e = world.create_entity();
    world.position[e] = Some(Position { x, y });
    world.initiative[e] = Some(Initiative { current: initiative });
    world.pools[e] = Some(Pools {
        hit_points: Pool { current: hp, max: hp },
        mana: Pool { current: 5, max: 5 },
        xp: 0,
        level: 1,
        total_weight: 0,
        total_initiative_penalty: 0,
        gold: 0,
        god_mode: false,
    });
    world.attributes[e] = Some(Attributes {
        might: Attribute { base: 11, modifiers: 0, bonus: 0 },
        fitness: Attribute { base: 11, modifiers: 0, bonus: 0 },
        quickness: Attribute { base: 11, modifiers: 0, bonus: 0 },
        intelligence: Attribute { base: 11, modifiers: 0, bonus: 0 },
    });
    e
}

#[test]
fn initiative_drops_by_one_until_reroll() {
    let mut world = World::new();
    let player = creature(&mut world, 1, 1, 10, 5);
    world.player[player] = true;
    let mut queue = EffectQueue::new();
    let mut rng = rltk::RandomNumberGenerator::seeded(42);
    let mut runstate = RunState::Ticking;
    advance_tick(&mut world, &mut queue, &mut rng, player, Position { x: 1, y: 1 }, &mut runstate);
    assert_eq!(world.initiative[player].unwrap().current, 4);
    assert_eq!(runstate, RunState::Ticking);
    assert!(!world.my_turn[player]);
}

#[test]
fn initiative_reroll_stays_at_or_above_floor() {
    // With no quickness bonus and no penalty the reroll is 6 + 1d6.
    for seed in 0..20u64 {
        let mut world = World::new();
        let player = creature(&mut world, 1, 1, 10, 1);
        world.player[player] = true;
        let mut queue = EffectQueue::new();
        let mut rng = rltk::RandomNumberGenerator::seeded(seed);
        let mut runstate = RunState::Ticking;
        advance_tick(
            &mut world,
            &mut queue,
            &mut rng,
            player,
            Position { x: 1, y: 1 },
            &mut runstate,
        );
        let current = world.initiative[player].unwrap().current;
        assert!(current >= 7 && current <= 12);
        assert_eq!(runstate, RunState::AwaitingInput);
        assert!(world.my_turn[player]);
    }
}

#[test]
fn distant_monster_is_skipped_but_still_rerolls() {
    let mut world = World::new();
    let player = creature(&mut world, 1, 1, 10, 5);
    world.player[player] = true;
    let far = creature(&mut world, 90, 90, 10, 1);
    let near = creature(&mut world, 3, 3, 10, 1);
    let mut queue = EffectQueue::new();
    let mut rng = rltk::RandomNumberGenerator::seeded(7);
    let mut runstate = RunState::Ticking;
    advance_tick(&mut world, &mut queue, &mut rng, player, Position { x: 1, y: 1 }, &mut runstate);
    assert!(!world.my_turn[far]);
    assert!(world.my_turn[near]);
    assert!(world.initiative[far].unwrap().current >= 7);
}

#[test]
fn turn_eligibility_reproducible_for_fixed_seed() {
    let build = || {
        let mut world = World::new();
        let player = creature(&mut world, 1, 1, 10, 3);
        world.player[player] = true;
        for k in 0..8 {
            creature(&mut world, 2 + k, 2, 10, 1);
        }
        (world, player)
    };
    let (mut w1, p1) = build();
    let (mut w2, _) = build();
    let mut q1 = EffectQueue::new();
    let mut q2 = EffectQueue::new();
    let mut r1 = rltk::RandomNumberGenerator::seeded(123);
    let mut r2 = rltk::RandomNumberGenerator::seeded(123);
    let mut s1 = RunState::Ticking;
    let mut s2 = RunState::Ticking;
    advance_tick(&mut w1, &mut q1, &mut r1, p1, Position { x: 1, y: 1 }, &mut s1);
    advance_tick(&mut w2, &mut q2, &mut r2, p1, Position { x: 1, y: 1 }, &mut s2);
    assert_eq!(w1.my_turn, w2.my_turn);
    for e in 0..w1.len() {
        assert_eq!(w1.initiative[e], w2.initiative[e]);
    }
}

#[test]
fn status_with_one_turn_expires_at_input_boundary() {
    let mut world = World::new();
    let player = creature(&mut world, 1, 1, 10, 1);
    world.player[player] = true;
    let victim = creature(&mut world, 2, 2, 10, 5);
    let status = world.create_entity();
    world.status_effect[status] = Some(StatusEffect { target: victim });
    world.duration[status] = Some(Duration { turns: 1 });
    let mut queue = EffectQueue::new();
    let mut rng = rltk::RandomNumberGenerator::seeded(5);
    let mut runstate = RunState::Ticking;
    advance_tick(&mut world, &mut queue, &mut rng, player, Position { x: 1, y: 1 }, &mut runstate);
    assert_eq!(runstate, RunState::AwaitingInput);
    assert!(!world.alive[status], "the expired status entity must be deleted");
    assert!(world.equipment_changed[victim], "the target must be marked for a stat recompute");
}

#[test]
fn healing_never_exceeds_max() {
    let mut world = World::new();
    let e = creature(&mut world, 1, 1, 10, 5);
    if let Some(p) = world.pools[e].as_mut() {
        p.hit_points.current = 7;
    }
    let mut queue = EffectQueue::new();
    heal_damage(&mut world, &mut queue, 100, e);
    assert_eq!(world.pools[e].unwrap().hit_points.current, 10);
    restore_mana(&mut world, &mut queue, 100, e);
    assert_eq!(world.pools[e].unwrap().mana.current, 5);
}

#[test]
fn god_mode_blocks_damage() {
    let mut world = World::new();
    let e = creature(&mut world, 1, 1, 10, 5);
    if let Some(p) = world.pools[e].as_mut() {
        p.god_mode = true;
    }
    let map = flat_map();
    let mut queue = EffectQueue::new();
    inflict_damage(&mut world, &map, &mut queue, None, 5, e);
    assert_eq!(world.pools[e].unwrap().hit_points.current, 10);
}

#[test]
fn self_damage_is_ignored() {
    let mut world = World::new();
    let e = creature(&mut world, 1, 1, 10, 5);
    let map = flat_map();
    let mut queue = EffectQueue::new();
    inflict_damage(&mut world, &map, &mut queue, Some(e), 5, e);
    assert_eq!(world.pools[e].unwrap().hit_points.current, 10);
    assert!(queue.is_empty());
}

#[test]
fn lethal_damage_goes_negative_and_queues_one_death() {
    let mut world = World::new();
    let e = creature(&mut world, 1, 1, 10, 5);
    let map = flat_map();
    let mut queue = EffectQueue::new();
    inflict_damage(&mut world, &map, &mut queue, None, 12, e);
    assert_eq!(world.pools[e].unwrap().hit_points.current, -2);
    let deaths = queue
        .items
        .iter()
        .filter(|s| matches!(s.effect_type, EffectType::EntityDeath))
        .count();
    assert_eq!(deaths, 1);
    // Hitting the corpse again must not enqueue a second death notice.
    inflict_damage(&mut world, &map, &mut queue, None, 3, e);
    let deaths_after = queue
        .items
        .iter()
        .filter(|s| matches!(s.effect_type, EffectType::EntityDeath))
        .count();
    assert_eq!(deaths_after, 1);
}

#[test]
fn drain_resolves_cascading_death() {
    let mut world = World::new();
    let e = creature(&mut world, 1, 1, 10, 5);
    let mut map = flat_map();
    let mut queue = EffectQueue::new();
    let mut spatial = SpatialIndex::new(map.tiles.len());
    spatial.index_entity(e, 21, false);
    let mut particles = Vec::new();
    let mut teleports = Vec::new();
    let mut rng = rltk::RandomNumberGenerator::seeded(9);
    let mut log = GameLog::new();
    let mut runstate = RunState::Ticking;
    add_effect(&mut queue, None, EffectType::Damage { amount: 12 }, Targets::Single { target: e });
    run_effects_queue(
        &mut world,
        &mut map,
        &mut queue,
        &mut spatial,
        &mut particles,
        &mut teleports,
        &mut rng,
        &mut log,
        &mut runstate,
    );
    assert!(queue.is_empty());
    assert_eq!(world.pools[e].unwrap().hit_points.current, -2);
    assert!(!world.alive[e], "a resolved death marks the victim dead");
}

#[test]
fn confusion_statuses_stack_and_expire_independently() {
    let mut world = World::new();
    let target = creature(&mut world, 1, 1, 10, 5);
    let before = world.len();
    add_confusion(&mut world, 3, target);
    add_confusion(&mut world, 3, target);
    assert_eq!(world.len(), before + 2);
    let first = before;
    let second = before + 1;
    assert_eq!(world.status_effect[first], Some(StatusEffect { target }));
    assert_eq!(world.status_effect[second], Some(StatusEffect { target }));
    assert_eq!(world.duration[first], Some(Duration { turns: 3 }));
    assert_eq!(world.duration[second], Some(Duration { turns: 3 }));
    // Expire only the first by running it down; the second keeps its own clock.
    world.duration[first] = Some(Duration { turns: 1 });
    let player = creature(&mut world, 2, 2, 10, 1);
    world.player[player] = true;
    let mut queue = EffectQueue::new();
    let mut rng = rltk::RandomNumberGenerator::seeded(4);
    let mut runstate = RunState::Ticking;
    advance_tick(&mut world, &mut queue, &mut rng, player, Position { x: 2, y: 2 }, &mut runstate);
    assert!(!world.alive[first]);
    assert!(world.alive[second]);
    assert_eq!(world.duration[second], Some(Duration { turns: 2 }));
}

#[test]
fn confused_entity_is_denied_its_turn() {
    let mut world = World::new();
    let victim = creature(&mut world, 1, 1, 10, 5);
    world.my_turn[victim] = true;
    add_confusion(&mut world, 2, victim);
    let mut queue = EffectQueue::new();
    let runstate = RunState::Ticking;
    turn_status_pass(&mut world, &mut queue, &runstate);
    assert!(!world.my_turn[victim]);
}

#[test]
fn hunger_worsens_and_starvation_hurts() {
    let mut world = World::new();
    let e = creature(&mut world, 1, 1, 10, 5);
    world.my_turn[e] = true;
    world.hunger[e] = Some(HungerClock { state: HungerState::WellFed, duration: 1 });
    let mut queue = EffectQueue::new();
    let mut log = GameLog::new();
    hunger_pass(&mut world, &mut queue, &mut log, e);
    assert_eq!(
        world.hunger[e],
        Some(HungerClock { state: HungerState::Normal, duration: 200 })
    );
    world.hunger[e] = Some(HungerClock { state: HungerState::Starving, duration: 1 });
    hunger_pass(&mut world, &mut queue, &mut log, e);
    let damages = queue
        .items
        .iter()
        .filter(|s| matches!(s.effect_type, EffectType::Damage { amount: 1 }))
        .count();
    assert_eq!(damages, 1);
}

#[test]
fn encumbrance_totals_and_overload_penalty() {
    let mut world = World::new();
    let owner = creature(&mut world, 1, 1, 10, 5);
    world.equipment_changed[owner] = true;
    let sword = world.create_entity();
    world.item[sword] = Some(Item { initiative_penalty: 2, weight: 30, base_value: 1 });
    world.equipped[sword] = Some(Equipped { owner, slot: EquipmentSlot::Melee });
    let rock = world.create_entity();
    world.item[rock] = Some(Item { initiative_penalty: 1, weight: 60, base_value: 0 });
    world.in_backpack[rock] = Some(dungeon_core::components::InBackpack { owner });
    let mut log = GameLog::new();
    encumbrance_pass(&mut world, &mut log, owner);
    let pools = world.pools[owner].unwrap();
    assert_eq!(pools.total_weight, 90);
    // Capacity is 11 * 7 = 77, so the owner is overloaded: 2 + 1 + 4.
    assert_eq!(pools.total_initiative_penalty, 7);
    assert!(!world.equipment_changed[owner]);
}

#[test]
fn melee_formula_hits_and_misses() {
    let attrs = Attributes {
        might: Attribute { base: 13, modifiers: 0, bonus: 1 },
        fitness: Attribute { base: 11, modifiers: 0, bonus: 0 },
        quickness: Attribute { base: 11, modifiers: 0, bonus: 0 },
        intelligence: Attribute { base: 11, modifiers: 0, bonus: 0 },
    };
    let skills = dungeon_core::components::Skills { melee: 1, defense: 1, magic: 1 };
    // Armour class is 10 + 0 + 1 = 11; a natural 9 modified by 1 + 1 = 11 misses,
    // a natural 10 modified to 12 hits for 2 (damage die) + 1 + 2 * 1 = 5.
    assert_eq!(melee_outcome(9, 2, &attrs, &skills, &attrs, &skills, false), None);
    assert_eq!(melee_outcome(10, 2, &attrs, &skills, &attrs, &skills, false), Some(5));
    // A natural twenty always hits; a natural one always misses.
    assert!(melee_outcome(20, 1, &attrs, &skills, &attrs, &skills, false).is_some());
    assert_eq!(melee_outcome(1, 4, &attrs, &skills, &attrs, &skills, false), None);
    // Being well fed adds one to the hit roll.
    assert_eq!(melee_outcome(9, 2, &attrs, &skills, &attrs, &skills, true), Some(5));
}

#[test]
fn melee_pass_clears_intents_and_queues_damage() {
    let mut world = World::new();
    let attacker = creature(&mut world, 1, 1, 10, 5);
    let defender = creature(&mut world, 2, 1, 10, 5);
    world.skills[attacker] = Some(dungeon_core::components::Skills { melee: 5, defense: 0, magic: 0 });
    world.skills[defender] = Some(dungeon_core::components::Skills { melee: 0, defense: 0, magic: 0 });
    world.wants_melee[attacker] = Some(WantsToMelee { target: defender });
    let mut queue = EffectQueue::new();
    let mut rng = rltk::RandomNumberGenerator::seeded(3);
    melee_combat_pass(&mut world, &mut queue, &mut rng);
    assert!(world.wants_melee[attacker].is_none());
    for s in queue.items.iter().skip(queue.head) {
        assert!(matches!(s.effect_type, EffectType::Damage { .. }));
    }
}

#[test]
fn game_formulas_give_expected_values() {
    assert_eq!(attr_bonus(11), 0);
    assert_eq!(attr_bonus(13), 1);
    assert_eq!(attr_bonus(7), -1);
    assert_eq!(player_hp_at_level(11, 1), 20);
    assert_eq!(player_hp_at_level(13, 2), 32);
    assert_eq!(mana_at_level(11, 1), 4);
    assert_eq!(mana_at_level(3, 2), 2);
}

#[test]
fn dice_rolls_stay_in_range_and_reproduce() {
    let mut a = rltk::RandomNumberGenerator::seeded(77);
    let mut b = rltk::RandomNumberGenerator::seeded(77);
    for _ in 0..100 {
        let ra = a.roll_dice(3, 6);
        let rb = b.roll_dice(3, 6);
        assert_eq!(ra, rb);
        assert!((3..=18).contains(&ra));
    }
}

#[test]
fn raster_line_runs_between_its_endpoints() {
    let line = dungeon_core::geometry::line_points(2, 3, 7, 5);
    assert!(line.len() >= 2);
    assert_eq!(line[0], Position { x: 2, y: 3 });
    assert_eq!(line[line.len() - 1], Position { x: 7, y: 5 });
    for w in line.windows(2) {
        assert!((w[0].x - w[1].x).abs() <= 1 && (w[0].y - w[1].y).abs() <= 1);
    }
}

#[test]
fn spent_consumable_only_logs() {
    let mut world = World::new();
    let user = creature(&mut world, 1, 1, 10, 5);
    let item = world.create_entity();
    world.consumable[item] = Some(dungeon_core::components::Consumable {
        max_charges: 1,
        charges: 0,
    });
    world.provides_healing[item] = Some(5);
    let map = flat_map();
    let mut queue = EffectQueue::new();
    let mut log = GameLog::new();
    let mut runstate = RunState::Ticking;
    dungeon_core::effects::triggers::item_trigger(
        &mut world,
        &map,
        &mut queue,
        &mut log,
        &mut runstate,
        Some(user),
        item,
        &Targets::Single { target: user },
    );
    assert!(queue.is_empty(), "a spent consumable fires no effect");
    assert_eq!(log.entries.len(), 1);
    assert!(world.alive[item], "a spent consumable is not deleted by the failed use");
}

#[test]
fn used_consumable_spends_its_last_charge_and_vanishes() {
    let mut world = World::new();
    let user = creature(&mut world, 1, 1, 10, 5);
    let item = world.create_entity();
    world.consumable[item] = Some(dungeon_core::components::Consumable {
        max_charges: 1,
        charges: 1,
    });
    world.provides_healing[item] = Some(5);
    let map = flat_map();
    let mut queue = EffectQueue::new();
    let mut log = GameLog::new();
    let mut runstate = RunState::Ticking;
    dungeon_core::effects::triggers::item_trigger(
        &mut world,
        &map,
        &mut queue,
        &mut log,
        &mut runstate,
        Some(user),
        item,
        &Targets::Single { target: user },
    );
    assert!(!queue.is_empty(), "the healing request must be enqueued");
    assert!(!world.alive[item], "a consumable with no charge left after use is deleted");
}

#[test]
fn freeze_and_thaw_round_trip_positions() {
    let mut world = World::new();
    let player = creature(&mut world, 1, 1, 10, 5);
    let monster = creature(&mut world, 4, 6, 10, 5);
    dungeon_core::dungeon::freeze_level_entities(&mut world, player, 2);
    assert!(world.position[player].is_some());
    assert!(world.position[monster].is_none());
    assert_eq!(
        world.other_level_position[monster],
        Some(dungeon_core::components::OtherLevelPosition { x: 4, y: 6, depth: 2 })
    );
    dungeon_core::dungeon::thaw_level_entities(&mut world, player, 2);
    assert_eq!(world.position[monster], Some(Position { x: 4, y: 6 }));
    assert!(world.other_level_position[monster].is_none());
}

#[test]
fn stepping_on_a_trap_fires_it_over_its_blast_disc() {
    let mut world = World::new();
    let walker = creature(&mut world, 5, 5, 10, 5);
    world.entity_moved[walker] = true;
    let trap = world.create_entity();
    world.position[trap] = Some(Position { x: 5, y: 5 });
    world.entry_trigger[trap] = true;
    world.area_of_effect[trap] = Some(2);
    let map = flat_map();
    let mut spatial = SpatialIndex::new(map.tiles.len());
    let walker_idx = map.xy_idx(5, 5);
    spatial.index_entity(walker, walker_idx, false);
    spatial.index_entity(trap, walker_idx, false);
    let mut queue = EffectQueue::new();
    let mut log = GameLog::new();
    dungeon_core::trigger_system::trigger_detection_pass(
        &mut world,
        &map,
        &mut queue,
        &spatial,
        &mut log,
    );
    assert!(!world.entity_moved[walker]);
    let fires: Vec<_> = queue
        .items
        .iter()
        .filter(|s| matches!(s.effect_type, EffectType::TriggerFire { .. }))
        .collect();
    assert_eq!(fires.len(), 1);
    match &fires[0].targets {
        Targets::Tiles { tiles } => {
            assert!(tiles.contains(&walker_idx));
            for t in tiles.iter() {
                assert!(*t < map.tiles.len());
            }
        }
        other => panic!("expected a blast disc, got {:?}", other),
    }
}

#[test]
fn blast_disc_stays_on_the_map_and_covers_the_centre() {
    let map = flat_map();
    let center = map.xy_idx(1, 1);
    let tiles = dungeon_core::trigger_system::disc_tiles(&map, center, 3);
    assert!(tiles.contains(&center));
    for t in tiles.iter() {
        assert!(*t < map.tiles.len());
    }
}

#[test]
fn cursed_item_blocks_the_swap() {
    let mut world = World::new();
    let owner = creature(&mut world, 1, 1, 10, 5);
    let hexed = world.create_entity();
    world.equipped[hexed] = Some(Equipped { owner, slot: EquipmentSlot::Melee });
    world.cursed_item[hexed] = true;
    let sword = world.create_entity();
    world.equippable[sword] = Some(dungeon_core::components::Equippable {
        slot: EquipmentSlot::Melee,
    });
    world.wants_use_item[owner] = Some(dungeon_core::components::WantsToUseItem {
        item: sword,
        target: None,
    });
    let mut log = GameLog::new();
    dungeon_core::inventory::equip_one(&mut world, &mut log, owner, owner);
    // The cursed piece stays on, the sword stays unequipped, and one
    // refusal is logged for the player.
    assert!(world.equipped[hexed].is_some());
    assert!(world.equipped[sword].is_none());
    assert!(world.in_backpack[sword].is_none());
    assert!(world.wants_use_item[owner].is_none());
    assert!(world.equipment_changed[owner]);
    assert_eq!(log.entries.len(), 1);
}

#[test]
fn equip_swaps_the_worn_item_into_the_backpack() {
    let mut world = World::new();
    let owner = creature(&mut world, 1, 1, 10, 5);
    let old_sword = world.create_entity();
    world.equipped[old_sword] = Some(Equipped { owner, slot: EquipmentSlot::Melee });
    let new_sword = world.create_entity();
    world.equippable[new_sword] = Some(dungeon_core::components::Equippable {
        slot: EquipmentSlot::Melee,
    });
    world.wants_use_item[owner] = Some(dungeon_core::components::WantsToUseItem {
        item: new_sword,
        target: None,
    });
    let mut log = GameLog::new();
    dungeon_core::inventory::equip_one(&mut world, &mut log, owner, owner);
    assert!(world.equipped[old_sword].is_none());
    assert_eq!(world.in_backpack[old_sword].map(|b| b.owner), Some(owner));
    assert_eq!(world.equipped[new_sword].map(|q| q.owner), Some(owner));
    assert!(world.in_backpack[new_sword].is_none());
    assert!(world.wants_use_item[owner].is_none());
}
