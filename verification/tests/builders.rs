//! Tests for the map builder chain, the dungeon registry and the
//! identification-name generators.

use dungeon_core::map::{LevelMap, TileType, tile_walkable};
use dungeon_core::map_builders::level_builder;
use dungeon_core::spawner::RandomTable;
use dungeon_core::world::World;

fn small_table() -> RandomTable {
    let mut t = RandomTable::new();
    t.add(String::from("Gnom"), 10);
    t.add(String::from("Smardz"), 4);
    t
}

fn flood_reach(map: &LevelMap, start: usize) -> Vec<bool> {
    let count = map.tiles.len();
    let w = map.width as usize;
    let h = map.height as usize;
    let mut seen = vec![false; count];
    let mut stack = vec![start];
    seen[start] = true;
    while let Some(cur) = stack.pop() {
        let x = (cur % w) as i64;
        let y = (cur / w) as i64;
        for dy in -1i64..=1 {
            for dx in -1i64..=1 {
                if dx == 0 && dy == 0 {
                    continue;
                }
                let nx = x + dx;
                let ny = y + dy;
                if nx < 0 || ny < 0 || nx >= w as i64 || ny >= h as i64 {
                    continue;
                }
                let nb = (ny as usize) * w + nx as usize;
                if !seen[nb] && tile_walkable(map.tiles[nb]) {
                    seen[nb] = true;
                    stack.push(nb);
                }
            }
        }
    }
    seen
}

#[test]
fn generated_levels_are_fully_connected() {
    for depth in 1..=12 {
        let mut rng = rltk::RandomNumberGenerator::seeded(1000 + depth as u64);
        let mut chain = level_builder(depth, 40, 30, &mut rng, small_table());
        chain.build_map(&mut rng);
        let data = &chain.build_data;
        let pos = data
            .starting_position
            .expect("a finished chain must have a starting position");
        let start = data.map.xy_idx(pos.x, pos.y);
        assert!(tile_walkable(data.map.tiles[start]));
        let seen = flood_reach(&data.map, start);
        for t in 0..data.map.tiles.len() {
            if tile_walkable(data.map.tiles[t]) {
                assert!(seen[t], "unreachable walkable tile at depth {}", depth);
            }
        }
    }
}

#[test]
fn spawn_manifest_names_walkable_tiles() {
    for depth in [2, 3, 8, 10, 13] {
        let mut rng = rltk::RandomNumberGenerator::seeded(77 + depth as u64);
        let mut chain = level_builder(depth, 40, 30, &mut rng, small_table());
        chain.build_map(&mut rng);
        let data = &chain.build_data;
        for (idx, tag) in data.spawn_list.iter() {
            assert!(*idx < data.map.tiles.len());
            assert!(tile_walkable(data.map.tiles[*idx]), "spawn {} on a wall", tag);
        }
    }
}

#[test]
fn revisited_level_keeps_its_layout() {
    let mut rng = rltk::RandomNumberGenerator::seeded(5);
    let mut world = World::new();
    let player = world.create_entity();
    let mut dm = dungeon_core::dungeon::MasterDungeonMap::new(&Vec::new(), &Vec::new(), &mut rng);
    let mut map = LevelMap::new(1, 40, 30, String::from("Start"));
    let mut pos = dungeon_core::components::Position { x: 0, y: 0 };

    let fresh = dungeon_core::dungeon::level_transition(
        &mut map, &mut dm, &mut world, player, &mut pos, 2, 1, 40, 30, &mut rng, small_table(),
    );
    assert!(fresh.is_some(), "the first visit generates the level");
    let first_tiles = map.tiles.clone();

    dungeon_core::dungeon::level_transition(
        &mut map, &mut dm, &mut world, player, &mut pos, 3, 1, 40, 30, &mut rng, small_table(),
    );
    let back = dungeon_core::dungeon::level_transition(
        &mut map, &mut dm, &mut world, player, &mut pos, 2, 1, 40, 30, &mut rng, small_table(),
    );
    assert!(back.is_none(), "a stored level is reused, not rebuilt");
    assert_eq!(map.tiles, first_tiles, "the revisited grid is identical");
    let stair_idx = map.xy_idx(pos.x, pos.y);
    assert_eq!(map.tiles[stair_idx], TileType::UpStairs);
}

#[test]
fn registry_stores_and_returns_levels_by_depth() {
    let mut rng = rltk::RandomNumberGenerator::seeded(11);
    let mut dm = dungeon_core::dungeon::MasterDungeonMap::new(&Vec::new(), &Vec::new(), &mut rng);
    assert!(dm.get_map(4).is_none());
    let mut map = LevelMap::new(4, 10, 10, String::from("Czwarte"));
    map.tiles[15] = TileType::Floor;
    dm.store_map(&map);
    let fetched = dm.get_map(4).expect("the stored depth must be found");
    assert_eq!(fetched.tiles, map.tiles);
    assert_eq!(fetched.name, map.name);
    assert!(dm.get_map(5).is_none());
}

#[test]
fn obfuscation_tables_cover_every_tag() {
    let mut rng = rltk::RandomNumberGenerator::seeded(21);
    let scrolls = vec![String::from("Zwoj ognia"), String::from("Zwoj mrozu")];
    let potions = vec![String::from("Mikstura lecznicza")];
    let dm = dungeon_core::dungeon::MasterDungeonMap::new(&scrolls, &potions, &mut rng);
    assert_eq!(dm.scroll_mappings.len(), 2);
    assert_eq!(dm.scroll_mappings[0].0, scrolls[0]);
    assert_eq!(dm.potion_mappings.len(), 1);
    assert!(dm.scroll_mappings[0].1.starts_with("Zwoj "));
    assert!(dm.potion_mappings[0].1.ends_with(" wypiek"));
}

#[test]
fn scroll_names_carry_the_scroll_prefix() {
    let mut rng = rltk::RandomNumberGenerator::seeded(31);
    for _ in 0..10 {
        let name = dungeon_core::dungeon::make_scroll_name(&mut rng);
        assert!(name.starts_with("Zwoj "));
        assert!(name.len() >= 5);
    }
}

#[test]
fn spawn_table_rolls_only_known_tags() {
    let table = small_table();
    let mut rng = rltk::RandomNumberGenerator::seeded(41);
    for _ in 0..50 {
        let tag = table.roll(&mut rng);
        assert!(tag == "Gnom" || tag == "Smardz");
    }
    let empty = RandomTable::new();
    assert_eq!(empty.roll(&mut rng), "None");
}

#[test]
fn door_fits_only_a_corridor_mouth() {
    let mut rng = rltk::RandomNumberGenerator::seeded(51);
    let mut chain = dungeon_core::map_builders::BuilderChain::new(
        1,
        7,
        7,
        String::from("Drzwiowo"),
        small_table(),
    );
    // A horizontal corridor with walls above and below its middle tile.
    let data = &mut chain.build_data;
    for x in 2..=4 {
        let idx = data.map.xy_idx(x, 3);
        data.map.tiles[idx] = TileType::Floor;
    }
    let mouth = data.map.xy_idx(3, 3);
    assert!(dungeon_core::map_builders::door_placement::door_possible(data, mouth));
    // A tile in open ground does not take a door.
    for y in 2..=4 {
        for x in 2..=4 {
            let idx = data.map.xy_idx(x, y);
            data.map.tiles[idx] = TileType::Floor;
        }
    }
    assert!(!dungeon_core::map_builders::door_placement::door_possible(data, mouth));
    let _ = rng.roll_dice(1, 2);
}

#[test]
fn obfuscated_names_hide_unidentified_magic() {
    let mut rng = rltk::RandomNumberGenerator::seeded(61);
    let mut dm = dungeon_core::dungeon::MasterDungeonMap::new(&Vec::new(), &Vec::new(), &mut rng);
    let mut world = World::new();
    let item = world.create_entity();
    world.name[item] = Some(String::from("Zwoj ognia"));
    world.magic_item[item] = true;
    world.obfuscated_name[item] = Some(String::from("Zwoj bimbronu"));
    let masked = dungeon_core::inventory::obfuscate_name(&world, item, &dm);
    assert_eq!(masked, "Zwoj bimbronu");
    dm.identified_items.push(String::from("Zwoj ognia"));
    let shown = dungeon_core::inventory::obfuscate_name(&world, item, &dm);
    assert_eq!(shown, "Zwoj ognia");
}

#[test]
fn equip_pass_swaps_worn_items() {
    let mut world = World::new();
    let owner = world.create_entity();
    let old_armor = world.create_entity();
    world.equippable[old_armor] = Some(dungeon_core::components::Equippable {
        slot: dungeon_core::components::EquipmentSlot::Torso,
    });
    world.equipped[old_armor] = Some(dungeon_core::components::Equipped {
        owner,
        slot: dungeon_core::components::EquipmentSlot::Torso,
    });
    let new_armor = world.create_entity();
    world.equippable[new_armor] = Some(dungeon_core::components::Equippable {
        slot: dungeon_core::components::EquipmentSlot::Torso,
    });
    world.in_backpack[new_armor] = Some(dungeon_core::components::InBackpack { owner });
    world.wants_use_item[owner] = Some(dungeon_core::components::WantsToUseItem {
        item: new_armor,
        target: None,
    });
    let mut log = dungeon_core::components::GameLog::new();
    dungeon_core::inventory::item_equip_pass(&mut world, &mut log, owner);
    assert!(world.equipped[new_armor].is_some());
    assert!(world.equipped[old_armor].is_none());
    assert!(world.in_backpack[old_armor].is_some());
    assert!(world.wants_use_item[owner].is_none());
    assert!(world.equipment_changed[owner]);
}
