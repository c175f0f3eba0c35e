//! Prefabricated map pieces: whole-level templates and sections stamped
//! over an already-built map at a placement-derived offset.

use vstd::prelude::*;
use vstd::string::StrSliceExecFns;
use vstd::string::StringExecFns;
use crate::components::Position;
use crate::map::{LevelMap, TileType, tile_walkable};
use crate::map_builders::BuilderMap;

verus! {

/// A whole-level ASCII template.
#[derive(PartialEq, Copy, Clone, Debug)]
pub struct PrefabLevel {
    pub template: &'static str,
    pub width: usize,
    pub height: usize,
}

/// Horizontal placement of a stamped section.
#[derive(PartialEq, Eq, Structural, Copy, Clone, Debug)]
pub enum HorizontalPlacement {
    Left,
    Center,
    Right,
}

/// Vertical placement of a stamped section.
#[derive(PartialEq, Eq, Structural, Copy, Clone, Debug)]
pub enum VerticalPlacement {
    Top,
    Center,
    Bottom,
}

/// A sectional ASCII template and where on the map it lands.
#[derive(PartialEq, Copy, Clone, Debug)]
pub struct PrefabSection {
    pub template: &'static str,
    pub width: usize,
    pub height: usize,
    pub placement: (HorizontalPlacement, VerticalPlacement),
}

/// A fortification running down the map's right edge.
pub fn underground_fort() -> (r: PrefabSection)
    ensures
        r.width == 15,
        r.height == 43,
{
    PrefabSection {
        template: RIGHT_FORT,
        width: 15,
        height: 43,
        placement: (HorizontalPlacement::Right, VerticalPlacement::Top),
    }
}

const RIGHT_FORT: &'static str = "
     #         \n  #######      \n  #     #      \n  #     #######\n  # D         #\n  #     #######\n  #     #      \n  ### ###      \n    # #        \n    # #        \n    # ##       \n    ^          \n    ^          \n    # ##       \n    # #        \n    # #        \n    # #        \n    # #        \n  ### ###      \n  #     #      \n  #     #      \n  #  D  #      \n  #     #      \n  #     #      \n  ### ###      \n    # #        \n    # #        \n    # #        \n    # ##       \n    ^          \n    ^          \n    # ##       \n    # #        \n    # #        \n    # #        \n  ### ###      \n  #     #      \n  #     #######\n  #  D        #\n  #     #######\n  #     #      \n  #######      \n     #         \n";

/// A walled camp stamped at the map's centre.
pub fn gnom_camp() -> (r: PrefabSection)
    ensures
        r.width == 12,
        r.height == 12,
{
    PrefabSection {
        template: GNOM_CAMP_TXT,
        width: 12,
        height: 12,
        placement: (HorizontalPlacement::Center, VerticalPlacement::Center),
    }
}

const GNOM_CAMP_TXT: &'static str = "
            \n ~~~~G~~~~~ \n ~o      o~ \n ~ g      ~ \n ~        ~ \n ~    g   ~ \n G   A    G \n ~        ~ \n ~ g      ~ \n ~     g  ~ \n ~o      o~ \n ~~~~G~~~~~ \n            \n";

/// The walled entry yard to the deepest levels.
pub fn buhaj_entry() -> (r: PrefabSection)
    ensures
        r.width == 12,
        r.height == 10,
{
    PrefabSection {
        template: BUHAJ_ENTRY_TXT,
        width: 12,
        height: 10,
        placement: (HorizontalPlacement::Center, VerticalPlacement::Center),
    }
}

const BUHAJ_ENTRY_TXT: &'static str = "
            \n ########## \n #        # \n #   >    # \n #        # \n #B       # \n    B     # \n #B       # \n ########## \n            \n";

/// A small populated whole-level template.
pub fn wfc_populated() -> (r: PrefabLevel)
    ensures
        r.width == 20,
        r.height == 11,
{
    PrefabLevel { template: LEVEL_MAP, width: 20, height: 11 }
}

const LEVEL_MAP: &'static str = "
####################\n#   @       g      #\n#     ##########   #\n#     #        #   #\n#  g  #    !   #   #\n#     #        #   #\n#     ####  ####   #\n#                  #\n#    g        ^    #\n#             >    #\n####################\n";

/// What one template glyph means: the tile it stamps and the spawn tag it
/// places, if any.
fn glyph_meaning(c: char) -> (r: (TileType, Option<&'static str>))
{
    if c == '#' {
        (TileType::Wall, Option::None)
    } else if c == '>' {
        (TileType::DownStairs, Option::None)
    } else if c == '~' {
        (TileType::ShallowWater, Option::None)
    } else if c == '@' {
        (TileType::Floor, Option::None)
    } else if c == 'g' {
        (TileType::Floor, Option::Some("Gnom"))
    } else if c == 'G' {
        (TileType::Floor, Option::Some("Wartownik"))
    } else if c == 'B' {
        (TileType::Floor, Option::Some("Buhaj"))
    } else if c == 'A' {
        (TileType::Floor, Option::Some("Herszt gnomow"))
    } else if c == 'o' {
        (TileType::Floor, Option::Some("Ognisko"))
    } else if c == '^' {
        (TileType::Floor, Option::Some("Pulapka"))
    } else if c == '!' {
        (TileType::Floor, Option::Some("Mikstura lecznicza"))
    } else if c == 'D' {
        (TileType::Floor, Option::Some("Drzwi"))
    } else {
        (TileType::Floor, Option::None)
    }
}

/// The template's glyphs in reading order, newlines and returns dropped.
fn template_glyphs(template: &str) -> (r: Vec<char>)
{
    let n = template.unicode_len();
    let mut glyphs: Vec<char> = Vec::new();
    let mut i: usize = 0;
    while i < n
        invariant
            n == template@.len(),
        decreases n - i,
    {
        let c = template.get_char(i);
        if c != '\n' && c != '\r' {
            glyphs.push(c);
        }
        i = i + 1;
    }
    glyphs
}

/// Build a whole level from a template: the template's tiles are stamped
/// from the top-left corner, its spawn glyphs added, and the player glyph
/// becomes the starting position.
pub fn build_prefab_level(data: &mut BuilderMap, level: PrefabLevel)
    requires
        old(data).wf(),
    ensures
        final(data).wf(),
        *final(data) == (BuilderMap {
            map: final(data).map,
            spawn_list: final(data).spawn_list,
            starting_position: final(data).starting_position,
            ..*old(data)
        }),
        final(data).map == (LevelMap { tiles: final(data).map.tiles, ..old(data).map }),
        final(data).spawn_list@.len() >= old(data).spawn_list@.len(),
        forall|k: int|
            0 <= k < old(data).spawn_list@.len() ==> #[trigger] final(data).spawn_list@[k]
                == old(data).spawn_list@[k],
        forall|k: int|
            old(data).spawn_list@.len() <= k < final(data).spawn_list@.len()
                ==> (#[trigger] final(data).spawn_list@[k]).0 < final(data).map.tiles@.len(),
        final(data).starting_position != old(data).starting_position ==> {
            &&& final(data).starting_position is Some
            &&& 0 <= final(data).starting_position->Some_0.x < final(data).map.width
            &&& 0 <= final(data).starting_position->Some_0.y < final(data).map.height
        },
{
    let glyphs = template_glyphs(level.template);
    let mut i: usize = 0;
    while i < glyphs.len()
        invariant
            data.wf(),
            *data == (BuilderMap {
                map: data.map,
                spawn_list: data.spawn_list,
                starting_position: data.starting_position,
                ..*old(data)
            }),
            data.map == (LevelMap { tiles: data.map.tiles, ..old(data).map }),
            data.spawn_list@.len() >= old(data).spawn_list@.len(),
            forall|k: int|
                0 <= k < old(data).spawn_list@.len() ==> #[trigger] data.spawn_list@[k] == old(
                    data,
                ).spawn_list@[k],
            forall|k: int|
                old(data).spawn_list@.len() <= k < data.spawn_list@.len()
                    ==> (#[trigger] data.spawn_list@[k]).0 < data.map.tiles@.len(),
            data.starting_position != old(data).starting_position ==> {
                &&& data.starting_position is Some
                &&& 0 <= data.starting_position->Some_0.x < data.map.width
                &&& 0 <= data.starting_position->Some_0.y < data.map.height
            },
        decreases glyphs@.len() - i,
    {
        if level.width > 0 {
            let tx = i % level.width;
            let ty = i / level.width;
            if tx < 100_000 && ty < 100_000 {
                let x = tx as i32;
                let y = ty as i32;
                if x < data.map.width && y < data.map.height {
                    let idx = data.map.xy_idx(x, y);
                    let c = glyphs[i];
                    if c == '@' {
                        data.starting_position = Option::Some(Position { x, y });
                        data.map.tiles[idx] = TileType::Floor;
                    } else {
                        let (tile, spawn) = glyph_meaning(c);
                        data.map.tiles[idx] = tile;
                        if let Option::Some(tag) = spawn {
                            data.spawn_list.push((idx, String::from_str(tag)));
                        }
                    }
                }
            }
        }
        i = i + 1;
    }
}

/// Stamp a section over the built map at its placement-derived offset:
/// spawn entries inside the stamped area are dropped first, then the
/// section's tiles and spawn glyphs are written.
pub fn apply_sectional(data: &mut BuilderMap, section: PrefabSection)
    requires
        old(data).wf(),
    ensures
        final(data).wf(),
        *final(data) == (BuilderMap {
            map: final(data).map,
            spawn_list: final(data).spawn_list,
            ..*old(data)
        }),
        final(data).map == (LevelMap { tiles: final(data).map.tiles, ..old(data).map }),
        forall|k: int|
            0 <= k < final(data).spawn_list@.len() ==> (exists|j: int|
                0 <= j < old(data).spawn_list@.len() && #[trigger] final(data).spawn_list@[k]
                    == old(data).spawn_list@[j]) || (#[trigger] final(data).spawn_list@[k]).0
                < final(data).map.tiles@.len(),
{
    if section.width == 0 || section.width > 100_000 || section.height > 100_000 {
        return ;
    }
    let sw = section.width as i32;
    let sh = section.height as i32;
    let ox: i32 = match section.placement.0 {
        HorizontalPlacement::Left => 0,
        HorizontalPlacement::Center => if data.map.width >= sw {
            (data.map.width - sw) / 2
        } else {
            0
        },
        HorizontalPlacement::Right => if data.map.width > sw {
            data.map.width - sw - 1
        } else {
            0
        },
    };
    let oy: i32 = match section.placement.1 {
        VerticalPlacement::Top => 0,
        VerticalPlacement::Center => if data.map.height >= sh {
            (data.map.height - sh) / 2
        } else {
            0
        },
        VerticalPlacement::Bottom => if data.map.height > sh {
            data.map.height - sh - 1
        } else {
            0
        },
    };
    // Drop spawns inside the stamped area.
    let mut kept: Vec<(usize, String)> = Vec::new();
    let n = data.spawn_list.len();
    let w = data.map.width as usize;
    let mut k: usize = 0;
    while k < n
        invariant
            data.wf(),
            *data == (BuilderMap { map: data.map, spawn_list: data.spawn_list, ..*old(data) }),
            data.map == old(data).map,
            n == data.spawn_list@.len(),
            data.spawn_list@ == old(data).spawn_list@,
            w == data.map.width,
            w >= 1,
            k <= n,
            forall|m: int|
                0 <= m < kept@.len() ==> exists|j: int|
                    0 <= j < old(data).spawn_list@.len() && #[trigger] kept@[m] == old(
                        data,
                    ).spawn_list@[j],
        decreases n - k,
    {
        let idx = data.spawn_list[k].0;
        let x = (idx % w) as i64;
        let y = (idx / w) as i64;
        proof {
            assert(idx as int % (w as int) >= 0 && idx as int / (w as int) >= 0)
                by (nonlinear_arith)
                requires
                    w as int >= 1,
                    idx as int >= 0,
            ;
        }
        let inside = (ox as i64) <= x && x < (ox as i64) + (sw as i64) && (oy as i64) <= y && y
            < (oy as i64) + (sh as i64);
        if !inside {
            let entry = (idx, data.spawn_list[k].1.clone());
            proof {
                assert(entry.1 == data.spawn_list@[k as int].1);
                assert(entry == data.spawn_list@[k as int]);
            }
            kept.push(entry);
        }
        k = k + 1;
    }
    data.spawn_list = kept;
    // Stamp the section.
    let glyphs = template_glyphs(section.template);
    let mut i: usize = 0;
    while i < glyphs.len()
        invariant
            data.wf(),
            *data == (BuilderMap { map: data.map, spawn_list: data.spawn_list, ..*old(data) }),
            data.map == (LevelMap { tiles: data.map.tiles, ..old(data).map }),
            1 <= section.width <= 100_000,
            0 <= ox <= 100_000,
            0 <= oy <= 100_000,
            forall|m: int|
                0 <= m < data.spawn_list@.len() ==> (exists|j: int|
                    0 <= j < old(data).spawn_list@.len() && #[trigger] data.spawn_list@[m] == old(
                        data,
                    ).spawn_list@[j]) || (#[trigger] data.spawn_list@[m]).0
                    < data.map.tiles@.len(),
        decreases glyphs@.len() - i,
    {
        let tx = i % section.width;
        let ty = i / section.width;
        if tx < 100_000 && ty < 100_000 {
            let x = (tx as i32) + ox;
            let y = (ty as i32) + oy;
            if 0 <= x && x < data.map.width && 0 <= y && y < data.map.height {
                let idx = data.map.xy_idx(x, y);
                let c = glyphs[i];
                let (tile, spawn) = glyph_meaning(c);
                data.map.tiles[idx] = tile;
                if let Option::Some(tag) = spawn {
                    data.spawn_list.push((idx, String::from_str(tag)));
                }
            }
        }
        i = i + 1;
    }
}

} // verus!
