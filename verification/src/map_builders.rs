//! The procedural map builder pipeline: one initial builder carves a
//! first-pass tile grid, meta builders refine it in registration order,
//! and chain completion guarantees a fully connected level with a valid
//! spawn manifest.

use vstd::prelude::*;
use crate::components::Position;
use crate::geometry::Rect;
use crate::map::{LevelMap, spec_tile_walkable, tile_walkable, spec_xy_idx, MAX_MAP_SIDE};
use crate::spawner::RandomTable;

pub mod connectivity;
pub mod rooms;
pub mod shapes;
pub mod prefab;
pub mod door_placement;
pub mod voronoi_spawning;

use connectivity::{XStart, YStart, XEnd, YEnd};
use prefab::{PrefabLevel, PrefabSection};

verus! {

/// The shared build context one chain threads through its stages.
#[derive(Clone, Debug)]
pub struct BuilderMap {
    pub spawn_list: Vec<(usize, String)>,
    pub map: LevelMap,
    pub starting_position: Option<Position>,
    pub rooms: Option<Vec<Rect>>,
    pub corridors: Option<Vec<Vec<usize>>>,
    pub history: Vec<LevelMap>,
    pub width: i32,
    pub height: i32,
}

impl BuilderMap {
    /// Well-formed: the map is, and the cached sides agree with it.
    pub open spec fn wf(self) -> bool {
        &&& self.map.wf()
        &&& self.width == self.map.width
        &&& self.height == self.map.height
    }

    /// Every spawn entry names an in-bounds walkable tile.
    pub open spec fn spawns_valid(self) -> bool {
        forall|i: int|
            0 <= i < self.spawn_list@.len() ==> (#[trigger] self.spawn_list@[i]).0
                < self.map.tiles@.len() && spec_tile_walkable(
                self.map.tiles@[self.spawn_list@[i].0 as int],
            )
    }

    /// Keep a copy of the map for generation-history playback.
    pub fn take_snapshot(&mut self)
        requires
            old(self).wf(),
        ensures
            final(self).wf(),
            *final(self) == (BuilderMap { history: final(self).history, ..*old(self) }),
    {
        let snapshot = self.map.clone();
        self.history.push(snapshot);
    }
}

/// One first-pass map carving algorithm.
#[derive(Clone, Debug)]
pub enum InitialBuilder {
    SimpleMap,
    BspInterior,
    CellularAutomata,
    DrunkardsWalk { lifetime: i32, floor_percent: i32 },
    PrefabLevel { level: PrefabLevel },
}

/// One refinement stage applied to an already-carved map.
#[derive(Clone, Debug)]
pub enum MetaBuilder {
    RoomDrawer,
    DoglegCorridors,
    StraightLineCorridors,
    NearestCorridors,
    CorridorSpawner,
    RoomBasedStartingPosition,
    RoomBasedStairs,
    RoomBasedSpawner,
    AreaStartingPosition { x: XStart, y: YStart },
    AreaEndingPosition { x: XEnd, y: YEnd },
    CullUnreachable,
    DistantExit,
    VoronoiSpawning,
    DoorPlacement,
    PrefabSection { section: PrefabSection },
}

/// An ordered chain of builder stages over one shared build context.
#[derive(Clone, Debug)]
pub struct BuilderChain {
    pub starter: Option<InitialBuilder>,
    pub builders: Vec<MetaBuilder>,
    pub build_data: BuilderMap,
    pub spawn_table: RandomTable,
}

impl BuilderChain {
    /// A chain with an empty build context for a level of the given size,
    /// drawing spawns from the given table.
    pub fn new(
        new_depth: i32,
        width: i32,
        height: i32,
        name: String,
        spawn_table: RandomTable,
    ) -> (r: BuilderChain)
        requires
            3 <= width <= MAX_MAP_SIDE,
            3 <= height <= MAX_MAP_SIDE,
        ensures
            r.build_data.wf(),
            r.starter is None,
            r.builders@.len() == 0,
            r.build_data.spawn_list@.len() == 0,
            r.build_data.map.depth == new_depth,
        r.build_data.map.width == width,
        r.build_data.map.height == height,
            r.build_data.map.width == width,
            r.build_data.map.height == height,
            r.build_data.map.name == name,
            forall|t: int|
                0 <= t < r.build_data.map.tiles@.len() ==> r.build_data.map.tiles@[t]
                    == crate::map::TileType::Wall,
            r.build_data.starting_position is None,
            r.build_data.rooms is None,
            r.build_data.corridors is None,
            r.build_data.history@.len() == 0,
    {
        BuilderChain {
            starter: Option::None,
            builders: Vec::new(),
            build_data: BuilderMap {
                spawn_list: Vec::new(),
                map: LevelMap::new(new_depth, width, height, name),
                starting_position: Option::None,
                rooms: Option::None,
                corridors: Option::None,
                history: Vec::new(),
                width,
                height,
            },
            spawn_table,
        }
    }

    /// Choose the chain's one initial builder.
    pub fn start_with(&mut self, starter: InitialBuilder)
        requires
            old(self).starter is None,
        ensures
            final(self).starter == Option::Some(starter),
            *final(self) == (BuilderChain { starter: final(self).starter, ..*old(self) }),
    {
        self.starter = Option::Some(starter);
    }

    /// Register one more meta builder, applied in registration order.
    pub fn with(&mut self, metabuilder: MetaBuilder)
        ensures
            final(self).builders@ == old(self).builders@.push(metabuilder),
            *final(self) == (BuilderChain { builders: final(self).builders, ..*old(self) }),
    {
        self.builders.push(metabuilder);
    }

    /// Run the chain: the initial builder, then every meta builder in
    /// order, then the mandatory completion stage. On completion the
    /// spawn manifest names only in-bounds walkable tiles and, whenever a
    /// starting position was chosen, it stands on a walkable tile from
    /// which every walkable tile of the map can be reached.
    pub fn build_map(&mut self, rng: &mut rltk::RandomNumberGenerator)
        requires
            old(self).build_data.wf(),
            old(self).build_data.map.width >= 3,
            old(self).build_data.map.height >= 3,
            old(self).starter is Some,
        ensures
            final(self).build_data.wf(),
            final(self).build_data.spawns_valid(),
            final(self).build_data.map.width == old(self).build_data.map.width,
            final(self).build_data.map.height == old(self).build_data.map.height,
            final(self).build_data.map.depth == old(self).build_data.map.depth,
            final(self).build_data.starting_position matches Option::Some(pos) ==> {
                &&& 0 <= pos.x < final(self).build_data.map.width
                &&& 0 <= pos.y < final(self).build_data.map.height
                &&& spec_tile_walkable(
                    final(self).build_data.map.tiles@[spec_xy_idx(
                        final(self).build_data.map.width as int,
                        pos.x as int,
                        pos.y as int,
                    )],
                )
                &&& connectivity::spec_fully_connected(
                    final(self).build_data.map.tiles@,
                    final(self).build_data.map.width as int,
                    spec_xy_idx(
                        final(self).build_data.map.width as int,
                        pos.x as int,
                        pos.y as int,
                    ),
                )
            },
            final(self).build_data.starting_position is None ==> forall|t: int|
                0 <= t < final(self).build_data.map.tiles@.len() ==> !spec_tile_walkable(
                    #[trigger] final(self).build_data.map.tiles@[t],
                ),
    {
        let starter = self.starter.as_ref().unwrap();
        match starter {
            InitialBuilder::SimpleMap => {
                rooms::simple_map_rooms(&mut self.build_data, rng);
            },
            InitialBuilder::BspInterior => {
                rooms::bsp_interior(&mut self.build_data, rng);
            },
            InitialBuilder::CellularAutomata => {
                shapes::cellular_automata(&mut self.build_data, rng);
            },
            InitialBuilder::DrunkardsWalk { lifetime, floor_percent } => {
                shapes::drunkards_walk(&mut self.build_data, rng, *lifetime, *floor_percent);
            },
            InitialBuilder::PrefabLevel { level } => {
                prefab::build_prefab_level(&mut self.build_data, *level);
            },
        }
        let mut i: usize = 0;
        while i < self.builders.len()
            invariant
                self.build_data.wf(),
                self.build_data.map.width == old(self).build_data.map.width,
                self.build_data.map.height == old(self).build_data.map.height,
                self.build_data.map.depth == old(self).build_data.map.depth,
            decreases self.builders@.len() - i,
        {
            let stage = &self.builders[i];
            match stage {
                MetaBuilder::RoomDrawer => {
                    rooms::room_drawer(&mut self.build_data);
                },
                MetaBuilder::DoglegCorridors => {
                    rooms::dogleg_corridors(&mut self.build_data, rng);
                },
                MetaBuilder::StraightLineCorridors => {
                    rooms::straight_line_corridors(&mut self.build_data);
                },
                MetaBuilder::NearestCorridors => {
                    rooms::nearest_corridors(&mut self.build_data);
                },
                MetaBuilder::CorridorSpawner => {
                    rooms::corridor_spawner(&mut self.build_data, rng, &self.spawn_table);
                },
                MetaBuilder::RoomBasedStartingPosition => {
                    rooms::room_based_starting_position(&mut self.build_data);
                },
                MetaBuilder::RoomBasedStairs => {
                    rooms::room_based_stairs(&mut self.build_data);
                },
                MetaBuilder::RoomBasedSpawner => {
                    rooms::room_based_spawner(&mut self.build_data, rng, &self.spawn_table);
                },
                MetaBuilder::AreaStartingPosition { x, y } => {
                    connectivity::area_starting_position(&mut self.build_data, *x, *y);
                },
                MetaBuilder::AreaEndingPosition { x, y } => {
                    connectivity::area_ending_position(&mut self.build_data, *x, *y);
                },
                MetaBuilder::CullUnreachable => {
                    cull_stage(&mut self.build_data);
                },
                MetaBuilder::DistantExit => {
                    connectivity::distant_exit(&mut self.build_data);
                },
                MetaBuilder::VoronoiSpawning => {
                    voronoi_spawning::voronoi_spawning(&mut self.build_data, rng, &self.spawn_table);
                },
                MetaBuilder::DoorPlacement => {
                    let mut stage = door_placement::DoorPlacement::new();
                    stage.build(&mut self.build_data, rng);
                },
                MetaBuilder::PrefabSection { section } => {
                    prefab::apply_sectional(&mut self.build_data, *section);
                },
            }
            i = i + 1;
        }
        complete_chain(&mut self.build_data);
    }
}

/// Run the reachability culling over the context's map, from its starting
/// position if that is set and walkable.
fn cull_stage(data: &mut BuilderMap)
    requires
        old(data).wf(),
    ensures
        final(data).wf(),
        final(data).map.width == old(data).map.width,
        final(data).map.height == old(data).map.height,
        final(data).map.depth == old(data).map.depth,
{
    let pos = match data.starting_position {
        Option::Some(p) => p,
        Option::None => {
            return ;
        },
    };
    if !(0 <= pos.x && pos.x < data.map.width && 0 <= pos.y && pos.y < data.map.height) {
        return ;
    }
    let start = data.map.xy_idx(pos.x, pos.y);
    if tile_walkable(data.map.tiles[start]) {
        connectivity::cull_unreachable_tiles(&mut data.map, start);
    }
}

/// The mandatory completion stage: when no stage picked a usable
/// starting position, fall back to the walkable tile nearest the map's
/// centre; then cull from the start so the level is fully connected, and
/// drop any spawn entry that no longer names a walkable tile. A starting
/// position is absent afterwards only when the map holds no walkable
/// tile at all.
fn complete_chain(data: &mut BuilderMap)
    requires
        old(data).wf(),
    ensures
        final(data).wf(),
        final(data).spawns_valid(),
        final(data).map.width == old(data).map.width,
        final(data).map.height == old(data).map.height,
        final(data).map.depth == old(data).map.depth,
        final(data).starting_position matches Option::Some(pos) ==> {
            &&& 0 <= pos.x < final(data).map.width
            &&& 0 <= pos.y < final(data).map.height
            &&& spec_tile_walkable(
                final(data).map.tiles@[spec_xy_idx(
                    final(data).map.width as int,
                    pos.x as int,
                    pos.y as int,
                )],
            )
            &&& connectivity::spec_fully_connected(
                final(data).map.tiles@,
                final(data).map.width as int,
                spec_xy_idx(final(data).map.width as int, pos.x as int, pos.y as int),
            )
        },
        final(data).starting_position is None ==> forall|t: int|
            0 <= t < final(data).map.tiles@.len() ==> !spec_tile_walkable(
                #[trigger] final(data).map.tiles@[t],
            ),
{
    let mut valid_start = false;
    if let Option::Some(pos) = data.starting_position {
        if 0 <= pos.x && pos.x < data.map.width && 0 <= pos.y && pos.y < data.map.height {
            let start = data.map.xy_idx(pos.x, pos.y);
            if tile_walkable(data.map.tiles[start]) {
                connectivity::cull_unreachable_tiles(&mut data.map, start);
                valid_start = true;
            }
        }
    }
    if !valid_start {
        // No usable start was chosen: take the walkable tile nearest the
        // centre, so a finished chain always has its starting position
        // whenever the map can be stood on at all.
        match connectivity::nearest_walkable(&data.map, data.map.width / 2, data.map.height / 2) {
            Option::Some(idx) => {
                let w = data.map.width as usize;
                proof {
                    connectivity::lemma_idx_bounds(
                        idx as int,
                        data.map.width as int,
                        data.map.height as int,
                    );
                }
                let px = (idx % w) as i32;
                let py = (idx / w) as i32;
                data.starting_position = Option::Some(Position { x: px, y: py });
                let start = data.map.xy_idx(px, py);
                connectivity::cull_unreachable_tiles(&mut data.map, start);
            },
            Option::None => {
                data.starting_position = Option::None;
            },
        }
    }
    // Drop spawn entries that name walls or lie off the map.
    let mut kept: Vec<(usize, String)> = Vec::new();
    let n = data.spawn_list.len();
    let mut i: usize = 0;
    while i < n
        invariant
            data.wf(),
            n == data.spawn_list@.len(),
            i <= n,
            forall|j: int|
                0 <= j < kept@.len() ==> (#[trigger] kept@[j]).0 < data.map.tiles@.len()
                    && spec_tile_walkable(data.map.tiles@[kept@[j].0 as int]),
        decreases n - i,
    {
        let idx = data.spawn_list[i].0;
        if idx < data.map.tiles.len() {
            if tile_walkable(data.map.tiles[idx]) {
                let tag = data.spawn_list[i].1.clone();
                kept.push((idx, tag));
            }
        }
        i = i + 1;
    }
    data.spawn_list = kept;
}


/// A rolled corner or edge for a random start.
fn random_start_position(rng: &mut rltk::RandomNumberGenerator) -> (r: (XStart, YStart))
{
    let x = match rng.roll_dice(1, 3) {
        1 => XStart::Left,
        2 => XStart::Center,
        _ => XStart::Right,
    };
    let y = match rng.roll_dice(1, 3) {
        1 => YStart::Top,
        2 => YStart::Center,
        _ => YStart::Bottom,
    };
    (x, y)
}

/// Assemble a random room-based chain: rooms, drawing, a rolled corridor
/// algorithm, and rolled start, exit and spawn stages.
fn random_room_builder(rng: &mut rltk::RandomNumberGenerator, builder: &mut BuilderChain)
    requires
        old(builder).starter is None,
    ensures
        final(builder).starter is Some,
        final(builder).build_data == old(builder).build_data,
{
    let build_roll = rng.roll_dice(1, 2);
    match build_roll {
        1 => builder.start_with(InitialBuilder::SimpleMap),
        _ => builder.start_with(InitialBuilder::BspInterior),
    }
    builder.with(MetaBuilder::RoomDrawer);
    let corridor_roll = rng.roll_dice(1, 3);
    match corridor_roll {
        1 => builder.with(MetaBuilder::DoglegCorridors),
        2 => builder.with(MetaBuilder::NearestCorridors),
        _ => builder.with(MetaBuilder::StraightLineCorridors),
    }
    if rng.roll_dice(1, 2) == 1 {
        builder.with(MetaBuilder::CorridorSpawner);
    }
    let start_roll = rng.roll_dice(1, 2);
    match start_roll {
        1 => builder.with(MetaBuilder::RoomBasedStartingPosition),
        _ => {
            let (sx, sy) = random_start_position(rng);
            builder.with(MetaBuilder::AreaStartingPosition { x: sx, y: sy });
        },
    }
    builder.with(MetaBuilder::CullUnreachable);
    let exit_roll = rng.roll_dice(1, 2);
    match exit_roll {
        1 => builder.with(MetaBuilder::RoomBasedStairs),
        _ => builder.with(MetaBuilder::DistantExit),
    }
    let spawn_roll = rng.roll_dice(1, 2);
    match spawn_roll {
        1 => builder.with(MetaBuilder::RoomBasedSpawner),
        _ => builder.with(MetaBuilder::VoronoiSpawning),
    }
}

/// Assemble a random organically-shaped chain: a rolled carving algorithm,
/// centre start, culling, a rolled final start, then spawning and a
/// distant exit.
fn random_shape_builder(rng: &mut rltk::RandomNumberGenerator, builder: &mut BuilderChain)
    requires
        old(builder).starter is None,
    ensures
        final(builder).starter is Some,
        final(builder).build_data == old(builder).build_data,
{
    let builder_roll = rng.roll_dice(1, 7);
    match builder_roll {
        1 => builder.start_with(InitialBuilder::CellularAutomata),
        2 => builder.start_with(
            InitialBuilder::DrunkardsWalk { lifetime: 400, floor_percent: 50 },
        ),
        3 => builder.start_with(
            InitialBuilder::DrunkardsWalk { lifetime: 400, floor_percent: 45 },
        ),
        4 => builder.start_with(
            InitialBuilder::DrunkardsWalk { lifetime: 100, floor_percent: 40 },
        ),
        5 => builder.start_with(
            InitialBuilder::DrunkardsWalk { lifetime: 800, floor_percent: 45 },
        ),
        6 => builder.start_with(
            InitialBuilder::DrunkardsWalk { lifetime: 200, floor_percent: 35 },
        ),
        _ => builder.start_with(InitialBuilder::PrefabLevel { level: prefab::wfc_populated() }),
    }
    builder.with(MetaBuilder::AreaStartingPosition { x: XStart::Center, y: YStart::Center });
    builder.with(MetaBuilder::CullUnreachable);
    let (sx, sy) = random_start_position(rng);
    builder.with(MetaBuilder::AreaStartingPosition { x: sx, y: sy });
    builder.with(MetaBuilder::VoronoiSpawning);
    builder.with(MetaBuilder::DistantExit);
}

/// Assemble a fully random chain, with a small chance of a stamped
/// fortification, and doors at the end.
pub fn random_builder(
    new_depth: i32,
    width: i32,
    height: i32,
    rng: &mut rltk::RandomNumberGenerator,
    spawn_table: RandomTable,
) -> (r: BuilderChain)
    requires
        3 <= width <= MAX_MAP_SIDE,
        3 <= height <= MAX_MAP_SIDE,
    ensures
        r.build_data.wf(),
        r.starter is Some,
        r.build_data.map.depth == new_depth,
        r.build_data.map.width == width,
        r.build_data.map.height == height,
        r.builders@.len() >= 1,
        r.builders@.last() == MetaBuilder::DoorPlacement,
{
    let mut builder = BuilderChain::new(
        new_depth,
        width,
        height,
        String::from_str("Nowa Mapa"),
        spawn_table,
    );
    let type_roll = rng.roll_dice(1, 2);
    match type_roll {
        1 => random_room_builder(rng, &mut builder),
        _ => random_shape_builder(rng, &mut builder),
    }
    if rng.roll_dice(1, 20) == 1 {
        builder.with(MetaBuilder::PrefabSection { section: prefab::underground_fort() });
    }
    builder.with(MetaBuilder::DoorPlacement);
    builder
}

/// The mushroom grove's entrance level.
pub fn mushroom_entrance(
    new_depth: i32,
    width: i32,
    height: i32,
    spawn_table: RandomTable,
) -> (r: BuilderChain)
    requires
        3 <= width <= MAX_MAP_SIDE,
        3 <= height <= MAX_MAP_SIDE,
    ensures
        r.build_data.wf(),
        r.starter == Option::Some(InitialBuilder::CellularAutomata),
        r.build_data.map.depth == new_depth,
        r.build_data.map.width == width,
        r.build_data.map.height == height,
        r.builders@.len() == 6,
        r.builders@[0] == (MetaBuilder::AreaStartingPosition {
            x: XStart::Center,
            y: YStart::Center,
        }),
        r.builders@[1] == MetaBuilder::CullUnreachable,
        r.builders@[2] matches MetaBuilder::PrefabSection { section } && section.width == 15
            && section.height == 43,
        r.builders@[3] == (MetaBuilder::AreaStartingPosition {
            x: XStart::Right,
            y: YStart::Center,
        }),
        r.builders@[4] == (MetaBuilder::AreaEndingPosition { x: XEnd::Left, y: YEnd::Center }),
        r.builders@[5] == MetaBuilder::VoronoiSpawning,
{
    let mut chain = BuilderChain::new(
        new_depth,
        width,
        height,
        String::from_str("Do Smardzowego Gaju"),
        spawn_table,
    );
    chain.start_with(InitialBuilder::CellularAutomata);
    chain.with(MetaBuilder::AreaStartingPosition { x: XStart::Center, y: YStart::Center });
    chain.with(MetaBuilder::CullUnreachable);
    chain.with(MetaBuilder::PrefabSection { section: prefab::underground_fort() });
    chain.with(MetaBuilder::AreaStartingPosition { x: XStart::Right, y: YStart::Center });
    chain.with(MetaBuilder::AreaEndingPosition { x: XEnd::Left, y: YEnd::Center });
    chain.with(MetaBuilder::VoronoiSpawning);
    chain
}

/// The mushroom grove's middle level.
pub fn mushroom_builder(
    new_depth: i32,
    width: i32,
    height: i32,
    spawn_table: RandomTable,
) -> (r: BuilderChain)
    requires
        3 <= width <= MAX_MAP_SIDE,
        3 <= height <= MAX_MAP_SIDE,
    ensures
        r.build_data.wf(),
        r.starter == Option::Some(InitialBuilder::CellularAutomata),
        r.build_data.map.depth == new_depth,
        r.build_data.map.width == width,
        r.build_data.map.height == height,
        r.builders@.len() == 5,
        r.builders@[0] == (MetaBuilder::AreaStartingPosition {
            x: XStart::Center,
            y: YStart::Center,
        }),
        r.builders@[1] == MetaBuilder::CullUnreachable,
        r.builders@[2] == (MetaBuilder::AreaStartingPosition {
            x: XStart::Right,
            y: YStart::Center,
        }),
        r.builders@[3] == (MetaBuilder::AreaEndingPosition { x: XEnd::Left, y: YEnd::Center }),
        r.builders@[4] == MetaBuilder::VoronoiSpawning,
{
    let mut chain = BuilderChain::new(
        new_depth,
        width,
        height,
        String::from_str("Gaj Smardzowy"),
        spawn_table,
    );
    chain.start_with(InitialBuilder::CellularAutomata);
    chain.with(MetaBuilder::AreaStartingPosition { x: XStart::Center, y: YStart::Center });
    chain.with(MetaBuilder::CullUnreachable);
    chain.with(MetaBuilder::AreaStartingPosition { x: XStart::Right, y: YStart::Center });
    chain.with(MetaBuilder::AreaEndingPosition { x: XEnd::Left, y: YEnd::Center });
    chain.with(MetaBuilder::VoronoiSpawning);
    chain
}

/// The mushroom grove's exit level, with the walled entry yard stamped in.
pub fn mushroom_exit(
    new_depth: i32,
    width: i32,
    height: i32,
    spawn_table: RandomTable,
) -> (r: BuilderChain)
    requires
        3 <= width <= MAX_MAP_SIDE,
        3 <= height <= MAX_MAP_SIDE,
    ensures
        r.build_data.wf(),
        r.starter == Option::Some(InitialBuilder::CellularAutomata),
        r.build_data.map.depth == new_depth,
        r.build_data.map.width == width,
        r.build_data.map.height == height,
        r.builders@.len() == 6,
        r.builders@[5] matches MetaBuilder::PrefabSection { section } && section.width == 12
            && section.height == 10,
{
    let mut chain = BuilderChain::new(
        new_depth,
        width,
        height,
        String::from_str("Gaj Smardzowy"),
        spawn_table,
    );
    chain.start_with(InitialBuilder::CellularAutomata);
    chain.with(MetaBuilder::AreaStartingPosition { x: XStart::Center, y: YStart::Center });
    chain.with(MetaBuilder::CullUnreachable);
    chain.with(MetaBuilder::AreaStartingPosition { x: XStart::Right, y: YStart::Center });
    chain.with(MetaBuilder::AreaEndingPosition { x: XEnd::Left, y: YEnd::Center });
    chain.with(MetaBuilder::VoronoiSpawning);
    chain.with(MetaBuilder::PrefabSection { section: prefab::buhaj_entry() });
    chain
}

/// The walled-city biome.
pub fn buhaj_city(
    new_depth: i32,
    width: i32,
    height: i32,
    spawn_table: RandomTable,
) -> (r: BuilderChain)
    requires
        3 <= width <= MAX_MAP_SIDE,
        3 <= height <= MAX_MAP_SIDE,
    ensures
        r.build_data.wf(),
        r.starter == Option::Some(InitialBuilder::BspInterior),
        r.build_data.map.depth == new_depth,
        r.build_data.map.width == width,
        r.build_data.map.height == height,
        r.builders@.len() == 5,
        r.builders@[1] == MetaBuilder::CullUnreachable,
        r.builders@[4] == MetaBuilder::VoronoiSpawning,
{
    let mut chain = BuilderChain::new(
        new_depth,
        width,
        height,
        String::from_str("Buhajowka"),
        spawn_table,
    );
    chain.start_with(InitialBuilder::BspInterior);
    chain.with(MetaBuilder::AreaStartingPosition { x: XStart::Center, y: YStart::Center });
    chain.with(MetaBuilder::CullUnreachable);
    chain.with(MetaBuilder::AreaStartingPosition { x: XStart::Right, y: YStart::Center });
    chain.with(MetaBuilder::AreaEndingPosition { x: XEnd::Left, y: YEnd::Center });
    chain.with(MetaBuilder::VoronoiSpawning);
    chain
}

/// The walled-city plaza: the biome's room layout with a camp stamped in.
pub fn buhaj_plaza(
    new_depth: i32,
    width: i32,
    height: i32,
    spawn_table: RandomTable,
) -> (r: BuilderChain)
    requires
        3 <= width <= MAX_MAP_SIDE,
        3 <= height <= MAX_MAP_SIDE,
    ensures
        r.build_data.wf(),
        r.starter == Option::Some(InitialBuilder::BspInterior),
        r.build_data.map.depth == new_depth,
        r.build_data.map.width == width,
        r.build_data.map.height == height,
        r.builders@.len() == 6,
        r.builders@[2] matches MetaBuilder::PrefabSection { section } && section.width == 12
            && section.height == 12,
{
    let mut chain = BuilderChain::new(
        new_depth,
        width,
        height,
        String::from_str("Plac Buhajow"),
        spawn_table,
    );
    chain.start_with(InitialBuilder::BspInterior);
    chain.with(MetaBuilder::AreaStartingPosition { x: XStart::Center, y: YStart::Center });
    chain.with(MetaBuilder::CullUnreachable);
    chain.with(MetaBuilder::PrefabSection { section: prefab::gnom_camp() });
    chain.with(MetaBuilder::AreaStartingPosition { x: XStart::Right, y: YStart::Center });
    chain.with(MetaBuilder::AreaEndingPosition { x: XEnd::Left, y: YEnd::Center });
    chain.with(MetaBuilder::VoronoiSpawning);
    chain
}

/// The town: an interior room grid with doors.
pub fn town_builder(
    new_depth: i32,
    width: i32,
    height: i32,
    spawn_table: RandomTable,
) -> (r: BuilderChain)
    requires
        3 <= width <= MAX_MAP_SIDE,
        3 <= height <= MAX_MAP_SIDE,
    ensures
        r.build_data.wf(),
        r.starter == Option::Some(InitialBuilder::BspInterior),
        r.build_data.map.depth == new_depth,
        r.build_data.map.width == width,
        r.build_data.map.height == height,
        r.builders@.len() == 4,
        r.builders@[2] == MetaBuilder::DoorPlacement,
{
    let mut chain = BuilderChain::new(
        new_depth,
        width,
        height,
        String::from_str("Miasteczko"),
        spawn_table,
    );
    chain.start_with(InitialBuilder::BspInterior);
    chain.with(MetaBuilder::AreaStartingPosition { x: XStart::Center, y: YStart::Center });
    chain.with(MetaBuilder::CullUnreachable);
    chain.with(MetaBuilder::DoorPlacement);
    chain.with(MetaBuilder::AreaEndingPosition { x: XEnd::Right, y: YEnd::Center });
    chain
}

/// The forest: a winding drunken carve with a distant exit.
pub fn forest_builder(
    new_depth: i32,
    width: i32,
    height: i32,
    spawn_table: RandomTable,
) -> (r: BuilderChain)
    requires
        3 <= width <= MAX_MAP_SIDE,
        3 <= height <= MAX_MAP_SIDE,
    ensures
        r.build_data.wf(),
        r.starter == Option::Some(
            InitialBuilder::DrunkardsWalk { lifetime: 400, floor_percent: 55 },
        ),
        r.build_data.map.depth == new_depth,
        r.build_data.map.width == width,
        r.build_data.map.height == height,
        r.builders@.len() == 5,
        r.builders@[4] == MetaBuilder::DistantExit,
{
    let mut chain = BuilderChain::new(
        new_depth,
        width,
        height,
        String::from_str("Zagajnik"),
        spawn_table,
    );
    chain.start_with(InitialBuilder::DrunkardsWalk { lifetime: 400, floor_percent: 55 });
    chain.with(MetaBuilder::AreaStartingPosition { x: XStart::Center, y: YStart::Center });
    chain.with(MetaBuilder::CullUnreachable);
    chain.with(MetaBuilder::AreaStartingPosition { x: XStart::Left, y: YStart::Center });
    chain.with(MetaBuilder::VoronoiSpawning);
    chain.with(MetaBuilder::DistantExit);
    chain
}

/// The limestone cavern.
pub fn limestone_cavern_builder(
    new_depth: i32,
    width: i32,
    height: i32,
    spawn_table: RandomTable,
) -> (r: BuilderChain)
    requires
        3 <= width <= MAX_MAP_SIDE,
        3 <= height <= MAX_MAP_SIDE,
    ensures
        r.build_data.wf(),
        r.starter == Option::Some(InitialBuilder::CellularAutomata),
        r.build_data.map.depth == new_depth,
        r.build_data.map.width == width,
        r.build_data.map.height == height,
        r.builders@.len() == 5,
        r.builders@[4] == MetaBuilder::DistantExit,
{
    let mut chain = BuilderChain::new(
        new_depth,
        width,
        height,
        String::from_str("Wapienna Grota"),
        spawn_table,
    );
    chain.start_with(InitialBuilder::CellularAutomata);
    chain.with(MetaBuilder::AreaStartingPosition { x: XStart::Center, y: YStart::Center });
    chain.with(MetaBuilder::CullUnreachable);
    chain.with(MetaBuilder::AreaStartingPosition { x: XStart::Left, y: YStart::Top });
    chain.with(MetaBuilder::VoronoiSpawning);
    chain.with(MetaBuilder::DistantExit);
    chain
}

/// The deep limestone cavern.
pub fn limestone_deep_cavern_builder(
    new_depth: i32,
    width: i32,
    height: i32,
    spawn_table: RandomTable,
) -> (r: BuilderChain)
    requires
        3 <= width <= MAX_MAP_SIDE,
        3 <= height <= MAX_MAP_SIDE,
    ensures
        r.build_data.wf(),
        r.starter == Option::Some(
            InitialBuilder::DrunkardsWalk { lifetime: 200, floor_percent: 40 },
        ),
        r.build_data.map.depth == new_depth,
        r.build_data.map.width == width,
        r.build_data.map.height == height,
        r.builders@.len() == 5,
        r.builders@[4] == MetaBuilder::DistantExit,
{
    let mut chain = BuilderChain::new(
        new_depth,
        width,
        height,
        String::from_str("Gleboka Grota"),
        spawn_table,
    );
    chain.start_with(InitialBuilder::DrunkardsWalk { lifetime: 200, floor_percent: 40 });
    chain.with(MetaBuilder::AreaStartingPosition { x: XStart::Center, y: YStart::Center });
    chain.with(MetaBuilder::CullUnreachable);
    chain.with(MetaBuilder::AreaStartingPosition { x: XStart::Left, y: YStart::Center });
    chain.with(MetaBuilder::VoronoiSpawning);
    chain.with(MetaBuilder::DistantExit);
    chain
}

/// The cavern-to-fort transition level.
pub fn limestone_transition_builder(
    new_depth: i32,
    width: i32,
    height: i32,
    spawn_table: RandomTable,
) -> (r: BuilderChain)
    requires
        3 <= width <= MAX_MAP_SIDE,
        3 <= height <= MAX_MAP_SIDE,
    ensures
        r.build_data.wf(),
        r.starter == Option::Some(InitialBuilder::CellularAutomata),
        r.build_data.map.depth == new_depth,
        r.build_data.map.width == width,
        r.build_data.map.height == height,
        r.builders@.len() == 6,
        r.builders@[2] matches MetaBuilder::PrefabSection { section } && section.width == 15
            && section.height == 43,
{
    let mut chain = BuilderChain::new(
        new_depth,
        width,
        height,
        String::from_str("Grota Graniczna"),
        spawn_table,
    );
    chain.start_with(InitialBuilder::CellularAutomata);
    chain.with(MetaBuilder::AreaStartingPosition { x: XStart::Center, y: YStart::Center });
    chain.with(MetaBuilder::CullUnreachable);
    chain.with(MetaBuilder::PrefabSection { section: prefab::underground_fort() });
    chain.with(MetaBuilder::AreaStartingPosition { x: XStart::Left, y: YStart::Center });
    chain.with(MetaBuilder::VoronoiSpawning);
    chain.with(MetaBuilder::AreaEndingPosition { x: XEnd::Right, y: YEnd::Center });
    chain
}

/// The fortress.
pub fn fort_builder(
    new_depth: i32,
    width: i32,
    height: i32,
    spawn_table: RandomTable,
) -> (r: BuilderChain)
    requires
        3 <= width <= MAX_MAP_SIDE,
        3 <= height <= MAX_MAP_SIDE,
    ensures
        r.build_data.wf(),
        r.starter == Option::Some(InitialBuilder::SimpleMap),
        r.build_data.map.depth == new_depth,
        r.build_data.map.width == width,
        r.build_data.map.height == height,
        r.builders@.len() == 7,
        r.builders@[3] == MetaBuilder::CullUnreachable,
        r.builders@[5] == MetaBuilder::DoorPlacement,
{
    let mut chain = BuilderChain::new(
        new_depth,
        width,
        height,
        String::from_str("Warownia"),
        spawn_table,
    );
    chain.start_with(InitialBuilder::SimpleMap);
    chain.with(MetaBuilder::RoomDrawer);
    chain.with(MetaBuilder::DoglegCorridors);
    chain.with(MetaBuilder::RoomBasedStartingPosition);
    chain.with(MetaBuilder::CullUnreachable);
    chain.with(MetaBuilder::RoomBasedSpawner);
    chain.with(MetaBuilder::DoorPlacement);
    chain.with(MetaBuilder::RoomBasedStairs);
    chain
}

/// The named chain for a depth: fixed themed chains for the first
/// levels, a random assembly beyond them. The first depth gives the
/// town; then the forest, the three limestone caverns, the fortress, the
/// three mushroom grove stages, and the two walled-city levels.
pub fn level_builder(
    new_depth: i32,
    width: i32,
    height: i32,
    rng: &mut rltk::RandomNumberGenerator,
    spawn_table: RandomTable,
) -> (r: BuilderChain)
    requires
        3 <= width <= MAX_MAP_SIDE,
        3 <= height <= MAX_MAP_SIDE,
    ensures
        r.build_data.wf(),
        r.starter is Some,
        r.build_data.map.depth == new_depth,
        r.build_data.map.width == width,
        r.build_data.map.height == height,
        new_depth == 1 ==> r.starter == Option::Some(InitialBuilder::BspInterior)
            && r.builders@[2] == MetaBuilder::DoorPlacement,
        new_depth == 2 ==> r.starter == Option::Some(
            InitialBuilder::DrunkardsWalk { lifetime: 400, floor_percent: 55 },
        ),
        new_depth == 3 || new_depth == 5 ==> r.starter == Option::Some(
            InitialBuilder::CellularAutomata,
        ),
        new_depth == 4 ==> r.starter == Option::Some(
            InitialBuilder::DrunkardsWalk { lifetime: 200, floor_percent: 40 },
        ),
        new_depth == 6 ==> r.starter == Option::Some(InitialBuilder::SimpleMap),
        new_depth == 7 || new_depth == 8 || new_depth == 9 ==> r.starter == Option::Some(
            InitialBuilder::CellularAutomata,
        ),
        new_depth == 10 || new_depth == 11 ==> r.starter == Option::Some(
            InitialBuilder::BspInterior,
        ),
        !(1 <= new_depth <= 11) ==> r.builders@.len() >= 1 && r.builders@.last()
            == MetaBuilder::DoorPlacement,
{
    let r = match new_depth {
        1 => town_builder(new_depth, width, height, spawn_table),
        2 => forest_builder(new_depth, width, height, spawn_table),
        3 => limestone_cavern_builder(new_depth, width, height, spawn_table),
        4 => limestone_deep_cavern_builder(new_depth, width, height, spawn_table),
        5 => limestone_transition_builder(new_depth, width, height, spawn_table),
        6 => fort_builder(new_depth, width, height, spawn_table),
        7 => mushroom_entrance(new_depth, width, height, spawn_table),
        8 => mushroom_builder(new_depth, width, height, spawn_table),
        9 => mushroom_exit(new_depth, width, height, spawn_table),
        10 => buhaj_city(new_depth, width, height, spawn_table),
        11 => buhaj_plaza(new_depth, width, height, spawn_table),
        _ => random_builder(new_depth, width, height, rng, spawn_table),
    };
    r
}

} // verus!
