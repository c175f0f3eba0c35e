//! The tile grid of one dungeon level.

use vstd::prelude::*;

verus! {

/// Kind of one map tile.
#[derive(Clone, Copy, Debug, PartialEq, Eq, Structural)]
pub enum TileType {
    Wall,
    Floor,
    DownStairs,
    UpStairs,
    Road,
    Grass,
    ShallowWater,
    DeepWater,
    WoodFloor,
    Bridge,
    Gravel,
    Stalactite,
    Stalagmite,
}

/// Whether a creature can stand on a tile of this kind.
pub open spec fn spec_tile_walkable(tt: TileType) -> bool {
    match tt {
        TileType::Wall => false,
        TileType::DeepWater => false,
        TileType::Stalactite => false,
        TileType::Stalagmite => false,
        _ => true,
    }
}

/// Whether a creature can stand on a tile of this kind.
pub fn tile_walkable(tt: TileType) -> (r: bool)
    ensures
        r == spec_tile_walkable(tt),
{
    match tt {
        TileType::Wall => false,
        TileType::DeepWater => false,
        TileType::Stalactite => false,
        TileType::Stalagmite => false,
        _ => true,
    }
}

/// Whether a tile of this kind blocks sight.
pub open spec fn spec_tile_opaque(tt: TileType) -> bool {
    match tt {
        TileType::Wall => true,
        TileType::Stalactite => true,
        TileType::Stalagmite => true,
        _ => false,
    }
}

/// Whether a tile of this kind blocks sight.
pub fn tile_opaque(tt: TileType) -> (r: bool)
    ensures
        r == spec_tile_opaque(tt),
{
    match tt {
        TileType::Wall => true,
        TileType::Stalactite => true,
        TileType::Stalagmite => true,
        _ => false,
    }
}

/// Movement cost of a tile kind, in tenths of the base step cost.
pub open spec fn spec_tile_cost(tt: TileType) -> int {
    match tt {
        TileType::Road => 8,
        TileType::Grass => 11,
        TileType::ShallowWater => 12,
        _ => 10,
    }
}

/// Movement cost of a tile kind, in tenths of the base step cost.
pub fn tile_cost(tt: TileType) -> (r: u32)
    ensures
        r == spec_tile_cost(tt),
{
    match tt {
        TileType::Road => 8,
        TileType::Grass => 11,
        TileType::ShallowWater => 12,
        _ => 10,
    }
}

/// Largest accepted map side, so that every tile index fits comfortably
/// in the machine integer types.
pub const MAX_MAP_SIDE: i32 = 10_000;

/// Index of the tile at `(x, y)` in a row-major grid of width `w`.
pub open spec fn spec_xy_idx(w: int, x: int, y: int) -> int {
    y * w + x
}

/// A row-major index stays inside the grid.
pub proof fn lemma_grid_index(w: int, h: int, x: int, y: int)
    requires
        0 <= x < w,
        0 <= y < h,
    ensures
        0 <= spec_xy_idx(w, x, y) < w * h,
{
    assert(0 <= y * w + x < w * h) by (nonlinear_arith)
        requires
            0 <= x < w,
            0 <= y < h,
    ;
}

/// The tile grid of one level together with the per-tile annotations the
/// interface collaborators read.
#[derive(Clone, Debug)]
pub struct LevelMap {
    pub tiles: Vec<TileType>,
    pub width: i32,
    pub height: i32,
    pub revealed_tiles: Vec<bool>,
    pub visible_tiles: Vec<bool>,
    pub depth: i32,
    pub bloodstains: Vec<bool>,
    pub view_blocked: Vec<bool>,
    pub name: String,
    pub outdoors: bool,
}

impl LevelMap {
    /// Shape of a well-formed map: positive bounded sides and parallel
    /// per-tile tables of the right length.
    pub open spec fn wf(self) -> bool {
        &&& 1 <= self.width <= MAX_MAP_SIDE
        &&& 1 <= self.height <= MAX_MAP_SIDE
        &&& self.tiles@.len() == self.width * self.height
        &&& self.revealed_tiles@.len() == self.tiles@.len()
        &&& self.visible_tiles@.len() == self.tiles@.len()
        &&& self.bloodstains@.len() == self.tiles@.len()
        &&& self.view_blocked@.len() == self.tiles@.len()
    }

    /// The number of tiles of the map.
    pub open spec fn spec_tile_count(self) -> int {
        self.width * self.height
    }

    /// A solid-wall map of the given size, unrevealed and unstained.
    pub fn new(new_depth: i32, width: i32, height: i32, name: String) -> (r: LevelMap)
        requires
            1 <= width <= MAX_MAP_SIDE,
            1 <= height <= MAX_MAP_SIDE,
        ensures
            r.wf(),
            r.width == width,
            r.height == height,
            r.depth == new_depth,
            r.name == name,
            r.outdoors,
            forall|i: int| 0 <= i < r.tiles@.len() ==> r.tiles@[i] == TileType::Wall,
            forall|i: int| 0 <= i < r.tiles@.len() ==> !r.revealed_tiles@[i],
            forall|i: int| 0 <= i < r.tiles@.len() ==> !r.visible_tiles@[i],
            forall|i: int| 0 <= i < r.tiles@.len() ==> !r.bloodstains@[i],
            forall|i: int| 0 <= i < r.tiles@.len() ==> !r.view_blocked@[i],
    {
        proof {
            lemma_grid_index(width as int, height as int, 0, 0);
        }
        assert(width * height <= MAX_MAP_SIDE * MAX_MAP_SIDE) by (nonlinear_arith)
            requires
                1 <= width <= MAX_MAP_SIDE,
                1 <= height <= MAX_MAP_SIDE,
        ;
        let count: usize = (width as usize) * (height as usize);
        let mut tiles: Vec<TileType> = Vec::new();
        let mut revealed: Vec<bool> = Vec::new();
        let mut visible: Vec<bool> = Vec::new();
        let mut blood: Vec<bool> = Vec::new();
        let mut blocked_view: Vec<bool> = Vec::new();
        let mut i: usize = 0;
        while i < count
            invariant
                i <= count,
                tiles@.len() == i,
                revealed@.len() == i,
                visible@.len() == i,
                blood@.len() == i,
                blocked_view@.len() == i,
                forall|j: int| 0 <= j < i ==> tiles@[j] == TileType::Wall,
                forall|j: int| 0 <= j < i ==> !revealed@[j],
                forall|j: int| 0 <= j < i ==> !visible@[j],
                forall|j: int| 0 <= j < i ==> !blood@[j],
                forall|j: int| 0 <= j < i ==> !blocked_view@[j],
            decreases count - i,
        {
            tiles.push(TileType::Wall);
            revealed.push(false);
            visible.push(false);
            blood.push(false);
            blocked_view.push(false);
            i = i + 1;
        }
        LevelMap {
            tiles,
            width,
            height,
            revealed_tiles: revealed,
            visible_tiles: visible,
            depth: new_depth,
            bloodstains: blood,
            view_blocked: blocked_view,
            name,
            outdoors: true,
        }
    }

    /// Row-major index of the tile at `(x, y)`.
    pub fn xy_idx(&self, x: i32, y: i32) -> (r: usize)
        requires
            self.wf(),
            0 <= x < self.width,
            0 <= y < self.height,
        ensures
            r == spec_xy_idx(self.width as int, x as int, y as int),
            r < self.tiles@.len(),
    {
        proof {
            lemma_grid_index(self.width as int, self.height as int, x as int, y as int);
        }
        assert((y as int) * (self.width as int) + (x as int) < 100_000_000) by (nonlinear_arith)
            requires
                0 <= x < self.width <= MAX_MAP_SIDE,
                0 <= y < self.height <= MAX_MAP_SIDE,
        ;
        (y as usize) * (self.width as usize) + (x as usize)
    }

    /// The map's width and height.
    pub fn dimensions(&self) -> (r: (i32, i32))
        ensures
            r.0 == self.width,
            r.1 == self.height,
    {
        (self.width, self.height)
    }

    /// Whether the tile at `idx` blocks sight, out-of-range indices
    /// counting as blocking.
    pub fn is_opaque(&self, idx: usize) -> (r: bool)
        requires
            self.wf(),
        ensures
            r == if idx < self.tiles@.len() {
                spec_tile_opaque(self.tiles@[idx as int]) || self.view_blocked@[idx as int]
            } else {
                true
            },
    {
        if idx < self.tiles.len() {
            tile_opaque(self.tiles[idx]) || self.view_blocked[idx]
        } else {
            true
        }
    }

    /// Record a bloodstain on a tile for the rendering collaborator.
    pub fn add_bloodstain(&mut self, idx: usize)
        requires
            old(self).wf(),
            idx < old(self).tiles@.len(),
        ensures
            final(self).wf(),
            *final(self) == (LevelMap { bloodstains: final(self).bloodstains, ..*old(self) }),
            final(self).bloodstains@ == old(self).bloodstains@.update(idx as int, true),
    {
        self.bloodstains.set(idx, true);
    }
}


/// Field-wise equality of two maps, by view: same grid, annotations,
/// size, depth, name and light setting.
pub open spec fn spec_maps_alike(a: LevelMap, b: LevelMap) -> bool {
    &&& a.tiles@ == b.tiles@
    &&& a.width == b.width
    &&& a.height == b.height
    &&& a.revealed_tiles@ == b.revealed_tiles@
    &&& a.visible_tiles@ == b.visible_tiles@
    &&& a.depth == b.depth
    &&& a.bloodstains@ == b.bloodstains@
    &&& a.view_blocked@ == b.view_blocked@
    &&& a.name@ == b.name@
    &&& a.outdoors == b.outdoors
}

/// A copy of a tile table.
fn duplicate_tiles(v: &Vec<TileType>) -> (r: Vec<TileType>)
    ensures
        r@ == v@,
{
    let mut r: Vec<TileType> = Vec::new();
    let mut i: usize = 0;
    while i < v.len()
        invariant
            i <= v@.len(),
            r@ == v@.take(i as int),
        decreases v@.len() - i,
    {
        r.push(v[i]);
        proof {
            assert(r@ =~= v@.take(i + 1));
        }
        i = i + 1;
    }
    proof {
        assert(v@.take(v@.len() as int) =~= v@);
    }
    r
}

/// A copy of a flag table.
fn duplicate_flags(v: &Vec<bool>) -> (r: Vec<bool>)
    ensures
        r@ == v@,
{
    let mut r: Vec<bool> = Vec::new();
    let mut i: usize = 0;
    while i < v.len()
        invariant
            i <= v@.len(),
            r@ == v@.take(i as int),
        decreases v@.len() - i,
    {
        r.push(v[i]);
        proof {
            assert(r@ =~= v@.take(i + 1));
        }
        i = i + 1;
    }
    proof {
        assert(v@.take(v@.len() as int) =~= v@);
    }
    r
}

impl LevelMap {
    /// An exact copy of the map, field by field.
    pub fn duplicate(&self) -> (r: LevelMap)
        ensures
            spec_maps_alike(r, *self),
            r.wf() == self.wf(),
    {
        LevelMap {
            tiles: duplicate_tiles(&self.tiles),
            width: self.width,
            height: self.height,
            revealed_tiles: duplicate_flags(&self.revealed_tiles),
            visible_tiles: duplicate_flags(&self.visible_tiles),
            depth: self.depth,
            bloodstains: duplicate_flags(&self.bloodstains),
            view_blocked: duplicate_flags(&self.view_blocked),
            name: self.name.clone(),
            outdoors: self.outdoors,
        }
    }
}

} // verus!
