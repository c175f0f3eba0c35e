//! Region-based spawning: the walkable tiles are split into cells around
//! randomly seeded points, and each cell gets its own spawn roll.

use vstd::prelude::*;
use crate::map::tile_walkable;
use crate::map_builders::BuilderMap;
use crate::spawner::{RandomTable, spawn_region};

verus! {

/// Split the walkable tiles into cells around rolled seed points and pick
/// spawns per cell.
pub fn voronoi_spawning(
    data: &mut BuilderMap,
    rng: &mut rltk::RandomNumberGenerator,
    table: &RandomTable,
)
    requires
        old(data).wf(),
    ensures
        final(data).wf(),
        final(data).map.width == old(data).map.width,
        final(data).map.height == old(data).map.height,
        final(data).map.depth == old(data).map.depth,
{
    // Roll the seed points.
    let mut seeds: Vec<(i32, i32)> = Vec::new();
    let mut s: usize = 0;
    while s < 32
        invariant
            data.wf(),
            forall|k: int|
                0 <= k < seeds@.len() ==> 0 <= (#[trigger] seeds@[k]).0 < data.map.width && 0
                    <= seeds@[k].1 < data.map.height,
        decreases 32 - s,
    {
        let sx = rng.roll_dice(1, data.map.width) - 1;
        let sy = rng.roll_dice(1, data.map.height) - 1;
        if 0 <= sx && sx < data.map.width && 0 <= sy && sy < data.map.height {
            seeds.push((sx, sy));
        }
        s = s + 1;
    }
    if seeds.len() == 0 {
        return ;
    }
    // Assign each walkable tile to its nearest seed's cell.
    let seed_count = seeds.len();
    let mut cells: Vec<Vec<usize>> = Vec::new();
    let mut c: usize = 0;
    while c < seed_count
        invariant
            cells@.len() == c,
            c <= seed_count,
            forall|k: int| 0 <= k < c ==> (#[trigger] cells@[k])@.len() == 0,
        decreases seed_count - c,
    {
        cells.push(Vec::new());
        c = c + 1;
    }
    let count = data.map.tiles.len();
    let w = data.map.width as usize;
    let mut t: usize = 0;
    while t < count
        invariant
            data.wf(),
            count == data.map.tiles@.len(),
            w == data.map.width,
            cells@.len() == seed_count,
            seed_count == seeds@.len(),
            seed_count >= 1,
            forall|k: int|
                0 <= k < seeds@.len() ==> 0 <= (#[trigger] seeds@[k]).0 < data.map.width && 0
                    <= seeds@[k].1 < data.map.height,
            forall|k: int|
                0 <= k < cells@.len() ==> forall|j: int|
                    0 <= j < (#[trigger] cells@[k])@.len() ==> (#[trigger] cells@[k]@[j])
                        < data.map.tiles@.len() && crate::map::spec_tile_walkable(
                        data.map.tiles@[cells@[k]@[j] as int],
                    ),
        decreases count - t,
    {
        if tile_walkable(data.map.tiles[t]) {
            proof {
                crate::map_builders::connectivity::lemma_idx_bounds(
                    t as int,
                    data.map.width as int,
                    data.map.height as int,
                );
            }
            let x = (t % w) as i64;
            let y = (t / w) as i64;
            let mut best: usize = 0;
            let mut best_dist: i64 = i64::MAX;
            let mut k: usize = 0;
            while k < seed_count
                invariant
                    seed_count == seeds@.len(),
                    best < seed_count,
                    k <= seed_count,
                    0 <= x <= 10_000,
                    0 <= y <= 10_000,
                    forall|m: int|
                        0 <= m < seeds@.len() ==> 0 <= (#[trigger] seeds@[m]).0 <= 10_000 && 0
                            <= seeds@[m].1 <= 10_000,
                decreases seed_count - k,
            {
                let dx = (seeds[k].0 as i64) - x;
                let dy = (seeds[k].1 as i64) - y;
                proof {
                    assert(0 <= dx * dx <= 0x1000000i64 * 0x1000000 && 0 <= dy * dy
                        <= 0x1000000i64 * 0x1000000) by (nonlinear_arith)
                        requires
                            -0x1000000 <= dx <= 0x1000000,
                            -0x1000000 <= dy <= 0x1000000,
                    ;
                }
                let dist = dx * dx + dy * dy;
                if dist < best_dist {
                    best = k;
                    best_dist = dist;
                }
                k = k + 1;
            }
            let mut cell = copy_indices(&cells[best]);
            cell.push(t);
            cells[best] = cell;
        }
        t = t + 1;
    }
    // Spawn per cell.
    let depth = data.map.depth;
    let mut c2: usize = 0;
    while c2 < seed_count
        invariant
            data.wf(),
            data.map.width == old(data).map.width,
            data.map.height == old(data).map.height,
            data.map.depth == old(data).map.depth,
            cells@.len() == seed_count,
            forall|k: int|
                0 <= k < cells@.len() ==> forall|j: int|
                    0 <= j < (#[trigger] cells@[k])@.len() ==> (#[trigger] cells@[k]@[j])
                        < data.map.tiles@.len() && crate::map::spec_tile_walkable(
                        data.map.tiles@[cells@[k]@[j] as int],
                    ),
        decreases seed_count - c2,
    {
        if cells[c2].len() > 0 {
            spawn_region(&data.map, rng, &cells[c2], depth, &mut data.spawn_list, table);
        }
        c2 = c2 + 1;
    }
}

/// A copy of an index list.
fn copy_indices(v: &Vec<usize>) -> (r: Vec<usize>)
    ensures
        r@ == v@,
{
    let mut r: Vec<usize> = Vec::new();
    let mut i: usize = 0;
    while i < v.len()
        invariant
            i <= v@.len(),
            r@ == v@.take(i as int),
        decreases v@.len() - i,
    {
        r.push(v[i]);
        proof {
            assert(r@ =~= v@.take(i + 1));
        }
        i = i + 1;
    }
    proof {
        assert(v@.take(v@.len() as int) =~= v@);
    }
    r
}

} // verus!
