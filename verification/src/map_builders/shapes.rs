//! Organic first-pass carvers: cellular automata caves and the drunken
//! digger.

use vstd::prelude::*;
use crate::map::{LevelMap, TileType, tile_walkable};
use crate::map_builders::BuilderMap;

verus! {

/// Whether a tile index lies on the map's border ring.
pub open spec fn spec_on_border(map: LevelMap, t: int) -> bool {
    ||| t % (map.width as int) == 0
    ||| t % (map.width as int) == map.width - 1
    ||| t / (map.width as int) == 0
    ||| t / (map.width as int) == map.height - 1
}

/// A copy of a tile table.
fn copy_tiles(v: &Vec<TileType>) -> (r: Vec<TileType>)
    ensures
        r@ == v@,
{
    let mut r: Vec<TileType> = Vec::new();
    let mut i: usize = 0;
    while i < v.len()
        invariant
            i <= v@.len(),
            r@ == v@.take(i as int),
        decreases v@.len() - i,
    {
        r.push(v[i]);
        proof {
            assert(r@ =~= v@.take(i + 1));
        }
        i = i + 1;
    }
    proof {
        assert(v@.take(v@.len() as int) =~= v@);
    }
    r
}

/// Carve a cave with cellular automata: a random noise pass, then
/// smoothing generations where crowded or isolated cells become walls.
/// Only the tile grid changes; the border ring is untouched, and every
/// rewritten interior tile becomes wall or floor.
pub fn cellular_automata(data: &mut BuilderMap, rng: &mut rltk::RandomNumberGenerator)
    requires
        old(data).wf(),
    ensures
        final(data).wf(),
        *final(data) == (BuilderMap { map: final(data).map, ..*old(data) }),
        final(data).map == (LevelMap { tiles: final(data).map.tiles, ..old(data).map }),
        forall|t: int|
            0 <= t < final(data).map.tiles@.len() ==> #[trigger] final(data).map.tiles@[t]
                == old(data).map.tiles@[t] || final(data).map.tiles@[t] == TileType::Wall
                || final(data).map.tiles@[t] == TileType::Floor,
        forall|t: int|
            0 <= t < final(data).map.tiles@.len() && spec_on_border(old(data).map, t)
                ==> #[trigger] final(data).map.tiles@[t] == old(data).map.tiles@[t],
{
    // Noise pass over the interior.
    let mut y: i32 = 1;
    while y < data.map.height - 1
        invariant
            data.wf(),
            old(data).wf(),
            *data == (BuilderMap { map: data.map, ..*old(data) }),
            data.map == (LevelMap { tiles: data.map.tiles, ..old(data).map }),
            data.map.tiles@.len() == old(data).map.tiles@.len(),
            y >= 1,
            forall|t: int|
                0 <= t < data.map.tiles@.len() ==> #[trigger] data.map.tiles@[t] == old(
                    data,
                ).map.tiles@[t] || data.map.tiles@[t] == TileType::Wall || data.map.tiles@[t]
                    == TileType::Floor,
            forall|t: int|
                0 <= t < data.map.tiles@.len() && spec_on_border(old(data).map, t)
                    ==> #[trigger] data.map.tiles@[t] == old(data).map.tiles@[t],
        decreases data.map.height - 1 - y,
    {
        let mut x: i32 = 1;
        while x < data.map.width - 1
            invariant
                data.wf(),
                old(data).wf(),
                *data == (BuilderMap { map: data.map, ..*old(data) }),
                data.map == (LevelMap { tiles: data.map.tiles, ..old(data).map }),
                data.map.tiles@.len() == old(data).map.tiles@.len(),
                x >= 1,
                1 <= y < data.map.height - 1,
                forall|t: int|
                    0 <= t < data.map.tiles@.len() ==> #[trigger] data.map.tiles@[t] == old(
                        data,
                    ).map.tiles@[t] || data.map.tiles@[t] == TileType::Wall || data.map.tiles@[t]
                        == TileType::Floor,
                forall|t: int|
                    0 <= t < data.map.tiles@.len() && spec_on_border(old(data).map, t)
                        ==> #[trigger] data.map.tiles@[t] == old(data).map.tiles@[t],
            decreases data.map.width - 1 - x,
        {
            let roll = rng.roll_dice(1, 100);
            let idx = data.map.xy_idx(x, y);
            proof {
                crate::map_builders::connectivity::lemma_idx_decompose_pub(
                    data.map.width as int,
                    x as int,
                    y as int,
                );
            }
            if roll > 55 {
                data.map.tiles[idx] = TileType::Floor;
            } else {
                data.map.tiles[idx] = TileType::Wall;
            }
            x = x + 1;
        }
        y = y + 1;
    }
    // Smoothing generations.
    let mut generation: usize = 0;
    while generation < 15
        invariant
            data.wf(),
            old(data).wf(),
            *data == (BuilderMap { map: data.map, ..*old(data) }),
            data.map == (LevelMap { tiles: data.map.tiles, ..old(data).map }),
            data.map.tiles@.len() == old(data).map.tiles@.len(),
            forall|t: int|
                0 <= t < data.map.tiles@.len() ==> #[trigger] data.map.tiles@[t] == old(
                    data,
                ).map.tiles@[t] || data.map.tiles@[t] == TileType::Wall || data.map.tiles@[t]
                    == TileType::Floor,
            forall|t: int|
                0 <= t < data.map.tiles@.len() && spec_on_border(old(data).map, t)
                    ==> #[trigger] data.map.tiles@[t] == old(data).map.tiles@[t],
        decreases 15 - generation,
    {
        let snapshot = copy_tiles(&data.map.tiles);
        let mut y2: i32 = 1;
        while y2 < data.map.height - 1
            invariant
                data.wf(),
                old(data).wf(),
                *data == (BuilderMap { map: data.map, ..*old(data) }),
                data.map == (LevelMap { tiles: data.map.tiles, ..old(data).map }),
                data.map.tiles@.len() == old(data).map.tiles@.len(),
                snapshot@.len() == data.map.tiles@.len(),
                y2 >= 1,
                forall|t: int|
                    0 <= t < data.map.tiles@.len() ==> #[trigger] data.map.tiles@[t] == old(
                        data,
                    ).map.tiles@[t] || data.map.tiles@[t] == TileType::Wall || data.map.tiles@[t]
                        == TileType::Floor,
                forall|t: int|
                    0 <= t < data.map.tiles@.len() && spec_on_border(old(data).map, t)
                        ==> #[trigger] data.map.tiles@[t] == old(data).map.tiles@[t],
            decreases data.map.height - 1 - y2,
        {
            let mut x2: i32 = 1;
            while x2 < data.map.width - 1
                invariant
                    data.wf(),
                    old(data).wf(),
                    *data == (BuilderMap { map: data.map, ..*old(data) }),
                    data.map == (LevelMap { tiles: data.map.tiles, ..old(data).map }),
                    data.map.tiles@.len() == old(data).map.tiles@.len(),
                    snapshot@.len() == data.map.tiles@.len(),
                    x2 >= 1,
                    1 <= y2 < data.map.height - 1,
                    forall|t: int|
                        0 <= t < data.map.tiles@.len() ==> #[trigger] data.map.tiles@[t] == old(
                            data,
                        ).map.tiles@[t] || data.map.tiles@[t] == TileType::Wall
                            || data.map.tiles@[t] == TileType::Floor,
                    forall|t: int|
                        0 <= t < data.map.tiles@.len() && spec_on_border(old(data).map, t)
                            ==> #[trigger] data.map.tiles@[t] == old(data).map.tiles@[t],
                decreases data.map.width - 1 - x2,
            {
                let mut neighbors: i32 = 0;
                let mut d: usize = 0;
                while d < 8
                    invariant
                        data.wf(),
                        snapshot@.len() == data.map.tiles@.len(),
                        1 <= x2 < data.map.width,
                        1 <= y2 < data.map.height,
                        0 <= neighbors <= d,
                        d <= 8,
                    decreases 8 - d,
                {
                    let (dx, dy): (i32, i32) = if d == 0 {
                        (-1, 0)
                    } else if d == 1 {
                        (1, 0)
                    } else if d == 2 {
                        (0, -1)
                    } else if d == 3 {
                        (0, 1)
                    } else if d == 4 {
                        (-1, -1)
                    } else if d == 5 {
                        (1, -1)
                    } else if d == 6 {
                        (-1, 1)
                    } else {
                        (1, 1)
                    };
                    let nx = x2 + dx;
                    let ny = y2 + dy;
                    if 0 <= nx && nx < data.map.width && 0 <= ny && ny < data.map.height {
                        let nidx = data.map.xy_idx(nx, ny);
                        if snapshot[nidx] == TileType::Wall {
                            neighbors = neighbors + 1;
                        }
                    }
                    d = d + 1;
                }
                let idx = data.map.xy_idx(x2, y2);
                proof {
                    crate::map_builders::connectivity::lemma_idx_decompose_pub(
                        data.map.width as int,
                        x2 as int,
                        y2 as int,
                    );
                }
                if neighbors > 4 || neighbors == 0 {
                    data.map.tiles[idx] = TileType::Wall;
                } else {
                    data.map.tiles[idx] = TileType::Floor;
                }
                x2 = x2 + 1;
            }
            y2 = y2 + 1;
        }
        generation = generation + 1;
    }
}

/// Carve with drunken diggers: the map's centre tile is opened first,
/// then each digger walks randomly for its lifetime turning tiles to
/// floor, until enough of the map is open. Only the tile grid changes,
/// tiles change only to floor, and the centre tile ends open.
pub fn drunkards_walk(
    data: &mut BuilderMap,
    rng: &mut rltk::RandomNumberGenerator,
    lifetime: i32,
    floor_percent: i32,
)
    requires
        old(data).wf(),
        old(data).map.width >= 3,
        old(data).map.height >= 3,
    ensures
        final(data).wf(),
        *final(data) == (BuilderMap { map: final(data).map, ..*old(data) }),
        final(data).map == (LevelMap { tiles: final(data).map.tiles, ..old(data).map }),
        forall|t: int|
            0 <= t < final(data).map.tiles@.len() ==> #[trigger] final(data).map.tiles@[t]
                == old(data).map.tiles@[t] || final(data).map.tiles@[t] == TileType::Floor,
        final(data).map.tiles@[crate::map::spec_xy_idx(
            old(data).map.width as int,
            old(data).map.width as int / 2,
            old(data).map.height as int / 2,
        )] == TileType::Floor,
{
    let w = data.map.width;
    let h = data.map.height;
    let steps: i32 = if lifetime < 1 {
        1
    } else if lifetime > 1000 {
        1000
    } else {
        lifetime
    };
    let percent: i32 = if floor_percent < 1 {
        1
    } else if floor_percent > 100 {
        100
    } else {
        floor_percent
    };
    proof {
        assert(0 <= (w as int) * (h as int) <= 100_000_000) by (nonlinear_arith)
            requires
                1 <= w <= 10_000,
                1 <= h <= 10_000,
        ;
    }
    let total = (w as i64) * (h as i64);
    proof {
        assert(0 <= total * (percent as int) <= 10_000_000_000i64) by (nonlinear_arith)
            requires
                0 <= total <= 100_000_000,
                1 <= percent <= 100,
        ;
    }
    let target: i64 = total * (percent as i64) / 100;
    // The centre tile always opens, so a walkable start exists.
    let center_idx = data.map.xy_idx(w / 2, h / 2);
    data.map.tiles[center_idx] = TileType::Floor;
    proof {
        assert(data.map.tiles@ =~= old(data).map.tiles@.update(
            center_idx as int,
            TileType::Floor,
        ));
    }
    let mut floor_count: i64 = 1;
    let mut digger: usize = 0;
    while digger < 400
        invariant
            data.wf(),
            old(data).wf(),
            *data == (BuilderMap { map: data.map, ..*old(data) }),
            data.map == (LevelMap { tiles: data.map.tiles, ..old(data).map }),
            data.map.tiles@.len() == old(data).map.tiles@.len(),
            w == data.map.width,
            h == data.map.height,
            1 <= steps <= 1000,
            0 <= floor_count <= 0x10_0000_0000,
            center_idx < data.map.tiles@.len(),
            center_idx as int == crate::map::spec_xy_idx(
                old(data).map.width as int,
                old(data).map.width as int / 2,
                old(data).map.height as int / 2,
            ),
            data.map.tiles@[center_idx as int] == TileType::Floor,
            forall|t: int|
                0 <= t < data.map.tiles@.len() ==> #[trigger] data.map.tiles@[t] == old(
                    data,
                ).map.tiles@[t] || data.map.tiles@[t] == TileType::Floor,
        decreases 400 - digger,
    {
        if floor_count < target {
            let mut x = if digger == 0 {
                w / 2
            } else {
                rng.roll_dice(1, if w > 2 {
                    w - 2
                } else {
                    1
                })
            };
            let mut y = if digger == 0 {
                h / 2
            } else {
                rng.roll_dice(1, if h > 2 {
                    h - 2
                } else {
                    1
                })
            };
            let mut life: i32 = 0;
            while life < steps
                invariant
                    data.wf(),
                    old(data).wf(),
                    *data == (BuilderMap { map: data.map, ..*old(data) }),
                    data.map == (LevelMap { tiles: data.map.tiles, ..old(data).map }),
                    data.map.tiles@.len() == old(data).map.tiles@.len(),
                    w == data.map.width,
                    h == data.map.height,
                    1 <= steps <= 1000,
                    -2000 <= x <= 102_000,
                    -2000 <= y <= 102_000,
                    0 <= floor_count <= 0x10_0000_0000,
                    center_idx < data.map.tiles@.len(),
                    data.map.tiles@[center_idx as int] == TileType::Floor,
                    forall|t: int|
                        0 <= t < data.map.tiles@.len() ==> #[trigger] data.map.tiles@[t] == old(
                            data,
                        ).map.tiles@[t] || data.map.tiles@[t] == TileType::Floor,
                decreases steps - life,
            {
                if 0 < x && x < w - 1 && 0 < y && y < h - 1 {
                    let idx = data.map.xy_idx(x, y);
                    if !tile_walkable(data.map.tiles[idx]) && floor_count < 0x10_0000_0000 {
                        floor_count = floor_count + 1;
                    }
                    data.map.tiles[idx] = TileType::Floor;
                    proof {
                        assert(data.map.tiles@[center_idx as int] == TileType::Floor);
                    }
                }
                let stagger = rng.roll_dice(1, 4);
                if stagger == 1 && x > -1000 {
                    x = x - 1;
                } else if stagger == 2 && x < 101_000 {
                    x = x + 1;
                } else if stagger == 3 && y > -1000 {
                    y = y - 1;
                } else if y < 101_000 {
                    y = y + 1;
                }
                life = life + 1;
            }
        }
        digger = digger + 1;
    }
}

} // verus!
