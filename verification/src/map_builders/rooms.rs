//! Room-based building: room placement, drawing, corridor routing and the
//! room-centred start, stairs and spawn stages.

use vstd::prelude::*;
use crate::components::Position;
use crate::geometry::Rect;
use crate::map::{LevelMap, TileType, tile_walkable};
use crate::map_builders::BuilderMap;
use crate::spawner::{RandomTable, spawn_region, spawn_room};

verus! {

/// Carve one tile to floor if it lies on the map; report its index.
fn carve(map: &mut LevelMap, x: i32, y: i32) -> (r: Option<usize>)
    requires
        old(map).wf(),
    ensures
        final(map).wf(),
        final(map).width == old(map).width,
        final(map).height == old(map).height,
        final(map).depth == old(map).depth,
        final(map).tiles@.len() == old(map).tiles@.len(),
        *final(map) == (LevelMap { tiles: final(map).tiles, ..*old(map) }),
        r is Some <==> (0 <= x < old(map).width && 0 <= y < old(map).height),
        r matches Option::Some(idx) ==> idx < old(map).tiles@.len() && idx
            == crate::map::spec_xy_idx(old(map).width as int, x as int, y as int)
            && final(map).tiles@ == old(map).tiles@.update(idx as int, TileType::Floor),
        r is None ==> final(map).tiles@ == old(map).tiles@,
        forall|t: int|
            0 <= t < final(map).tiles@.len() ==> #[trigger] final(map).tiles@[t]
                == old(map).tiles@[t] || final(map).tiles@[t] == TileType::Floor,
{
    if 0 <= x && x < map.width && 0 <= y && y < map.height {
        let idx = map.xy_idx(x, y);
        map.tiles[idx] = TileType::Floor;
        proof {
            assert(map.tiles@ =~= old(map).tiles@.update(idx as int, TileType::Floor));
        }
        Option::Some(idx)
    } else {
        Option::None
    }
}

/// Place up to thirty non-overlapping rooms; nothing is carved yet.
pub fn simple_map_rooms(data: &mut BuilderMap, rng: &mut rltk::RandomNumberGenerator)
    requires
        old(data).wf(),
    ensures
        final(data).wf(),
        final(data).map.width == old(data).map.width,
        final(data).map.height == old(data).map.height,
        final(data).map.depth == old(data).map.depth,
        final(data).rooms is Some,
{
    let mut rooms: Vec<Rect> = Vec::new();
    let mut tries: usize = 0;
    while tries < 30
        invariant
            data.wf(),
            *data == *old(data),
        decreases 30 - tries,
    {
        let rw = 3 + rng.roll_dice(1, 10);
        let rh = 3 + rng.roll_dice(1, 8);
        if data.map.width > rw + 3 && data.map.height > rh + 3 {
            let x = rng.roll_dice(1, data.map.width - rw - 2);
            let y = rng.roll_dice(1, data.map.height - rh - 2);
            if -100_000 <= x && x <= 100_000 && -100_000 <= y && y <= 100_000 && rw <= 100_000
                && rh <= 100_000 && rw >= 0 && rh >= 0 {
                let candidate = Rect::with_size(x, y, rw, rh);
                let mut overlaps = false;
                let mut k: usize = 0;
                while k < rooms.len()
                    invariant
                        k <= rooms@.len(),
                    decreases rooms@.len() - k,
                {
                    if candidate.intersect(&rooms[k]) {
                        overlaps = true;
                    }
                    k = k + 1;
                }
                if !overlaps {
                    rooms.push(candidate);
                }
            }
        }
        tries = tries + 1;
    }
    data.rooms = Option::Some(rooms);
}

/// Recursively split the map into fully-filled rooms, interior style.
pub fn bsp_interior(data: &mut BuilderMap, rng: &mut rltk::RandomNumberGenerator)
    requires
        old(data).wf(),
    ensures
        final(data).wf(),
        final(data).map.width == old(data).map.width,
        final(data).map.height == old(data).map.height,
        final(data).map.depth == old(data).map.depth,
        final(data).rooms is Some,
{
    let mut pending: Vec<Rect> = Vec::new();
    let mut rooms: Vec<Rect> = Vec::new();
    if data.map.width >= 4 && data.map.height >= 4 {
        pending.push(
            Rect { x1: 1, y1: 1, x2: data.map.width - 2, y2: data.map.height - 2 },
        );
    }
    let mut rounds: usize = 0;
    while rounds < 240
        invariant
            data.wf(),
            *data == *old(data),
            forall|k: int|
                0 <= k < pending@.len() ==> rect_sane(#[trigger] pending@[k], data.map),
            forall|k: int|
                0 <= k < rooms@.len() ==> rect_sane(#[trigger] rooms@[k], data.map),
        decreases 240 - rounds,
    {
        if pending.len() == 0 {
            rounds = rounds + 1;
        } else {
            let rect = pending[pending.len() - 1];
            pending.pop();
            let rwidth = rect.x2 - rect.x1;
            let rheight = rect.y2 - rect.y1;
            if rwidth > 8 && rheight > 8 {
                let split = rng.roll_dice(1, 4);
                if split <= 2 {
                    let half = rect.x1 + rwidth / 2;
                    pending.push(Rect { x1: rect.x1, y1: rect.y1, x2: half, y2: rect.y2 });
                    pending.push(Rect { x1: half, y1: rect.y1, x2: rect.x2, y2: rect.y2 });
                } else {
                    let half = rect.y1 + rheight / 2;
                    pending.push(Rect { x1: rect.x1, y1: rect.y1, x2: rect.x2, y2: half });
                    pending.push(Rect { x1: rect.x1, y1: half, x2: rect.x2, y2: rect.y2 });
                }
            } else {
                rooms.push(rect);
            }
            rounds = rounds + 1;
        }
    }
    let mut r: usize = 0;
    while r < rooms.len()
        invariant
            data.wf(),
            data.map.width == old(data).map.width,
            data.map.height == old(data).map.height,
            data.map.depth == old(data).map.depth,
            forall|k: int|
                0 <= k < rooms@.len() ==> rect_sane(#[trigger] rooms@[k], data.map),
        decreases rooms@.len() - r,
    {
        let room = rooms[r];
        proof {
            assert(rect_sane(rooms@[r as int], data.map));
        }
        let mut y = room.y1;
        while y < room.y2
            invariant
                data.wf(),
                data.map.width == old(data).map.width,
                data.map.height == old(data).map.height,
            data.map.depth == old(data).map.depth,
                room.y2 < data.map.height,
                room.x2 < data.map.width,
            decreases room.y2 + 1 - y,
        {
            let mut x = room.x1;
            while x < room.x2
                invariant
                    data.wf(),
                    data.map.width == old(data).map.width,
                    data.map.height == old(data).map.height,
            data.map.depth == old(data).map.depth,
                    room.x2 < data.map.width,
                decreases room.x2 + 1 - x,
            {
                carve(&mut data.map, x, y);
                x = x + 1;
            }
            y = y + 1;
        }
        r = r + 1;
    }
    data.rooms = Option::Some(rooms);
}

/// A copy of a room list.
fn copy_rects(v: &Vec<Rect>) -> (r: Vec<Rect>)
    ensures
        r@ == v@,
{
    let mut r: Vec<Rect> = Vec::new();
    let mut i: usize = 0;
    while i < v.len()
        invariant
            i <= v@.len(),
            r@ == v@.take(i as int),
        decreases v@.len() - i,
    {
        r.push(v[i]);
        proof {
            assert(r@ =~= v@.take(i + 1));
        }
        i = i + 1;
    }
    proof {
        assert(v@.take(v@.len() as int) =~= v@);
    }
    r
}

/// A rectangle that stays strictly inside the map.
pub open spec fn rect_sane(r: Rect, map: LevelMap) -> bool {
    &&& 0 <= r.x1 <= r.x2 < map.width
    &&& 0 <= r.y1 <= r.y2 < map.height
}

/// Carve every placed room's interior to floor: tiles change only to
/// floor, and each sanely-bounded room provably opens at least its first
/// interior cell.
pub fn room_drawer(data: &mut BuilderMap)
    requires
        old(data).wf(),
    ensures
        final(data).wf(),
        *final(data) == (BuilderMap { map: final(data).map, ..*old(data) }),
        final(data).map == (LevelMap { tiles: final(data).map.tiles, ..old(data).map }),
        forall|t: int|
            0 <= t < final(data).map.tiles@.len() ==> #[trigger] final(data).map.tiles@[t]
                == old(data).map.tiles@[t] || final(data).map.tiles@[t] == TileType::Floor,
        old(data).rooms is Some ==> forall|k: int|
            0 <= k < old(data).rooms->Some_0@.len() && spec_room_carvable(
                #[trigger] old(data).rooms->Some_0@[k],
                old(data).map,
            ) ==> final(data).map.tiles@[crate::map::spec_xy_idx(
                old(data).map.width as int,
                old(data).rooms->Some_0@[k].x1 + 1,
                old(data).rooms->Some_0@[k].y1 + 1,
            )] == TileType::Floor,
{
    let rooms = match &data.rooms {
        Option::Some(r) => copy_rects(r),
        Option::None => {
            return ;
        },
    };
    let mut r: usize = 0;
    while r < rooms.len()
        invariant
            data.wf(),
            old(data).wf(),
            *data == (BuilderMap { map: data.map, ..*old(data) }),
            data.map == (LevelMap { tiles: data.map.tiles, ..old(data).map }),
            data.map.tiles@.len() == old(data).map.tiles@.len(),
            rooms@ == old(data).rooms->Some_0@,
            r <= rooms@.len(),
            forall|t: int|
                0 <= t < data.map.tiles@.len() ==> #[trigger] data.map.tiles@[t] == old(
                    data,
                ).map.tiles@[t] || data.map.tiles@[t] == TileType::Floor,
            forall|k: int|
                0 <= k < r && spec_room_carvable(#[trigger] rooms@[k], old(data).map)
                    ==> data.map.tiles@[crate::map::spec_xy_idx(
                    old(data).map.width as int,
                    rooms@[k].x1 + 1,
                    rooms@[k].y1 + 1,
                )] == TileType::Floor,
        decreases rooms@.len() - r,
    {
        let room = rooms[r];
        if -100_000 <= room.x1 && room.x1 < room.x2 && room.x2 <= 100_000 && -100_000 <= room.y1
            && room.y1 < room.y2 && room.y2 <= 100_000 && room.x1 + 1 < data.map.width && room.y1
            + 1 < data.map.height && room.x1 + 1 >= 0 && room.y1 + 1 >= 0 {
            let ghost first_idx = crate::map::spec_xy_idx(
                old(data).map.width as int,
                room.x1 + 1,
                room.y1 + 1,
            );
            let mut y = room.y1 + 1;
            while y <= room.y2
                invariant
                    data.wf(),
                    old(data).wf(),
                    *data == (BuilderMap { map: data.map, ..*old(data) }),
                    data.map == (LevelMap { tiles: data.map.tiles, ..old(data).map }),
                    data.map.tiles@.len() == old(data).map.tiles@.len(),
                    rooms@ == old(data).rooms->Some_0@,
                    r < rooms@.len(),
                    rooms@[r as int] == room,
                    y > room.y1,
                    -100_000 <= room.x1,
                    room.x2 <= 100_000,
                    -100_000 <= room.y1,
                    room.y2 <= 100_000,
                    room.x1 < room.x2,
                    room.x1 + 1 < data.map.width,
                    room.y1 + 1 < data.map.height,
                    room.x1 + 1 >= 0,
                    room.y1 + 1 >= 0,
                    first_idx == crate::map::spec_xy_idx(
                        old(data).map.width as int,
                        room.x1 + 1,
                        room.y1 + 1,
                    ),
                    forall|t: int|
                        0 <= t < data.map.tiles@.len() ==> #[trigger] data.map.tiles@[t] == old(
                            data,
                        ).map.tiles@[t] || data.map.tiles@[t] == TileType::Floor,
                    forall|k: int|
                        0 <= k < r && spec_room_carvable(#[trigger] rooms@[k], old(data).map)
                            ==> data.map.tiles@[crate::map::spec_xy_idx(
                            old(data).map.width as int,
                            rooms@[k].x1 + 1,
                            rooms@[k].y1 + 1,
                        )] == TileType::Floor,
                    y > room.y1 + 1 ==> 0 <= first_idx < data.map.tiles@.len()
                        && data.map.tiles@[first_idx] == TileType::Floor,
                decreases room.y2 + 1 - y,
            {
                let mut x = room.x1 + 1;
                while x <= room.x2
                    invariant
                        data.wf(),
                        old(data).wf(),
                        *data == (BuilderMap { map: data.map, ..*old(data) }),
                        data.map == (LevelMap { tiles: data.map.tiles, ..old(data).map }),
                        data.map.tiles@.len() == old(data).map.tiles@.len(),
                        rooms@ == old(data).rooms->Some_0@,
                        r < rooms@.len(),
                        rooms@[r as int] == room,
                        x > room.x1,
                        -100_000 <= room.x1,
                        room.x2 <= 100_000,
                        y > room.y1,
                        room.y2 <= 100_000,
                        room.x1 + 1 < data.map.width,
                        room.y1 + 1 < data.map.height,
                        room.x1 + 1 >= 0,
                        room.y1 + 1 >= 0,
                        first_idx == crate::map::spec_xy_idx(
                            old(data).map.width as int,
                            room.x1 + 1,
                            room.y1 + 1,
                        ),
                        forall|t: int|
                            0 <= t < data.map.tiles@.len() ==> #[trigger] data.map.tiles@[t]
                                == old(data).map.tiles@[t] || data.map.tiles@[t]
                                == TileType::Floor,
                        forall|k: int|
                            0 <= k < r && spec_room_carvable(#[trigger] rooms@[k], old(data).map)
                                ==> data.map.tiles@[crate::map::spec_xy_idx(
                                old(data).map.width as int,
                                rooms@[k].x1 + 1,
                                rooms@[k].y1 + 1,
                            )] == TileType::Floor,
                        (y > room.y1 + 1 || x > room.x1 + 1) ==> 0 <= first_idx
                            < data.map.tiles@.len() && data.map.tiles@[first_idx]
                            == TileType::Floor,
                    decreases room.x2 + 1 - x,
                {
                    let ghost pre_tiles = data.map.tiles@;
                    let carved = carve(&mut data.map, x, y);
                    proof {
                        assert forall|k: int|
                            0 <= k < r && spec_room_carvable(
                                #[trigger] rooms@[k],
                                old(data).map,
                            ) implies data.map.tiles@[crate::map::spec_xy_idx(
                            old(data).map.width as int,
                            rooms@[k].x1 + 1,
                            rooms@[k].y1 + 1,
                        )] == TileType::Floor by {
                            let cell = crate::map::spec_xy_idx(
                                old(data).map.width as int,
                                rooms@[k].x1 + 1,
                                rooms@[k].y1 + 1,
                            );
                            assert(pre_tiles[cell] == TileType::Floor);
                            assert(data.map.tiles@[cell] == pre_tiles[cell] || data.map.tiles@[
                                cell
                            ] == TileType::Floor);
                        }
                        if x == room.x1 + 1 && y == room.y1 + 1 {
                            crate::map::lemma_grid_index(
                                old(data).map.width as int,
                                old(data).map.height as int,
                                room.x1 + 1,
                                room.y1 + 1,
                            );
                            assert(carved is Some && carved->Some_0 as int == first_idx);
                            assert(data.map.tiles@[first_idx] == TileType::Floor);
                        }
                    }
                    x = x + 1;
                }
                y = y + 1;
            }
            proof {
                crate::map::lemma_grid_index(
                    old(data).map.width as int,
                    old(data).map.height as int,
                    room.x1 + 1,
                    room.y1 + 1,
                );
                assert(rooms@[r as int] == room);
                assert(-100_000 <= room.x1 && room.x1 < room.x2 && room.x2 <= 100_000);
                assert(-100_000 <= room.y1 && room.y1 < room.y2 && room.y2 <= 100_000);
                assert(0 <= room.x1 + 1 < old(data).map.width);
                assert(0 <= room.y1 + 1 < old(data).map.height);
                assert(0 <= crate::map::spec_xy_idx(
                    old(data).map.width as int,
                    room.x1 + 1,
                    room.y1 + 1,
                ) < old(data).map.tiles@.len());
                assert(spec_room_carvable(rooms@[r as int], old(data).map));
                assert(data.map.tiles@[first_idx] == TileType::Floor);
            }
        } else {
            proof {
                assert(!spec_room_carvable(rooms@[r as int], old(data).map));
            }
        }
        r = r + 1;
    }
}

/// Whether a room's first interior cell lies on the map and its corners
/// are sane, so the drawer carves it.
pub open spec fn spec_room_carvable(room: Rect, map: LevelMap) -> bool {
    &&& -100_000 <= room.x1
    &&& room.x1 < room.x2
    &&& room.x2 <= 100_000
    &&& -100_000 <= room.y1
    &&& room.y1 < room.y2
    &&& room.y2 <= 100_000
    &&& 0 <= room.x1 + 1 < map.width
    &&& 0 <= room.y1 + 1 < map.height
    &&& 0 <= crate::map::spec_xy_idx(map.width as int, room.x1 + 1, room.y1 + 1)
        < map.tiles@.len()
}

/// Carve a horizontal run of floor and report the carved tiles.
fn horizontal_tunnel(map: &mut LevelMap, x1: i32, x2: i32, y: i32, out: &mut Vec<usize>)
    requires
        old(map).wf(),
        -100_000 <= x1 <= 100_000,
        -100_000 <= x2 <= 100_000,
    ensures
        final(map).wf(),
        final(map).width == old(map).width,
        final(map).height == old(map).height,
        final(map).depth == old(map).depth,
        final(map).tiles@.len() == old(map).tiles@.len(),
        *final(map) == (LevelMap { tiles: final(map).tiles, ..*old(map) }),
        forall|t: int|
            0 <= t < final(map).tiles@.len() ==> #[trigger] final(map).tiles@[t]
                == old(map).tiles@[t] || final(map).tiles@[t] == TileType::Floor,
        final(out)@.len() >= old(out)@.len(),
        forall|k: int| 0 <= k < old(out)@.len() ==> #[trigger] final(out)@[k] == old(out)@[k],
        forall|k: int|
            old(out)@.len() <= k < final(out)@.len() ==> #[trigger] final(out)@[k]
                < final(map).tiles@.len() && final(map).tiles@[final(out)@[k] as int]
                == TileType::Floor,
{
    let lo = if x1 < x2 {
        x1
    } else {
        x2
    };
    let hi = if x1 < x2 {
        x2
    } else {
        x1
    };
    let mut x = lo;
    while x <= hi
        invariant
            map.wf(),
            map.width == old(map).width,
            map.height == old(map).height,
            map.depth == old(map).depth,
            map.tiles@.len() == old(map).tiles@.len(),
            *map == (LevelMap { tiles: map.tiles, ..*old(map) }),
            forall|t: int|
                0 <= t < map.tiles@.len() ==> #[trigger] map.tiles@[t] == old(map).tiles@[t]
                    || map.tiles@[t] == TileType::Floor,
            out@.len() >= old(out)@.len(),
            forall|k: int| 0 <= k < old(out)@.len() ==> #[trigger] out@[k] == old(out)@[k],
            forall|k: int|
                old(out)@.len() <= k < out@.len() ==> #[trigger] out@[k] < map.tiles@.len()
                    && map.tiles@[out@[k] as int] == TileType::Floor,
            x >= lo,
            lo >= -100_000,
            hi <= 100_000,
        decreases hi + 1 - x,
    {
        if let Option::Some(idx) = carve(map, x, y) {
            out.push(idx);
        }
        x = x + 1;
    }
}

/// Carve a vertical run of floor and report the carved tiles.
fn vertical_tunnel(map: &mut LevelMap, y1: i32, y2: i32, x: i32, out: &mut Vec<usize>)
    requires
        old(map).wf(),
        -100_000 <= y1 <= 100_000,
        -100_000 <= y2 <= 100_000,
    ensures
        final(map).wf(),
        final(map).width == old(map).width,
        final(map).height == old(map).height,
        final(map).depth == old(map).depth,
        final(map).tiles@.len() == old(map).tiles@.len(),
        *final(map) == (LevelMap { tiles: final(map).tiles, ..*old(map) }),
        forall|t: int|
            0 <= t < final(map).tiles@.len() ==> #[trigger] final(map).tiles@[t]
                == old(map).tiles@[t] || final(map).tiles@[t] == TileType::Floor,
        final(out)@.len() >= old(out)@.len(),
        forall|k: int| 0 <= k < old(out)@.len() ==> #[trigger] final(out)@[k] == old(out)@[k],
        forall|k: int|
            old(out)@.len() <= k < final(out)@.len() ==> #[trigger] final(out)@[k]
                < final(map).tiles@.len() && final(map).tiles@[final(out)@[k] as int]
                == TileType::Floor,
{
    let lo = if y1 < y2 {
        y1
    } else {
        y2
    };
    let hi = if y1 < y2 {
        y2
    } else {
        y1
    };
    let mut y = lo;
    while y <= hi
        invariant
            map.wf(),
            map.width == old(map).width,
            map.height == old(map).height,
            map.depth == old(map).depth,
            map.tiles@.len() == old(map).tiles@.len(),
            *map == (LevelMap { tiles: map.tiles, ..*old(map) }),
            forall|t: int|
                0 <= t < map.tiles@.len() ==> #[trigger] map.tiles@[t] == old(map).tiles@[t]
                    || map.tiles@[t] == TileType::Floor,
            out@.len() >= old(out)@.len(),
            forall|k: int| 0 <= k < old(out)@.len() ==> #[trigger] out@[k] == old(out)@[k],
            forall|k: int|
                old(out)@.len() <= k < out@.len() ==> #[trigger] out@[k] < map.tiles@.len()
                    && map.tiles@[out@[k] as int] == TileType::Floor,
            y >= lo,
            lo >= -100_000,
            hi <= 100_000,
        decreases hi + 1 - y,
    {
        if let Option::Some(idx) = carve(map, x, y) {
            out.push(idx);
        }
        y = y + 1;
    }
}

/// Truncating halving, as the machine division rounds toward zero.
pub open spec fn spec_div2_trunc(v: int) -> int {
    if v >= 0 {
        v / 2
    } else {
        -((-v) / 2)
    }
}

/// The centre of a room, clamped into sane coordinates.
pub open spec fn spec_room_center(room: Rect) -> (int, int) {
    (
        crate::gamesystem::spec_clamp_range(
            spec_div2_trunc(crate::gamesystem::spec_clamped(room.x1 + room.x2)),
            -100_000,
            100_000,
        ),
        crate::gamesystem::spec_clamp_range(
            spec_div2_trunc(crate::gamesystem::spec_clamped(room.y1 + room.y2)),
            -100_000,
            100_000,
        ),
    )
}

/// The centre of a room, clamped into sane coordinates.
fn room_center(room: &Rect) -> (r: (i32, i32))
    ensures
        -100_000 <= r.0 <= 100_000,
        -100_000 <= r.1 <= 100_000,
        r.0 == spec_room_center(*room).0,
        r.1 == spec_room_center(*room).1,
{
    let sx = crate::gamesystem::clamped_add(room.x1, room.x2) as i64;
    let hx = (if sx >= 0 {
        sx / 2
    } else {
        -((-sx) / 2)
    }) as i32;
    let sy = crate::gamesystem::clamped_add(room.y1, room.y2) as i64;
    let hy = (if sy >= 0 {
        sy / 2
    } else {
        -((-sy) / 2)
    }) as i32;
    let cx = crate::gamesystem::clamp_range(hx, -100_000, 100_000);
    let cy = crate::gamesystem::clamp_range(hy, -100_000, 100_000);
    (cx, cy)
}

/// Join consecutive rooms with an L-shaped corridor, the elbow direction
/// rolled per pair: tiles change only to floor, one corridor is recorded
/// per consecutive room pair, and every recorded tile is open floor.
pub fn dogleg_corridors(data: &mut BuilderMap, rng: &mut rltk::RandomNumberGenerator)
    requires
        old(data).wf(),
    ensures
        final(data).wf(),
        *final(data) == (BuilderMap {
            map: final(data).map,
            corridors: final(data).corridors,
            ..*old(data)
        }),
        final(data).map == (LevelMap { tiles: final(data).map.tiles, ..old(data).map }),
        forall|t: int|
            0 <= t < final(data).map.tiles@.len() ==> #[trigger] final(data).map.tiles@[t]
                == old(data).map.tiles@[t] || final(data).map.tiles@[t] == TileType::Floor,
        old(data).rooms is Some && old(data).rooms->Some_0@.len() >= 1
            ==> final(data).corridors is Some && final(data).corridors->Some_0@.len()
            == old(data).rooms->Some_0@.len() - 1,
        old(data).rooms is None ==> final(data).corridors == old(data).corridors,
        old(data).rooms is Some ==> final(data).corridors is Some && spec_corridors_open_vecs(
            final(data).corridors->Some_0@,
            final(data).map,
        ),
{
    let rooms = match &data.rooms {
        Option::Some(r) => copy_rects(r),
        Option::None => {
            return ;
        },
    };
    let mut corridors: Vec<Vec<usize>> = Vec::new();
    let mut i: usize = 1;
    while i < rooms.len()
        invariant
            data.wf(),
            old(data).wf(),
            *data == (BuilderMap { map: data.map, ..*old(data) }),
            data.map == (LevelMap { tiles: data.map.tiles, ..old(data).map }),
            data.map.tiles@.len() == old(data).map.tiles@.len(),
            rooms@ == old(data).rooms->Some_0@,
            1 <= i <= rooms@.len() || rooms@.len() == 0,
            corridors@.len() == if i <= rooms@.len() {
                i - 1
            } else {
                0
            },
            forall|t: int|
                0 <= t < data.map.tiles@.len() ==> #[trigger] data.map.tiles@[t] == old(
                    data,
                ).map.tiles@[t] || data.map.tiles@[t] == TileType::Floor,
            spec_corridors_open_vecs(corridors@, data.map),
        decreases rooms@.len() - i,
    {
        let (px, py) = room_center(&rooms[i - 1]);
        let (nx, ny) = room_center(&rooms[i]);
        let mut corridor: Vec<usize> = Vec::new();
        let ghost pre = data.map.tiles@;
        if rng.roll_dice(1, 2) == 1 {
            horizontal_tunnel(&mut data.map, px, nx, py, &mut corridor);
            vertical_tunnel(&mut data.map, py, ny, nx, &mut corridor);
        } else {
            vertical_tunnel(&mut data.map, py, ny, px, &mut corridor);
            horizontal_tunnel(&mut data.map, px, nx, ny, &mut corridor);
        }
        proof {
            lemma_floor_persists(corridors@, pre, data.map);
        }
        corridors.push(corridor);
        i = i + 1;
    }
    data.corridors = Option::Some(corridors);
}

/// Every recorded corridor tile lies on the map and is open floor.
pub open spec fn spec_corridors_open_vecs(corridors: Seq<Vec<usize>>, map: LevelMap) -> bool {
    forall|c: int, k: int|
        0 <= c < corridors.len() && 0 <= k < (#[trigger] corridors[c])@.len()
            ==> (#[trigger] corridors[c]@[k]) < map.tiles@.len() && map.tiles@[corridors[c]@[k] as int]
            == TileType::Floor
}

/// Floor tiles stay floor when later carving writes only floor.
proof fn lemma_floor_persists(corridors: Seq<Vec<usize>>, pre: Seq<TileType>, map: LevelMap)
    requires
        map.tiles@.len() == pre.len(),
        forall|t: int|
            0 <= t < map.tiles@.len() ==> #[trigger] map.tiles@[t] == pre[t] || map.tiles@[t]
                == TileType::Floor,
        forall|c: int, k: int|
            0 <= c < corridors.len() && 0 <= k < (#[trigger] corridors[c])@.len()
                ==> (#[trigger] corridors[c]@[k]) < pre.len() && pre[corridors[c]@[k] as int]
                == TileType::Floor,
    ensures
        spec_corridors_open_vecs(corridors, map),
{
}

/// Join consecutive rooms with a straight rasterized corridor: tiles
/// change only to floor, one corridor is recorded per consecutive room
/// pair, and every recorded tile is open floor.
pub fn straight_line_corridors(data: &mut BuilderMap)
    requires
        old(data).wf(),
    ensures
        final(data).wf(),
        *final(data) == (BuilderMap {
            map: final(data).map,
            corridors: final(data).corridors,
            ..*old(data)
        }),
        final(data).map == (LevelMap { tiles: final(data).map.tiles, ..old(data).map }),
        forall|t: int|
            0 <= t < final(data).map.tiles@.len() ==> #[trigger] final(data).map.tiles@[t]
                == old(data).map.tiles@[t] || final(data).map.tiles@[t] == TileType::Floor,
        old(data).rooms is Some && old(data).rooms->Some_0@.len() >= 1
            ==> final(data).corridors is Some && final(data).corridors->Some_0@.len()
            == old(data).rooms->Some_0@.len() - 1,
        old(data).rooms is None ==> final(data).corridors == old(data).corridors,
        old(data).rooms is Some ==> final(data).corridors is Some && spec_corridors_open_vecs(
            final(data).corridors->Some_0@,
            final(data).map,
        ),
{
    let rooms = match &data.rooms {
        Option::Some(r) => copy_rects(r),
        Option::None => {
            return ;
        },
    };
    let mut corridors: Vec<Vec<usize>> = Vec::new();
    let mut i: usize = 1;
    while i < rooms.len()
        invariant
            data.wf(),
            old(data).wf(),
            *data == (BuilderMap { map: data.map, ..*old(data) }),
            data.map == (LevelMap { tiles: data.map.tiles, ..old(data).map }),
            data.map.tiles@.len() == old(data).map.tiles@.len(),
            rooms@ == old(data).rooms->Some_0@,
            1 <= i <= rooms@.len() || rooms@.len() == 0,
            corridors@.len() == if i <= rooms@.len() {
                i - 1
            } else {
                0
            },
            forall|t: int|
                0 <= t < data.map.tiles@.len() ==> #[trigger] data.map.tiles@[t] == old(
                    data,
                ).map.tiles@[t] || data.map.tiles@[t] == TileType::Floor,
            spec_corridors_open_vecs(corridors@, data.map),
        decreases rooms@.len() - i,
    {
        let (px, py) = room_center(&rooms[i - 1]);
        let (nx, ny) = room_center(&rooms[i]);
        let line = crate::geometry::line_points(px, py, nx, ny);
        let mut corridor: Vec<usize> = Vec::new();
        let ghost pre = data.map.tiles@;
        let mut k: usize = 0;
        while k < line.len()
            invariant
                data.wf(),
                old(data).wf(),
                *data == (BuilderMap { map: data.map, ..*old(data) }),
                data.map == (LevelMap { tiles: data.map.tiles, ..old(data).map }),
                data.map.tiles@.len() == old(data).map.tiles@.len(),
                pre.len() == data.map.tiles@.len(),
                forall|t: int|
                    0 <= t < data.map.tiles@.len() ==> #[trigger] data.map.tiles@[t] == pre[t]
                        || data.map.tiles@[t] == TileType::Floor,
                forall|m: int|
                    0 <= m < corridor@.len() ==> (#[trigger] corridor@[m]) < data.map.tiles@.len()
                        && data.map.tiles@[corridor@[m] as int] == TileType::Floor,
            decreases line@.len() - k,
        {
            let p = line[k];
            if let Option::Some(idx) = carve(&mut data.map, p.x, p.y) {
                corridor.push(idx);
            }
            k = k + 1;
        }
        proof {
            assert forall|t: int|
                0 <= t < data.map.tiles@.len() implies #[trigger] data.map.tiles@[t] == old(
                data,
            ).map.tiles@[t] || data.map.tiles@[t] == TileType::Floor by {}
            lemma_floor_persists(corridors@, pre, data.map);
        }
        corridors.push(corridor);
        i = i + 1;
    }
    data.corridors = Option::Some(corridors);
}

/// Join every room to its nearest not-yet-connected neighbour with a
/// straight corridor: tiles change only to floor, a corridor record is
/// kept, and every recorded tile is open floor.
pub fn nearest_corridors(data: &mut BuilderMap)
    requires
        old(data).wf(),
    ensures
        final(data).wf(),
        *final(data) == (BuilderMap {
            map: final(data).map,
            corridors: final(data).corridors,
            ..*old(data)
        }),
        final(data).map == (LevelMap { tiles: final(data).map.tiles, ..old(data).map }),
        forall|t: int|
            0 <= t < final(data).map.tiles@.len() ==> #[trigger] final(data).map.tiles@[t]
                == old(data).map.tiles@[t] || final(data).map.tiles@[t] == TileType::Floor,
        old(data).rooms is None ==> final(data).corridors == old(data).corridors,
        old(data).rooms is Some ==> final(data).corridors is Some
            && final(data).corridors->Some_0@.len() <= old(data).rooms->Some_0@.len()
            && spec_corridors_open_vecs(final(data).corridors->Some_0@, final(data).map),
{
    let rooms = match &data.rooms {
        Option::Some(r) => copy_rects(r),
        Option::None => {
            return ;
        },
    };
    let mut connected: Vec<bool> = Vec::new();
    let mut i: usize = 0;
    while i < rooms.len()
        invariant
            connected@.len() == i,
            i <= rooms@.len(),
        decreases rooms@.len() - i,
    {
        connected.push(false);
        i = i + 1;
    }
    let mut corridors: Vec<Vec<usize>> = Vec::new();
    let mut r: usize = 0;
    while r < rooms.len()
        invariant
            data.wf(),
            old(data).wf(),
            *data == (BuilderMap { map: data.map, ..*old(data) }),
            data.map == (LevelMap { tiles: data.map.tiles, ..old(data).map }),
            data.map.tiles@.len() == old(data).map.tiles@.len(),
            rooms@ == old(data).rooms->Some_0@,
            connected@.len() == rooms@.len(),
            corridors@.len() <= r,
            r <= rooms@.len(),
            forall|t: int|
                0 <= t < data.map.tiles@.len() ==> #[trigger] data.map.tiles@[t] == old(
                    data,
                ).map.tiles@[t] || data.map.tiles@[t] == TileType::Floor,
            spec_corridors_open_vecs(corridors@, data.map),
        decreases rooms@.len() - r,
    {
        let (px, py) = room_center(&rooms[r]);
        let mut best: Option<usize> = Option::None;
        let mut best_dist: i64 = 0;
        let mut other: usize = 0;
        while other < rooms.len()
            invariant
                connected@.len() == rooms@.len(),
                best matches Option::Some(b) ==> b < rooms@.len(),
                -100_000 <= px <= 100_000,
                -100_000 <= py <= 100_000,
            decreases rooms@.len() - other,
        {
            if other != r && !connected[other] {
                let (ox, oy) = room_center(&rooms[other]);
                let dx = (ox as i64) - (px as i64);
                let dy = (oy as i64) - (py as i64);
                proof {
                    assert(0 <= dx * dx <= 0x100000i64 * 0x100000 && 0 <= dy * dy <= 0x100000i64
                        * 0x100000) by (nonlinear_arith)
                        requires
                            -0x100000 <= dx <= 0x100000,
                            -0x100000 <= dy <= 0x100000,
                    ;
                }
                let dist = dx * dx + dy * dy;
                let better = match best {
                    Option::None => true,
                    Option::Some(_) => dist < best_dist,
                };
                if better {
                    best = Option::Some(other);
                    best_dist = dist;
                }
            }
            other = other + 1;
        }
        if let Option::Some(target) = best {
            let (nx, ny) = room_center(&rooms[target]);
            let line = crate::geometry::line_points(px, py, nx, ny);
            let mut corridor: Vec<usize> = Vec::new();
            let ghost pre = data.map.tiles@;
            let mut k: usize = 0;
            while k < line.len()
                invariant
                    data.wf(),
                    old(data).wf(),
                    *data == (BuilderMap { map: data.map, ..*old(data) }),
                    data.map == (LevelMap { tiles: data.map.tiles, ..old(data).map }),
                    data.map.tiles@.len() == old(data).map.tiles@.len(),
                    pre.len() == data.map.tiles@.len(),
                    forall|t: int|
                        0 <= t < data.map.tiles@.len() ==> #[trigger] data.map.tiles@[t]
                            == pre[t] || data.map.tiles@[t] == TileType::Floor,
                    forall|m: int|
                        0 <= m < corridor@.len() ==> (#[trigger] corridor@[m])
                            < data.map.tiles@.len() && data.map.tiles@[corridor@[m] as int]
                            == TileType::Floor,
                decreases line@.len() - k,
            {
                let p = line[k];
                if let Option::Some(idx) = carve(&mut data.map, p.x, p.y) {
                    corridor.push(idx);
                }
                k = k + 1;
            }
            proof {
                assert forall|t: int|
                    0 <= t < data.map.tiles@.len() implies #[trigger] data.map.tiles@[t] == old(
                    data,
                ).map.tiles@[t] || data.map.tiles@[t] == TileType::Floor by {}
                lemma_floor_persists(corridors@, pre, data.map);
            }
            corridors.push(corridor);
        }
        connected[r] = true;
        r = r + 1;
    }
    data.corridors = Option::Some(corridors);
}

/// Spawn along each carved corridor.
pub fn corridor_spawner(
    data: &mut BuilderMap,
    rng: &mut rltk::RandomNumberGenerator,
    table: &RandomTable,
)
    requires
        old(data).wf(),
    ensures
        final(data).wf(),
        *final(data) == (BuilderMap { spawn_list: final(data).spawn_list, ..*old(data) }),
        final(data).spawn_list@.len() >= old(data).spawn_list@.len(),
        forall|i: int|
            0 <= i < old(data).spawn_list@.len() ==> #[trigger] final(data).spawn_list@[i]
                == old(data).spawn_list@[i],
        forall|i: int|
            old(data).spawn_list@.len() <= i < final(data).spawn_list@.len()
                ==> (#[trigger] final(data).spawn_list@[i]).0 < final(data).map.tiles@.len()
                && crate::map::spec_tile_walkable(
                final(data).map.tiles@[final(data).spawn_list@[i].0 as int],
            ),
{
    let corridors = match &data.corridors {
        Option::Some(c) => c.clone(),
        Option::None => {
            return ;
        },
    };
    let depth = data.map.depth;
    let mut c: usize = 0;
    while c < corridors.len()
        invariant
            data.wf(),
            *data == (BuilderMap { spawn_list: data.spawn_list, ..*old(data) }),
            data.spawn_list@.len() >= old(data).spawn_list@.len(),
            forall|i: int|
                0 <= i < old(data).spawn_list@.len() ==> #[trigger] data.spawn_list@[i] == old(
                    data,
                ).spawn_list@[i],
            forall|i: int|
                old(data).spawn_list@.len() <= i < data.spawn_list@.len()
                    ==> (#[trigger] data.spawn_list@[i]).0 < data.map.tiles@.len()
                    && crate::map::spec_tile_walkable(
                    data.map.tiles@[data.spawn_list@[i].0 as int],
                ),
        decreases corridors@.len() - c,
    {
        if corridors[c].len() > 2 {
            let hall = &corridors[c];
            let mut open_tiles: Vec<usize> = Vec::new();
            let mut t: usize = 0;
            while t < hall.len()
                invariant
                    data.wf(),
                    forall|k: int|
                        0 <= k < open_tiles@.len() ==> #[trigger] open_tiles@[k]
                            < data.map.tiles@.len() && crate::map::spec_tile_walkable(
                            data.map.tiles@[open_tiles@[k] as int],
                        ),
                decreases hall@.len() - t,
            {
                let idx = hall[t];
                if idx < data.map.tiles.len() {
                    if tile_walkable(data.map.tiles[idx]) {
                        open_tiles.push(idx);
                    }
                }
                t = t + 1;
            }
            let ghost before = data.spawn_list@;
            spawn_region(&data.map, rng, &open_tiles, depth, &mut data.spawn_list, table);
        }
        c = c + 1;
    }
}

/// Start in the first placed room's centre.
pub fn room_based_starting_position(data: &mut BuilderMap)
    requires
        old(data).wf(),
    ensures
        final(data).wf(),
        *final(data) == (BuilderMap {
            starting_position: final(data).starting_position,
            ..*old(data)
        }),
        old(data).rooms is Some && old(data).rooms->Some_0@.len() > 0
            ==> final(data).starting_position == Option::Some(
            Position {
                x: spec_room_center(old(data).rooms->Some_0@[0]).0 as i32,
                y: spec_room_center(old(data).rooms->Some_0@[0]).1 as i32,
            },
        ),
        !(old(data).rooms is Some && old(data).rooms->Some_0@.len() > 0)
            ==> final(data).starting_position == old(data).starting_position,
{
    let center = match &data.rooms {
        Option::Some(rooms) => {
            if rooms.len() > 0 {
                Option::Some(room_center(&rooms[0]))
            } else {
                Option::None
            }
        },
        Option::None => Option::None,
    };
    if let Option::Some((cx, cy)) = center {
        data.starting_position = Option::Some(Position { x: cx, y: cy });
    }
}

/// Put the downward staircase in the last placed room's centre, when the
/// centre lies on the map.
pub fn room_based_stairs(data: &mut BuilderMap)
    requires
        old(data).wf(),
    ensures
        final(data).wf(),
        *final(data) == (BuilderMap { map: final(data).map, ..*old(data) }),
        final(data).map == (LevelMap { tiles: final(data).map.tiles, ..old(data).map }),
        ({
            let applies = old(data).rooms is Some && old(data).rooms->Some_0@.len() > 0 && {
                let c = spec_room_center(
                    old(data).rooms->Some_0@[old(data).rooms->Some_0@.len() - 1],
                );
                0 <= c.0 < old(data).map.width && 0 <= c.1 < old(data).map.height
            };
            if applies {
                final(data).map.tiles@ == old(data).map.tiles@.update(
                    crate::map::spec_xy_idx(
                        old(data).map.width as int,
                        spec_room_center(
                            old(data).rooms->Some_0@[old(data).rooms->Some_0@.len() - 1],
                        ).0,
                        spec_room_center(
                            old(data).rooms->Some_0@[old(data).rooms->Some_0@.len() - 1],
                        ).1,
                    ),
                    TileType::DownStairs,
                )
            } else {
                final(data).map.tiles@ == old(data).map.tiles@
            }
        }),
{
    let center = match &data.rooms {
        Option::Some(rooms) => {
            if rooms.len() > 0 {
                Option::Some(room_center(&rooms[rooms.len() - 1]))
            } else {
                Option::None
            }
        },
        Option::None => Option::None,
    };
    if let Option::Some((cx, cy)) = center {
        if 0 <= cx && cx < data.map.width && 0 <= cy && cy < data.map.height {
            let idx = data.map.xy_idx(cx, cy);
            data.map.tiles[idx] = TileType::DownStairs;
            proof {
                assert(data.map.tiles@ =~= old(data).map.tiles@.update(
                    idx as int,
                    TileType::DownStairs,
                ));
            }
        }
    }
}

/// Spawn inside every placed room but the first.
pub fn room_based_spawner(
    data: &mut BuilderMap,
    rng: &mut rltk::RandomNumberGenerator,
    table: &RandomTable,
)
    requires
        old(data).wf(),
    ensures
        final(data).wf(),
        final(data).map.width == old(data).map.width,
        final(data).map.height == old(data).map.height,
        final(data).map.depth == old(data).map.depth,
{
    let rooms = match &data.rooms {
        Option::Some(r) => copy_rects(r),
        Option::None => {
            return ;
        },
    };
    let depth = data.map.depth;
    let mut r: usize = 1;
    while r < rooms.len()
        invariant
            data.wf(),
            data.map.width == old(data).map.width,
            data.map.height == old(data).map.height,
            data.map.depth == old(data).map.depth,
            r >= 1,
        decreases rooms@.len() - r,
    {
        spawn_room(&data.map, rng, &rooms[r], depth, &mut data.spawn_list, table);
        r = r + 1;
    }
}

} // verus!
