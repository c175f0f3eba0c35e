//! Door placement: spawn doors at corridor mouths — floor tiles whose
//! two-sided wall/floor pattern marks a doorway — never on a tile another
//! spawn already claims.

use vstd::prelude::*;
use vstd::string::StringExecFns;
use crate::map::{LevelMap, TileType, spec_tile_walkable};
use crate::map_builders::BuilderMap;

verus! {

/// Whether the tile at `idx` has the corridor-mouth shape: a floor tile
/// inside the margins with floor on both sides one way and wall on both
/// sides the other.
pub open spec fn spec_door_pattern(map: LevelMap, idx: int) -> bool {
    let w = map.width as int;
    let x = idx % w;
    let y = idx / w;
    &&& 0 <= idx < map.tiles@.len()
    &&& x > 1
    &&& x < w - 2
    &&& y > 1
    &&& y < map.height - 2
    &&& map.tiles@[idx] == TileType::Floor
    &&& ((map.tiles@[idx - 1] == TileType::Floor && map.tiles@[idx + 1] == TileType::Floor
        && map.tiles@[idx - w] == TileType::Wall && map.tiles@[idx + w] == TileType::Wall) || (
    map.tiles@[idx - 1] == TileType::Wall && map.tiles@[idx + 1] == TileType::Wall && map.tiles@[
        idx - w
    ] == TileType::Floor && map.tiles@[idx + w] == TileType::Floor))
}

/// Whether no spawn entry claims the tile yet.
pub open spec fn spec_unreserved(spawns: Seq<(usize, String)>, idx: usize) -> bool {
    forall|k: int| 0 <= k < spawns.len() ==> (#[trigger] spawns[k]).0 != idx
}

/// Whether a door fits at the tile: the corridor-mouth shape on an
/// unreserved tile.
pub open spec fn spec_door_possible(b: BuilderMap, idx: usize) -> bool {
    spec_door_pattern(b.map, idx as int) && spec_unreserved(b.spawn_list@, idx)
}

/// The door tiles the corridor walk places: the first tile of each
/// corridor longer than two, whenever it still fits a door once the
/// earlier doors are in.
pub open spec fn spec_door_fold(
    map: LevelMap,
    reserved: Seq<(usize, String)>,
    halls: Seq<Seq<usize>>,
    k: int,
) -> Seq<usize>
    decreases k,
{
    if k <= 0 {
        Seq::<usize>::empty()
    } else {
        let prev = spec_door_fold(map, reserved, halls, k - 1);
        let hall = halls[k - 1];
        if hall.len() > 2 && spec_door_pattern(map, hall[0] as int) && spec_unreserved(
            reserved,
            hall[0],
        ) && !prev.contains(hall[0]) {
            prev.push(hall[0])
        } else {
            prev
        }
    }
}

/// The per-hall views of a corridor record.
pub open spec fn spec_hall_views(halls: Seq<Vec<usize>>) -> Seq<Seq<usize>> {
    halls.map_values(|v: Vec<usize>| v@)
}

/// The spawn list extended by door entries at the given tiles.
pub open spec fn spec_doors_appended(
    olds: Seq<(usize, String)>,
    news: Seq<(usize, String)>,
    doors: Seq<usize>,
) -> bool {
    &&& news.len() == olds.len() + doors.len()
    &&& forall|k: int| 0 <= k < olds.len() ==> news[k] == olds[k]
    &&& forall|m: int|
        0 <= m < doors.len() ==> (#[trigger] news[olds.len() + m]).0 == doors[m]
            && news[olds.len() + m].1@ == "Drzwi"@
}

/// The door-placing stage.
#[derive(Clone, Debug)]
pub struct DoorPlacement {}

impl DoorPlacement {
    /// A fresh door-placing stage.
    pub fn new() -> (r: Box<DoorPlacement>)
    {
        Box::new(DoorPlacement {})
    }

    /// Run the stage over the build context: only the spawn list changes,
    /// and exactly as the door walk says.
    pub fn build(&mut self, build_data: &mut BuilderMap, rng: &mut rltk::RandomNumberGenerator)
        requires
            old(build_data).wf(),
        ensures
            final(build_data).wf(),
            *final(build_data) == (BuilderMap {
                spawn_list: final(build_data).spawn_list,
                ..*old(build_data)
            }),
            old(build_data).corridors is Some ==> spec_doors_appended(
                old(build_data).spawn_list@,
                final(build_data).spawn_list@,
                spec_door_fold(
                    old(build_data).map,
                    old(build_data).spawn_list@,
                    spec_hall_views(old(build_data).corridors->Some_0@),
                    old(build_data).corridors->Some_0@.len() as int,
                ),
            ),
            old(build_data).corridors is None ==> exists|doors: Seq<usize>|
                {
                    &&& spec_doors_appended(
                        old(build_data).spawn_list@,
                        final(build_data).spawn_list@,
                        doors,
                    )
                    &&& forall|m: int|
                        0 <= m < doors.len() ==> spec_door_pattern(
                            old(build_data).map,
                            #[trigger] doors[m] as int,
                        ) && spec_unreserved(old(build_data).spawn_list@, doors[m])
                    &&& forall|m1: int, m2: int|
                        0 <= m1 < m2 < doors.len() ==> #[trigger] doors[m1]
                            != #[trigger] doors[m2]
                },
    {
        doors(build_data, rng);
    }
}

/// A view-preserving copy of a corridor record.
fn copy_halls(v: &Vec<Vec<usize>>) -> (r: Vec<Vec<usize>>)
    ensures
        spec_hall_views(r@) == spec_hall_views(v@),
{
    let mut r: Vec<Vec<usize>> = Vec::new();
    let mut i: usize = 0;
    while i < v.len()
        invariant
            i <= v@.len(),
            r@.len() == i,
            forall|k: int| 0 <= k < i ==> (#[trigger] r@[k])@ == v@[k]@,
        decreases v@.len() - i,
    {
        let mut hall: Vec<usize> = Vec::new();
        let src = &v[i];
        let mut j: usize = 0;
        while j < src.len()
            invariant
                j <= src@.len(),
                hall@ == src@.take(j as int),
                src@ == v@[i as int]@,
                i < v@.len(),
                r@.len() == i,
                forall|k: int| 0 <= k < i ==> (#[trigger] r@[k])@ == v@[k]@,
            decreases src@.len() - j,
        {
            hall.push(src[j]);
            proof {
                assert(hall@ =~= src@.take(j + 1));
            }
            j = j + 1;
        }
        proof {
            assert(src@.take(src@.len() as int) =~= src@);
        }
        r.push(hall);
        i = i + 1;
    }
    proof {
        assert(spec_hall_views(r@) =~= spec_hall_views(v@));
    }
    r
}

/// Spawn doors: at the mouth of each carved corridor long enough to have
/// one, or — with no corridor record — at a rolled third of the
/// doorway-shaped floor tiles.
fn doors(build_data: &mut BuilderMap, rng: &mut rltk::RandomNumberGenerator)
    requires
        old(build_data).wf(),
    ensures
        final(build_data).wf(),
        *final(build_data) == (BuilderMap {
            spawn_list: final(build_data).spawn_list,
            ..*old(build_data)
        }),
        old(build_data).corridors is Some ==> spec_doors_appended(
            old(build_data).spawn_list@,
            final(build_data).spawn_list@,
            spec_door_fold(
                old(build_data).map,
                old(build_data).spawn_list@,
                spec_hall_views(old(build_data).corridors->Some_0@),
                old(build_data).corridors->Some_0@.len() as int,
            ),
        ),
        old(build_data).corridors is None ==> exists|doors: Seq<usize>|
            {
                &&& spec_doors_appended(
                    old(build_data).spawn_list@,
                    final(build_data).spawn_list@,
                    doors,
                )
                &&& forall|m: int|
                    0 <= m < doors.len() ==> spec_door_pattern(
                        old(build_data).map,
                        #[trigger] doors[m] as int,
                    ) && spec_unreserved(old(build_data).spawn_list@, doors[m])
                &&& forall|m1: int, m2: int|
                    0 <= m1 < m2 < doors.len() ==> #[trigger] doors[m1] != #[trigger] doors[m2]
            },
{
    let ghost orig = build_data.spawn_list@;
    match &build_data.corridors {
        Option::Some(recorded_halls) => {
            let halls = copy_halls(recorded_halls);
            let ghost hv = spec_hall_views(old(build_data).corridors->Some_0@);
            proof {
                assert(spec_hall_views(halls@) == hv);
                assert(spec_door_fold(build_data.map, orig, hv, 0) =~= Seq::<usize>::empty());
            }
            let mut h: usize = 0;
            while h < halls.len()
                invariant
                    build_data.wf(),
                    *build_data == (BuilderMap {
                        spawn_list: build_data.spawn_list,
                        ..*old(build_data)
                    }),
                    h <= halls@.len(),
                    spec_hall_views(halls@) == hv,
                    hv.len() == halls@.len(),
                    orig == old(build_data).spawn_list@,
                    spec_doors_appended(
                        orig,
                        build_data.spawn_list@,
                        spec_door_fold(old(build_data).map, orig, hv, h as int),
                    ),
                decreases halls@.len() - h,
            {
                let ghost fold_prev = spec_door_fold(old(build_data).map, orig, hv, h as int);
                proof {
                    assert(halls@[h as int]@ == hv[h as int]);
                }
                if halls[h].len() > 2 {
                    let idx = halls[h][0];
                    if door_possible(build_data, idx) {
                        proof {
                            lemma_unreserved_split(orig, fold_prev, build_data.spawn_list@, idx);
                        }
                        build_data.spawn_list.push((idx, String::from_str("Drzwi")));
                        proof {
                            assert(spec_door_fold(old(build_data).map, orig, hv, h + 1)
                                =~= fold_prev.push(idx));
                        }
                    } else {
                        proof {
                            lemma_unreserved_split(orig, fold_prev, build_data.spawn_list@, idx);
                            assert(spec_door_fold(old(build_data).map, orig, hv, h + 1)
                                =~= fold_prev);
                        }
                    }
                } else {
                    proof {
                        assert(spec_door_fold(old(build_data).map, orig, hv, h + 1) =~= fold_prev);
                    }
                }
                h = h + 1;
            }
        },
        Option::None => {
            let ghost doors_so_far = Seq::<usize>::empty();
            proof {
                assert(spec_doors_appended(orig, build_data.spawn_list@, doors_so_far));
            }
            let count = build_data.map.tiles.len();
            let mut i: usize = 0;
            while i < count
                invariant
                    build_data.wf(),
                    *build_data == (BuilderMap {
                        spawn_list: build_data.spawn_list,
                        ..*old(build_data)
                    }),
                    count == build_data.map.tiles@.len(),
                    i <= count,
                    orig == old(build_data).spawn_list@,
                    spec_doors_appended(orig, build_data.spawn_list@, doors_so_far),
                    forall|m: int|
                        0 <= m < doors_so_far.len() ==> spec_door_pattern(
                            old(build_data).map,
                            #[trigger] doors_so_far[m] as int,
                        ) && spec_unreserved(orig, doors_so_far[m]),
                    forall|m1: int, m2: int|
                        0 <= m1 < m2 < doors_so_far.len() ==> #[trigger] doors_so_far[m1]
                            != #[trigger] doors_so_far[m2],
                decreases count - i,
            {
                if build_data.map.tiles[i] == TileType::Floor {
                    if door_possible(build_data, i) {
                        if rng.roll_dice(1, 3) == 1 {
                            proof {
                                lemma_unreserved_split(
                                    orig,
                                    doors_so_far,
                                    build_data.spawn_list@,
                                    i,
                                );
                            }
                            build_data.spawn_list.push((i, String::from_str("Drzwi")));
                            proof {
                                doors_so_far = doors_so_far.push(i);
                            }
                        }
                    }
                }
                i = i + 1;
            }
        },
    }
}

/// With the spawn list split into its original part and the doors already
/// placed, being unreserved in the whole list is being unreserved in the
/// original part and absent from the placed doors.
proof fn lemma_unreserved_split(
    orig: Seq<(usize, String)>,
    doors: Seq<usize>,
    current: Seq<(usize, String)>,
    idx: usize,
)
    requires
        spec_doors_appended(orig, current, doors),
    ensures
        spec_unreserved(current, idx) == (spec_unreserved(orig, idx) && !doors.contains(idx)),
{
    if spec_unreserved(orig, idx) && !doors.contains(idx) {
        assert forall|k: int| 0 <= k < current.len() implies (#[trigger] current[k]).0 != idx by {
            if k >= orig.len() {
                let m = k - orig.len();
                assert(current[orig.len() + m].0 == doors[m]);
                assert(!doors.contains(idx));
                assert(doors[m] != idx);
            }
        }
    }
    if spec_unreserved(current, idx) {
        assert forall|k: int| 0 <= k < orig.len() implies (#[trigger] orig[k]).0 != idx by {
            assert(current[k] == orig[k]);
        }
        if doors.contains(idx) {
            let m = choose|m: int| 0 <= m < doors.len() && doors[m] == idx;
            assert(current[orig.len() + m].0 == idx);
        }
    }
}

/// Whether a door fits at the tile: exactly the corridor-mouth test on an
/// unreserved tile.
pub fn door_possible(build_data: &BuilderMap, idx: usize) -> (r: bool)
    requires
        build_data.wf(),
    ensures
        r == spec_door_possible(*build_data, idx),
        r ==> idx < build_data.map.tiles@.len() && spec_tile_walkable(
            build_data.map.tiles@[idx as int],
        ),
{
    if idx >= build_data.map.tiles.len() {
        return false;
    }
    let mut blocked = false;
    let mut s: usize = 0;
    while s < build_data.spawn_list.len()
        invariant
            s <= build_data.spawn_list@.len(),
            blocked == exists|k: int|
                0 <= k < s && (#[trigger] build_data.spawn_list@[k]).0 == idx,
        decreases build_data.spawn_list@.len() - s,
    {
        if build_data.spawn_list[s].0 == idx {
            blocked = true;
        }
        s = s + 1;
    }
    if blocked {
        return false;
    }
    let w = build_data.map.width as usize;
    let x = idx % w;
    let y = idx / w;
    if !(x > 1 && (x as i64) < (build_data.map.width as i64) - 2 && y > 1 && (y as i64)
        < (build_data.map.height as i64) - 2) {
        return false;
    }
    proof {
        crate::map_builders::connectivity::lemma_idx_bounds(
            idx as int,
            build_data.map.width as int,
            build_data.map.height as int,
        );
        assert(w >= 1 && idx - w >= 0 && idx + w < build_data.map.tiles@.len() && idx + 1
            < build_data.map.tiles@.len() && idx >= 1) by (nonlinear_arith)
            requires
                w == build_data.map.width as int,
                1 <= build_data.map.width as int,
                build_data.map.tiles@.len() == (build_data.map.width as int) * (
                build_data.map.height as int),
                idx as int == (idx as int / w as int) * (w as int) + (idx as int % w as int),
                x == idx as int % w as int,
                y == idx as int / w as int,
                1 < x,
                (x as int) < (build_data.map.width as int) - 2,
                1 < y,
                (y as int) < (build_data.map.height as int) - 2,
        ;
    }
    let here = build_data.map.tiles[idx];
    if here != TileType::Floor {
        return false;
    }
    let left = build_data.map.tiles[idx - 1];
    let right = build_data.map.tiles[idx + 1];
    let up = build_data.map.tiles[idx - w];
    let down = build_data.map.tiles[idx + w];
    if left == TileType::Floor && right == TileType::Floor && up == TileType::Wall && down
        == TileType::Wall {
        return true;
    }
    if left == TileType::Wall && right == TileType::Wall && up == TileType::Floor && down
        == TileType::Floor {
        return true;
    }
    false
}

} // verus!
