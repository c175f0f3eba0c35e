//! Spawn-point selection: weighted tag tables and the placement of
//! monsters and items into a region of candidate tiles. Materializing the
//! chosen tags into entities is the spawner collaborator's work.

use vstd::prelude::*;
use vstd::string::StringExecFns;
use crate::geometry::Rect;
use crate::map::{LevelMap, spec_tile_walkable, tile_walkable};

verus! {

/// A weighted table of spawnable tags, handed in by the raw-data
/// collaborator.
#[derive(Clone, Debug)]
pub struct RandomTable {
    pub entries: Vec<(String, i32)>,
}

impl RandomTable {
    /// An empty table.
    pub fn new() -> (r: RandomTable)
        ensures
            r.entries@.len() == 0,
    {
        RandomTable { entries: Vec::new() }
    }

    /// Add one tag with its weight.
    pub fn add(&mut self, name: String, weight: i32)
        ensures
            final(self).entries@ == old(self).entries@.push((name, weight)),
    {
        self.entries.push((name, weight));
    }

    /// Roll one tag: a weighted draw over the positive-weight entries.
    /// Whenever any entry has positive weight the draw lands on the name
    /// of a positive-weight entry; only an empty draw gives the marker.
    pub fn roll(&self, rng: &mut rltk::RandomNumberGenerator) -> (r: String)
        ensures
            spec_has_positive(self.entries@) ==> exists|i: int|
                0 <= i < self.entries@.len() && (#[trigger] self.entries@[i]).1 > 0 && r@
                    == self.entries@[i].0@,
            !spec_has_positive(self.entries@) ==> r@ == "None"@,
    {
        proof {
            lemma_pos_suffix_all(self.entries@);
        }
        let mut total: i64 = 0;
        let mut i: usize = 0;
        while i < self.entries.len()
            invariant
                i <= self.entries@.len(),
                0 <= total <= 0x1_0000_0000_0000,
                total > 0 ==> spec_has_positive(self.entries@),
                spec_has_positive(self.entries@.take(i as int)) ==> total > 0,
                total + spec_pos_sum(self.entries@, i as int) <= spec_pos_sum(self.entries@, 0)
                    || total <= spec_pos_sum(self.entries@, 0) - spec_pos_sum(
                    self.entries@,
                    i as int,
                ),
            decreases self.entries@.len() - i,
        {
            let w = self.entries[i].1;
            proof {
                assert(spec_pos_sum(self.entries@, i as int) == (if self.entries@[i as int].1
                    > 0 {
                    self.entries@[i as int].1 as int
                } else {
                    0
                }) + spec_pos_sum(self.entries@, i + 1));
                lemma_pos_sum_nonneg(self.entries@, i + 1);
            }
            if w > 0 && total < 0x1_0000_0000_0000 - 0x8000_0000 {
                total = total + (w as i64);
                proof {
                    assert(self.entries@[i as int].1 > 0);
                }
            }
            proof {
                assert(self.entries@.take(i + 1).drop_last() =~= self.entries@.take(i as int));
                if spec_has_positive(self.entries@.take(i + 1)) && !spec_has_positive(
                    self.entries@.take(i as int),
                ) {
                    let k = choose|k: int|
                        0 <= k < self.entries@.take(i + 1).len() && (#[trigger] self.entries@.take(
                            i + 1,
                        )[k]).1 > 0;
                    assert(k == i as int);
                }
            }
            i = i + 1;
        }
        proof {
            assert(self.entries@.take(self.entries@.len() as int) =~= self.entries@);
            assert(spec_pos_sum(self.entries@, self.entries@.len() as int) == 0);
        }
        if total < 1 {
            proof {
                assert(!spec_has_positive(self.entries@));
            }
            return String::from_str("None");
        }
        let capped: i32 = if total > 10_000 {
            10_000
        } else {
            total as i32
        };
        let mut roll = rng.roll_dice(1, capped);
        proof {
            assert(total as int <= spec_pos_sum(self.entries@, 0));
            assert(roll as int <= spec_pos_sum(self.entries@, 0));
        }
        let mut j: usize = 0;
        while j < self.entries.len()
            invariant
                j <= self.entries@.len(),
                1 <= roll,
                roll as int <= spec_pos_sum(self.entries@, j as int),
            decreases self.entries@.len() - j,
        {
            let w = self.entries[j].1;
            proof {
                assert(spec_pos_sum(self.entries@, j as int) == (if self.entries@[j as int].1
                    > 0 {
                    self.entries@[j as int].1 as int
                } else {
                    0
                }) + spec_pos_sum(self.entries@, j + 1));
                lemma_pos_sum_nonneg(self.entries@, j + 1);
            }
            if w > 0 {
                if roll <= w {
                    let tag = self.entries[j].0.clone();
                    proof {
                        assert(tag@ == self.entries@[j as int].0@);
                        assert(self.entries@[j as int].1 > 0);
                    }
                    return tag;
                }
                roll = roll - w;
            }
            j = j + 1;
        }
        proof {
            assert(spec_pos_sum(self.entries@, self.entries@.len() as int) == 0);
            assert(false);
        }
        String::from_str("None")
    }
}

/// Whether any table entry carries positive weight.
pub open spec fn spec_has_positive(entries: Seq<(String, i32)>) -> bool {
    exists|i: int| 0 <= i < entries.len() && (#[trigger] entries[i]).1 > 0
}

/// The positive weight held from entry `from` onward.
pub open spec fn spec_pos_sum(entries: Seq<(String, i32)>, from: int) -> int
    decreases entries.len() - from,
{
    if from < 0 || from >= entries.len() {
        0
    } else {
        (if entries[from].1 > 0 {
            entries[from].1 as int
        } else {
            0
        }) + spec_pos_sum(entries, from + 1)
    }
}

/// The accumulated total never exceeds the positive suffix sum from the
/// start, so a roll bounded by the total always lands inside the walk.
proof fn lemma_pos_suffix_all(entries: Seq<(String, i32)>)
    ensures
        forall|from: int|
            0 <= from <= entries.len() ==> #[trigger] spec_pos_sum(entries, from) >= 0,
    decreases entries.len(),
{
    assert forall|from: int|
        0 <= from <= entries.len() implies #[trigger] spec_pos_sum(entries, from) >= 0 by {
        lemma_pos_sum_nonneg(entries, from);
    }
}

/// A positive suffix sum is never negative.
proof fn lemma_pos_sum_nonneg(entries: Seq<(String, i32)>, from: int)
    ensures
        spec_pos_sum(entries, from) >= 0,
    decreases entries.len() - from,
{
    if 0 <= from && from < entries.len() {
        lemma_pos_sum_nonneg(entries, from + 1);
    }
}

/// Pick spawn points inside a region of candidate tiles: a dice-set
/// number of candidates, drawn without replacement, each get a rolled
/// tag. Every added entry names a candidate tile, so it is in bounds and
/// walkable; distinct candidates give distinct spawn tiles; and from the
/// fifth depth down a non-empty region always gets at least one spawn.
pub fn spawn_region(
    map: &LevelMap,
    rng: &mut rltk::RandomNumberGenerator,
    area: &Vec<usize>,
    map_depth: i32,
    spawn_list: &mut Vec<(usize, String)>,
    table: &RandomTable,
)
    requires
        map.wf(),
        forall|k: int|
            0 <= k < area@.len() ==> #[trigger] area@[k] < map.tiles@.len() && spec_tile_walkable(
                map.tiles@[area@[k] as int],
            ),
    ensures
        final(spawn_list)@.len() >= old(spawn_list)@.len(),
        final(spawn_list)@.len() <= old(spawn_list)@.len() + area@.len(),
        forall|i: int|
            0 <= i < old(spawn_list)@.len()
                ==> #[trigger] final(spawn_list)@[i] == old(spawn_list)@[i],
        forall|i: int|
            old(spawn_list)@.len() <= i < final(spawn_list)@.len()
                ==> area@.contains((#[trigger] final(spawn_list)@[i]).0)
                && final(spawn_list)@[i].0 < map.tiles@.len() && spec_tile_walkable(
                map.tiles@[final(spawn_list)@[i].0 as int],
            ),
        (forall|k1: int, k2: int|
            0 <= k1 < k2 < area@.len() ==> #[trigger] area@[k1] != #[trigger] area@[k2])
            ==> forall|i1: int, i2: int|
            old(spawn_list)@.len() <= i1 < i2 < final(spawn_list)@.len()
                ==> (#[trigger] final(spawn_list)@[i1]).0
                != (#[trigger] final(spawn_list)@[i2]).0,
        map_depth >= 5 && area@.len() >= 1 ==> final(spawn_list)@.len() > old(spawn_list)@.len(),
{
    if area.len() == 0 {
        return ;
    }
    let rolled = crate::gamesystem::clamped_add(
        crate::gamesystem::clamped_sub(rng.roll_dice(1, 7), 4),
        map_depth,
    );
    let num_spawns: usize = if rolled < 1 {
        0
    } else if (rolled as usize) > area.len() {
        area.len()
    } else {
        rolled as usize
    };
    proof {
        if map_depth >= 5 {
            assert(num_spawns >= 1);
        }
    }
    // Draw candidates without replacement.
    let mut candidates = copy_indices(area);
    let mut placed: usize = 0;
    while placed < num_spawns
        invariant
            map.wf(),
            num_spawns <= area@.len(),
            placed <= num_spawns,
            candidates@.len() == area@.len() - placed,
            forall|c: int|
                0 <= c < candidates@.len() ==> area@.contains(#[trigger] candidates@[c]),
            spec_area_distinct(area@) ==> spec_area_distinct(candidates@),
            forall|k: int|
                0 <= k < area@.len() ==> #[trigger] area@[k] < map.tiles@.len()
                    && spec_tile_walkable(map.tiles@[area@[k] as int]),
            spawn_list@.len() == old(spawn_list)@.len() + placed,
            forall|i: int|
                0 <= i < old(spawn_list)@.len()
                    ==> #[trigger] spawn_list@[i] == old(spawn_list)@[i],
            forall|i: int|
                old(spawn_list)@.len() <= i < spawn_list@.len() ==> area@.contains(
                    (#[trigger] spawn_list@[i]).0,
                ),
            forall|i: int, c: int|
                old(spawn_list)@.len() <= i < spawn_list@.len() && 0 <= c < candidates@.len()
                    ==> (#[trigger] spawn_list@[i]).0 != #[trigger] candidates@[c]
                    || !spec_area_distinct(area@),
            forall|i1: int, i2: int|
                old(spawn_list)@.len() <= i1 < i2 < spawn_list@.len() ==> (
                #[trigger] spawn_list@[i1]).0 != (#[trigger] spawn_list@[i2]).0
                    || !spec_area_distinct(area@),
        decreases num_spawns - placed,
    {
        let clen = candidates.len();
        let capped: i32 = if clen > 10_000 {
            10_000
        } else {
            clen as i32
        };
        let pick = (rng.roll_dice(1, capped) - 1) as usize;
        let pick = if pick < clen {
            pick
        } else {
            0
        };
        let idx = candidates[pick];
        let ghost cands_before = candidates@;
        candidates.remove(pick);
        let tag = table.roll(rng);
        let ghost before = spawn_list@;
        spawn_list.push((idx, tag));
        proof {
            assert(candidates@ =~= cands_before.remove(pick as int));
            assert forall|c: int|
                0 <= c < candidates@.len() implies area@.contains(#[trigger] candidates@[c]) by {
                if c < pick {
                    assert(candidates@[c] == cands_before[c]);
                } else {
                    assert(candidates@[c] == cands_before[c + 1]);
                }
            }
            if spec_area_distinct(area@) {
                assert forall|c1: int, c2: int|
                    0 <= c1 < c2 < candidates@.len() implies #[trigger] candidates@[c1]
                    != #[trigger] candidates@[c2] by {
                    let m1 = if c1 < pick {
                        c1
                    } else {
                        c1 + 1
                    };
                    let m2 = if c2 < pick {
                        c2
                    } else {
                        c2 + 1
                    };
                    assert(candidates@[c1] == cands_before[m1]);
                    assert(candidates@[c2] == cands_before[m2]);
                }
                assert forall|i: int, c: int|
                    old(spawn_list)@.len() <= i < spawn_list@.len() && 0 <= c
                        < candidates@.len() implies (#[trigger] spawn_list@[i]).0
                    != #[trigger] candidates@[c] || !spec_area_distinct(area@) by {
                    if i < spawn_list@.len() - 1 {
                        assert(spawn_list@[i] == before[i]);
                        if c < pick {
                            assert(candidates@[c] == cands_before[c]);
                        } else {
                            assert(candidates@[c] == cands_before[c + 1]);
                        }
                    } else {
                        assert(spawn_list@[i].0 == idx);
                        if c < pick {
                            assert(candidates@[c] == cands_before[c]);
                            assert(cands_before[c] != cands_before[pick as int]);
                        } else {
                            assert(candidates@[c] == cands_before[c + 1]);
                            assert(cands_before[c + 1] != cands_before[pick as int]);
                        }
                    }
                }
                assert forall|i1: int, i2: int|
                    old(spawn_list)@.len() <= i1 < i2 < spawn_list@.len() implies (
                #[trigger] spawn_list@[i1]).0 != (#[trigger] spawn_list@[i2]).0
                    || !spec_area_distinct(area@) by {
                    if i2 == spawn_list@.len() - 1 {
                        assert(spawn_list@[i1] == before[i1]);
                        assert(before[i1].0 != cands_before[pick as int]);
                    } else {
                        assert(spawn_list@[i1] == before[i1]);
                        assert(spawn_list@[i2] == before[i2]);
                    }
                }
            }
        }
        placed = placed + 1;
    }
}

/// Whether the candidate region names each tile at most once.
pub open spec fn spec_area_distinct(area: Seq<usize>) -> bool {
    forall|k1: int, k2: int| 0 <= k1 < k2 < area.len() ==> #[trigger] area[k1] != #[trigger] area[k2]
}

/// A copy of an index list.
fn copy_indices(v: &Vec<usize>) -> (r: Vec<usize>)
    ensures
        r@ == v@,
{
    let mut r: Vec<usize> = Vec::new();
    let mut i: usize = 0;
    while i < v.len()
        invariant
            i <= v@.len(),
            r@ == v@.take(i as int),
        decreases v@.len() - i,
    {
        r.push(v[i]);
        proof {
            assert(r@ =~= v@.take(i + 1));
        }
        i = i + 1;
    }
    proof {
        assert(v@.take(v@.len() as int) =~= v@);
    }
    r
}

/// Pick spawn points inside one room: its interior floor tiles form the
/// candidate region.
pub fn spawn_room(
    map: &LevelMap,
    rng: &mut rltk::RandomNumberGenerator,
    room: &Rect,
    map_depth: i32,
    spawn_list: &mut Vec<(usize, String)>,
    table: &RandomTable,
)
    requires
        map.wf(),
    ensures
        final(spawn_list)@.len() >= old(spawn_list)@.len(),
        forall|i: int|
            0 <= i < old(spawn_list)@.len()
                ==> #[trigger] final(spawn_list)@[i] == old(spawn_list)@[i],
        forall|i: int|
            old(spawn_list)@.len() <= i < final(spawn_list)@.len()
                ==> (#[trigger] final(spawn_list)@[i]).0 < map.tiles@.len()
                && spec_tile_walkable(map.tiles@[final(spawn_list)@[i].0 as int]),
{
    if !(-100_000 <= room.x1 && room.x1 < room.x2 && room.x2 <= 100_000 && -100_000 <= room.y1
        && room.y1 < room.y2 && room.y2 <= 100_000) {
        return ;
    }
    let mut possible: Vec<usize> = Vec::new();
    let mut y = room.y1 + 1;
    while y < room.y2
        invariant
            map.wf(),
            -100_000 <= room.x1 && room.x1 < room.x2 && room.x2 <= 100_000,
            y > room.y1 >= -100_000,
            forall|k: int|
                0 <= k < possible@.len() ==> #[trigger] possible@[k] < map.tiles@.len()
                    && spec_tile_walkable(map.tiles@[possible@[k] as int]),
        decreases room.y2 - y,
    {
        let mut x = room.x1 + 1;
        while x < room.x2
            invariant
                map.wf(),
                x > room.x1 >= -100_000,
                room.x2 <= 100_000,
                forall|k: int|
                    0 <= k < possible@.len() ==> #[trigger] possible@[k] < map.tiles@.len()
                        && spec_tile_walkable(map.tiles@[possible@[k] as int]),
            decreases room.x2 - x,
        {
            if 0 <= x && x < map.width && 0 <= y && y < map.height {
                let idx = map.xy_idx(x, y);
                if tile_walkable(map.tiles[idx]) {
                    possible.push(idx);
                }
            }
            x = x + 1;
        }
        y = y + 1;
    }
    spawn_region(map, rng, &possible, map_depth, spawn_list, table);
}

} // verus!
