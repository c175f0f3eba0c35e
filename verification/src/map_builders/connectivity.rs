//! Reachability over the tile grid: the flood fill, the culling stage that
//! guarantees a fully connected level, and the stages that pick starting
//! and ending points.

use vstd::prelude::*;
use crate::components::Position;
use crate::map::{LevelMap, TileType, spec_tile_walkable, tile_walkable};

verus! {

/// Whether two tile indices of a `width`-wide grid touch, diagonals
/// included.
pub open spec fn spec_adjacent(width: int, a: int, b: int) -> bool {
    let ax = a % width;
    let ay = a / width;
    let bx = b % width;
    let by = b / width;
    &&& a != b
    &&& -1 <= ax - bx <= 1
    &&& -1 <= ay - by <= 1
}

/// A walk over tiles of the map from `from` to `to`: every step stands on
/// a walkable tile and consecutive steps touch.
pub open spec fn spec_is_path(
    tiles: Seq<TileType>,
    width: int,
    p: Seq<int>,
    from: int,
    to: int,
) -> bool {
    &&& p.len() >= 1
    &&& p[0] == from
    &&& p.last() == to
    &&& forall|i: int| 0 <= i < p.len() ==> 0 <= #[trigger] p[i] < tiles.len()
    &&& forall|i: int| 0 <= i < p.len() ==> spec_tile_walkable(tiles[#[trigger] p[i]])
    &&& forall|i: int| 0 <= i < p.len() - 1 ==> spec_adjacent(width, #[trigger] p[i], p[i + 1])
}

/// Whether a walk exists from `from` to `to`.
pub open spec fn spec_reachable(tiles: Seq<TileType>, width: int, from: int, to: int) -> bool {
    exists|p: Seq<int>| spec_is_path(tiles, width, p, from, to)
}

/// Every walkable tile of the map can be walked to from `start`.
pub open spec fn spec_fully_connected(tiles: Seq<TileType>, width: int, start: int) -> bool {
    forall|t: int|
        0 <= t < tiles.len() && spec_tile_walkable(#[trigger] tiles[t]) ==> spec_reachable(
            tiles,
            width,
            start,
            t,
        )
}

/// A walk over visited tiles only.
pub open spec fn spec_is_visited_path(
    visited: Seq<bool>,
    width: int,
    p: Seq<int>,
    from: int,
    to: int,
) -> bool {
    &&& p.len() >= 1
    &&& p[0] == from
    &&& p.last() == to
    &&& forall|i: int| 0 <= i < p.len() ==> 0 <= #[trigger] p[i] < visited.len()
    &&& forall|i: int| 0 <= i < p.len() ==> visited[#[trigger] p[i]]
    &&& forall|i: int| 0 <= i < p.len() - 1 ==> spec_adjacent(width, #[trigger] p[i], p[i + 1])
}

/// A tile with a visited walk stays reachable when more tiles are visited.
proof fn lemma_visited_path_monotone(
    v0: Seq<bool>,
    v1: Seq<bool>,
    width: int,
    p: Seq<int>,
    from: int,
    to: int,
)
    requires
        spec_is_visited_path(v0, width, p, from, to),
        v1.len() == v0.len(),
        forall|t: int| 0 <= t < v0.len() && v0[t] ==> v1[t],
    ensures
        spec_is_visited_path(v1, width, p, from, to),
{
}

/// A visited walk is a walk of the map when every visited tile is walkable.
proof fn lemma_visited_path_to_map_path(
    visited: Seq<bool>,
    tiles: Seq<TileType>,
    width: int,
    p: Seq<int>,
    from: int,
    to: int,
)
    requires
        spec_is_visited_path(visited, width, p, from, to),
        tiles.len() == visited.len(),
        forall|t: int| 0 <= t < visited.len() && visited[t] ==> spec_tile_walkable(tiles[t]),
    ensures
        spec_is_path(tiles, width, p, from, to),
{
}

/// Decomposing a row-major index built from in-range coordinates gives the
/// coordinates back.
proof fn lemma_idx_decompose(w: int, x: int, y: int)
    requires
        0 < w,
        0 <= x < w,
        0 <= y,
    ensures
        (y * w + x) % w == x,
        (y * w + x) / w == y,
{
    assert((y * w + x) % w == x && (y * w + x) / w == y) by (nonlinear_arith)
        requires
            0 < w,
            0 <= x < w,
            0 <= y,
    ;
}

/// How many flags of a table are set.
pub open spec fn count_true(s: Seq<bool>) -> nat
    decreases s.len(),
{
    if s.len() == 0 {
        0
    } else {
        count_true(s.drop_last()) + if s.last() {
            1nat
        } else {
            0nat
        }
    }
}

/// No more flags are set than the table holds.
proof fn lemma_count_true_le(s: Seq<bool>)
    ensures
        count_true(s) <= s.len(),
    decreases s.len(),
{
    if s.len() > 0 {
        lemma_count_true_le(s.drop_last());
    }
}

/// A table with a cleared flag has fewer set flags than entries.
proof fn lemma_count_true_lt(s: Seq<bool>, i: int)
    requires
        0 <= i < s.len(),
        !s[i],
    ensures
        count_true(s) < s.len(),
    decreases s.len(),
{
    if i == s.len() - 1 {
        lemma_count_true_le(s.drop_last());
    } else {
        lemma_count_true_lt(s.drop_last(), i);
    }
}

/// Setting a cleared flag raises the count by one.
proof fn lemma_count_true_set(s: Seq<bool>, i: int)
    requires
        0 <= i < s.len(),
        !s[i],
    ensures
        count_true(s.update(i, true)) == count_true(s) + 1,
    decreases s.len(),
{
    if i == s.len() - 1 {
        assert(s.update(i, true).drop_last() =~= s.drop_last());
    } else {
        lemma_count_true_set(s.drop_last(), i);
        assert(s.update(i, true).drop_last() =~= s.drop_last().update(i, true));
        assert(s.update(i, true).last() == s.last());
    }
}

/// An all-cleared table has no flags set.
proof fn lemma_count_true_zero(s: Seq<bool>)
    requires
        forall|j: int| 0 <= j < s.len() ==> !s[j],
    ensures
        count_true(s) == 0,
    decreases s.len(),
{
    if s.len() > 0 {
        lemma_count_true_zero(s.drop_last());
    }
}

/// Decomposing a row-major index built from in-range coordinates gives
/// the coordinates back.
pub proof fn lemma_idx_decompose_pub(w: int, x: int, y: int)
    requires
        0 < w,
        0 <= x < w,
        0 <= y,
    ensures
        (y * w + x) % w == x,
        (y * w + x) / w == y,
{
    lemma_idx_decompose(w, x, y);
}

/// The tiles reachable from `start` over walkable tiles: a flood fill.
/// Every marked tile is walkable and has an all-marked walk from `start`;
/// no walkable tile adjacent to a marked tile stays unmarked.
#[verifier::rlimit(100)]
#[verifier::spinoff_prover]
pub fn flood_fill(map: &LevelMap, start: usize) -> (visited: Vec<bool>)
    requires
        map.wf(),
        start < map.tiles@.len(),
        spec_tile_walkable(map.tiles@[start as int]),
    ensures
        visited@.len() == map.tiles@.len(),
        visited@[start as int],
        forall|t: int|
            0 <= t < visited@.len() && visited@[t] ==> spec_tile_walkable(map.tiles@[t]),
        forall|t: int|
            0 <= t < visited@.len() && visited@[t] ==> exists|p: Seq<int>|
                spec_is_visited_path(visited@, map.width as int, p, start as int, t),
        forall|a: int, b: int|
            0 <= a < visited@.len() && visited@[a] && 0 <= b < visited@.len() && spec_adjacent(
                map.width as int,
                a,
                b,
            ) && spec_tile_walkable(map.tiles@[b]) ==> visited@[b],
{
    let count = map.tiles.len();
    let mut visited: Vec<bool> = Vec::new();
    let mut i: usize = 0;
    while i < count
        invariant
            i <= count,
            visited@.len() == i,
            forall|j: int| 0 <= j < i ==> !visited@[j],
        decreases count - i,
    {
        visited.push(false);
        i = i + 1;
    }
    let mut frontier: Vec<usize> = Vec::new();
    let mut head: usize = 0;
    let mut remaining: usize = count;
    proof {
        lemma_count_true_zero(visited@);
        lemma_count_true_set(visited@, start as int);
    }
    visited[start] = true;
    frontier.push(start);
    remaining = remaining - 1;
    proof {
        let p0 = seq![start as int];
        assert(spec_is_visited_path(visited@, map.width as int, p0, start as int, start as int));
        assert(frontier@[0] == start);
    }
    loop
        invariant
            map.wf(),
            count == map.tiles@.len(),
            start < count,
            visited@.len() == count,
            head <= frontier@.len(),
            visited@[start as int],
            remaining == count - count_true(visited@),
            forall|k: int| 0 <= k < frontier@.len() ==> #[trigger] frontier@[k] < count,
            forall|k: int| 0 <= k < frontier@.len() ==> visited@[#[trigger] frontier@[k] as int],
            forall|t: int|
                0 <= t < count && visited@[t] ==> spec_tile_walkable(map.tiles@[t]),
            forall|t: int|
                0 <= t < count && visited@[t] ==> exists|p: Seq<int>|
                    spec_is_visited_path(visited@, map.width as int, p, start as int, t),
            forall|t: int|
                0 <= t < count && visited@[t] ==> ((exists|k: int|
                    head <= k < frontier@.len() && #[trigger] frontier@[k] == t) || (forall|b: int|
                    0 <= b < count && spec_adjacent(map.width as int, t, b) && spec_tile_walkable(
                        map.tiles@[b],
                    ) ==> visited@[b])),
        ensures
            head >= frontier@.len(),
            visited@.len() == count,
            visited@[start as int],
            forall|t: int|
                0 <= t < count && visited@[t] ==> spec_tile_walkable(map.tiles@[t]),
            forall|t: int|
                0 <= t < count && visited@[t] ==> exists|p: Seq<int>|
                    spec_is_visited_path(visited@, map.width as int, p, start as int, t),
            forall|a: int, b: int|
                0 <= a < count && visited@[a] && 0 <= b < count && spec_adjacent(
                    map.width as int,
                    a,
                    b,
                ) && spec_tile_walkable(map.tiles@[b]) ==> visited@[b],
        decreases remaining, frontier@.len() - head,
    {
        if head >= frontier.len() {
            proof {
                assert forall|a: int, b: int|
                    0 <= a < count && visited@[a] && 0 <= b < count && spec_adjacent(
                        map.width as int,
                        a,
                        b,
                    ) && spec_tile_walkable(map.tiles@[b]) implies visited@[b] by {}
            }
            break ;
        }
        let ghost head_top = head as int;
        let cur = frontier[head];
        head = head + 1;
        let w = map.width as usize;
        proof {
            assert(w >= 1);
        }
        let cxu = cur % w;
        let cyu = cur / w;
        proof {
            assert(cyu < map.height) by (nonlinear_arith)
                requires
                    cyu == cur as int / (w as int),
                    cur < count,
                    count == map.width * map.height,
                    w == map.width,
                    w >= 1,
            ;
            assert(cxu < w);
        }
        let cx = cxu as i32;
        let cy = cyu as i32;
        let ghost visited_at_pop = visited@;
        let ghost frontier_at_pop = frontier@;
        let ghost remaining_at_pop = remaining as int;
        let mut dir: usize = 0;
        while dir < 8
            invariant
                map.wf(),
                count == map.tiles@.len(),
                start < count,
                visited@.len() == count,
                head <= frontier@.len(),
                visited@[start as int],
                cur < count,
                w == map.width,
                cx == cur as int % map.width as int,
                cy == cur as int / map.width as int,
                0 <= cx < map.width,
                0 <= cy < map.height,
                visited@[cur as int],
                dir <= 8,
                forall|t: int| 0 <= t < count && visited_at_pop[t] ==> visited@[t],
                remaining == count - count_true(visited@),
                remaining < remaining_at_pop || visited@ == visited_at_pop,
                visited@ == visited_at_pop ==> frontier@ == frontier_at_pop && remaining
                    == remaining_at_pop,
                frontier@.len() >= frontier_at_pop.len(),
                forall|k: int|
                    0 <= k < frontier_at_pop.len() ==> #[trigger] frontier@[k] == frontier_at_pop[k],
                forall|k: int| 0 <= k < frontier@.len() ==> #[trigger] frontier@[k] < count,
                forall|k: int|
                    0 <= k < frontier@.len() ==> visited@[#[trigger] frontier@[k] as int],
                forall|t: int|
                    0 <= t < count && visited@[t] ==> spec_tile_walkable(map.tiles@[t]),
                forall|t: int|
                    0 <= t < count && visited@[t] ==> exists|p: Seq<int>|
                        spec_is_visited_path(visited@, map.width as int, p, start as int, t),
                forall|t: int|
                    0 <= t < count && visited@[t] && !visited_at_pop[t] ==> exists|k: int|
                        head <= k < frontier@.len() && #[trigger] frontier@[k] == t,
                forall|b: int|
                    0 <= b < count && spec_adjacent(map.width as int, cur as int, b)
                        && spec_tile_walkable(map.tiles@[b]) && covered_direction(
                        cx as int,
                        cy as int,
                        b,
                        map.width as int,
                        dir as int,
                    ) ==> visited@[b],
            decreases 8 - dir,
        {
            let (dx, dy): (i32, i32) = if dir == 0 {
                (-1, 0)
            } else if dir == 1 {
                (1, 0)
            } else if dir == 2 {
                (0, -1)
            } else if dir == 3 {
                (0, 1)
            } else if dir == 4 {
                (-1, -1)
            } else if dir == 5 {
                (1, -1)
            } else if dir == 6 {
                (-1, 1)
            } else {
                (1, 1)
            };
            let nx = cx + dx;
            let ny = cy + dy;
            if 0 <= nx && nx < map.width && 0 <= ny && ny < map.height {
                let nb = map.xy_idx(nx, ny);
                proof {
                    lemma_idx_decompose(map.width as int, nx as int, ny as int);
                }
                if tile_walkable(map.tiles[nb]) && !visited[nb] {
                    let ghost before = visited@;
                    let ghost frontier_before = frontier@;
                    proof {
                        lemma_count_true_lt(before, nb as int);
                        lemma_count_true_set(before, nb as int);
                    }
                    visited[nb] = true;
                    frontier.push(nb);
                    remaining = remaining - 1;
                    proof {
                        assert(frontier@[frontier@.len() - 1] == nb);
                        assert forall|t: int|
                            0 <= t < count && visited@[t] && !visited_at_pop[t] implies exists|
                            k: int,
                        |
                            head <= k < frontier@.len() && #[trigger] frontier@[k] == t by {
                            if t == nb as int {
                                assert(head <= frontier@.len() - 1);
                                assert(frontier@[frontier@.len() - 1] == t);
                            } else {
                                assert(before[t] && !visited_at_pop[t]);
                                let k0 = choose|k: int|
                                    head <= k < frontier_before.len()
                                        && #[trigger] frontier_before[k] == t;
                                assert(frontier@[k0] == frontier_before[k0]);
                                assert(frontier@[k0] == t);
                            }
                        }
                        assert forall|t: int|
                            0 <= t < count && visited@[t] implies exists|p: Seq<int>|
                                spec_is_visited_path(
                                    visited@,
                                    map.width as int,
                                    p,
                                    start as int,
                                    t,
                                ) by {
                            if t == nb as int {
                                let pc = choose|p: Seq<int>|
                                    spec_is_visited_path(
                                        before,
                                        map.width as int,
                                        p,
                                        start as int,
                                        cur as int,
                                    );
                                lemma_visited_path_monotone(
                                    before,
                                    visited@,
                                    map.width as int,
                                    pc,
                                    start as int,
                                    cur as int,
                                );
                                let pn = pc.push(nb as int);
                                assert(spec_is_visited_path(
                                    visited@,
                                    map.width as int,
                                    pn,
                                    start as int,
                                    nb as int,
                                ));
                            } else {
                                let pt = choose|p: Seq<int>|
                                    spec_is_visited_path(
                                        before,
                                        map.width as int,
                                        p,
                                        start as int,
                                        t,
                                    );
                                lemma_visited_path_monotone(
                                    before,
                                    visited@,
                                    map.width as int,
                                    pt,
                                    start as int,
                                    t,
                                );
                            }
                        }
                    }
                }
                proof {
                    assert forall|b: int|
                        0 <= b < count && spec_adjacent(map.width as int, cur as int, b)
                            && spec_tile_walkable(map.tiles@[b]) && covered_direction(
                            cx as int,
                            cy as int,
                            b,
                            map.width as int,
                            dir as int + 1,
                        ) implies visited@[b] by {
                        if !covered_direction(
                            cx as int,
                            cy as int,
                            b,
                            map.width as int,
                            dir as int,
                        ) {
                            assert(b % (map.width as int) == nx && b / (map.width as int) == ny);
                            assert(b == (b / (map.width as int)) * (map.width as int) + b % (
                            map.width as int)) by (nonlinear_arith)
                                requires
                                    map.width as int >= 1,
                                    0 <= b,
                            ;
                            assert(b == nb);
                        }
                    }
                }
            } else {
                proof {
                    assert forall|b: int|
                        0 <= b < count && spec_adjacent(map.width as int, cur as int, b)
                            && spec_tile_walkable(map.tiles@[b]) && covered_direction(
                            cx as int,
                            cy as int,
                            b,
                            map.width as int,
                            dir as int + 1,
                        ) implies visited@[b] by {
                        if !covered_direction(
                            cx as int,
                            cy as int,
                            b,
                            map.width as int,
                            dir as int,
                        ) {
                            assert(b % (map.width as int) == nx && b / (map.width as int) == ny);
                            assert(0 <= b % (map.width as int) < map.width as int)
                                by (nonlinear_arith)
                                requires
                                    map.width as int >= 1,
                                    0 <= b,
                            ;
                            if ny >= map.height {
                                assert(b >= (map.height as int) * (map.width as int))
                                    by (nonlinear_arith)
                                    requires
                                        b / (map.width as int) >= map.height as int,
                                        map.width as int >= 1,
                                        0 <= b,
                                ;
                                assert((map.height as int) * (map.width as int) == count)
                                    by (nonlinear_arith)
                                    requires
                                        count == (map.width as int) * (map.height as int),
                                ;
                                assert(false);
                            } else {
                                assert(b / (map.width as int) >= 0) by (nonlinear_arith)
                                    requires
                                        map.width as int >= 1,
                                        0 <= b,
                                ;
                                assert(false);
                            }
                        }
                    }
                }
            }
            dir = dir + 1;
        }
        proof {
            assert forall|t: int|
                0 <= t < count && visited@[t] implies ((exists|k: int|
                head <= k < frontier@.len() && #[trigger] frontier@[k] == t) || (forall|b: int|
                0 <= b < count && spec_adjacent(map.width as int, t, b) && spec_tile_walkable(
                    map.tiles@[b],
                ) ==> visited@[b])) by {
                if t == cur as int {
                    assert(cur as int == (cy as int) * (map.width as int) + cx as int)
                        by (nonlinear_arith)
                        requires
                            map.width as int >= 1,
                            0 <= cur as int,
                            cx == cur as int % map.width as int,
                            cy == cur as int / map.width as int,
                    ;
                    assert forall|b: int|
                        0 <= b < count && spec_adjacent(map.width as int, cur as int, b)
                            && spec_tile_walkable(map.tiles@[b]) implies visited@[b] by {
                        lemma_covered_all(cx as int, cy as int, b, map.width as int);
                    }
                } else if visited_at_pop[t] {
                    if exists|k: int|
                        head_top <= k < frontier_at_pop.len() && frontier_at_pop[k] == t {
                        let k0 = choose|k: int|
                            head_top <= k < frontier_at_pop.len() && frontier_at_pop[k] == t;
                        if k0 == head_top {
                            assert(t == cur as int);
                        } else {
                            assert(frontier@[k0] == t);
                        }
                    } else {
                        assert forall|b: int|
                            0 <= b < count && spec_adjacent(map.width as int, t, b)
                                && spec_tile_walkable(map.tiles@[b]) implies visited@[b] by {
                            assert(visited_at_pop[b]);
                        }
                    }
                }
            }
        }
    }
    visited
}

/// Whether the neighbour `b` of the tile at `(cx, cy)` lies in one of the
/// first `dir` directions the expansion walks through.
pub open spec fn covered_direction(cx: int, cy: int, b: int, width: int, dir: int) -> bool {
    let bx = b % width;
    let by = b / width;
    ||| (dir > 0 && bx == cx - 1 && by == cy)
    ||| (dir > 1 && bx == cx + 1 && by == cy)
    ||| (dir > 2 && bx == cx && by == cy - 1)
    ||| (dir > 3 && bx == cx && by == cy + 1)
    ||| (dir > 4 && bx == cx - 1 && by == cy - 1)
    ||| (dir > 5 && bx == cx + 1 && by == cy - 1)
    ||| (dir > 6 && bx == cx - 1 && by == cy + 1)
    ||| (dir > 7 && bx == cx + 1 && by == cy + 1)
}

/// After the eighth direction every adjacent tile is covered.
proof fn lemma_covered_all(cx: int, cy: int, b: int, width: int)
    requires
        width > 0,
        b >= 0,
        spec_adjacent(width, cy * width + cx, b),
        0 <= cx < width,
        0 <= cy,
        (cy * width + cx) % width == cx,
        (cy * width + cx) / width == cy,
    ensures
        covered_direction(cx, cy, b, width, 8),
{
    let bx = b % width;
    let by = b / width;
    assert(0 <= bx < width && by >= 0 && b == by * width + bx) by (nonlinear_arith)
        requires
            width > 0,
            b >= 0,
            bx == b % width,
            by == b / width,
    ;
}



/// Convert every unreachable walkable tile to a wall. Afterwards the map
/// is fully connected from `start`: every walkable tile has a walk from
/// it. Tiles that stay walkable are untouched.
pub fn cull_unreachable_tiles(map: &mut LevelMap, start: usize)
    requires
        old(map).wf(),
        start < old(map).tiles@.len(),
        spec_tile_walkable(old(map).tiles@[start as int]),
    ensures
        final(map).wf(),
        *final(map) == (LevelMap { tiles: final(map).tiles, ..*old(map) }),
        final(map).tiles@.len() == old(map).tiles@.len(),
        spec_tile_walkable(final(map).tiles@[start as int]),
        spec_fully_connected(final(map).tiles@, final(map).width as int, start as int),
        forall|t: int|
            0 <= t < final(map).tiles@.len() && spec_tile_walkable(final(map).tiles@[t])
                ==> final(map).tiles@[t] == old(map).tiles@[t],
        forall|t: int|
            0 <= t < final(map).tiles@.len() && !spec_tile_walkable(old(map).tiles@[t])
                ==> final(map).tiles@[t] == old(map).tiles@[t],
{
    let visited = flood_fill(map, start);
    let count = map.tiles.len();
    let ghost tiles0 = map.tiles@;
    let mut t: usize = 0;
    while t < count
        invariant
            map.wf(),
            count == map.tiles@.len(),
            visited@.len() == count,
            t <= count,
            *map == (LevelMap { tiles: map.tiles, ..*old(map) }),
            forall|j: int| t <= j < count ==> map.tiles@[j] == tiles0[j],
            forall|j: int| 0 <= j < t ==> #[trigger] map.tiles@[j] == if visited@[j] {
                tiles0[j]
            } else if spec_tile_walkable(tiles0[j]) {
                TileType::Wall
            } else {
                tiles0[j]
            },
        decreases count - t,
    {
        if tile_walkable(map.tiles[t]) && !visited[t] {
            map.tiles[t] = TileType::Wall;
        }
        t = t + 1;
    }
    proof {
        assert forall|u: int|
            0 <= u < count && visited@[u] implies spec_tile_walkable(map.tiles@[u])
            && map.tiles@[u] == tiles0[u] by {}
        assert forall|u: int|
            0 <= u < count && spec_tile_walkable(map.tiles@[u]) implies visited@[u] by {}
        assert forall|u: int|
            0 <= u < count && spec_tile_walkable(#[trigger] map.tiles@[u]) implies spec_reachable(
            map.tiles@,
            map.width as int,
            start as int,
            u,
        ) by {
            let p = choose|p: Seq<int>|
                spec_is_visited_path(visited@, map.width as int, p, start as int, u);
            lemma_visited_path_to_map_path(
                visited@,
                map.tiles@,
                map.width as int,
                p,
                start as int,
                u,
            );
        }
    }
}

/// A named horizontal region of the map.
#[derive(Clone, Copy, Debug, PartialEq, Eq, Structural)]
pub enum XStart {
    Left,
    Center,
    Right,
}

/// A named vertical region of the map.
#[derive(Clone, Copy, Debug, PartialEq, Eq, Structural)]
pub enum YStart {
    Top,
    Center,
    Bottom,
}

/// A named horizontal edge of the map.
#[derive(Clone, Copy, Debug, PartialEq, Eq, Structural)]
pub enum XEnd {
    Left,
    Center,
    Right,
}

/// A named vertical edge of the map.
#[derive(Clone, Copy, Debug, PartialEq, Eq, Structural)]
pub enum YEnd {
    Top,
    Center,
    Bottom,
}

/// The squared Euclidean distance from a tile to a point.
pub open spec fn spec_tile_dist2(w: int, t: int, tx: int, ty: int) -> int {
    (t % w - tx) * (t % w - tx) + (t / w - ty) * (t / w - ty)
}

/// Along a walkable walk from a visited start, closure keeps every step
/// visited: a reachable tile cannot stay unvisited.
pub proof fn lemma_path_all_visited(
    tiles: Seq<TileType>,
    width: int,
    visited: Seq<bool>,
    p: Seq<int>,
    start: int,
    t: int,
)
    requires
        spec_is_path(tiles, width, p, start, t),
        visited.len() == tiles.len(),
        0 <= start < visited.len(),
        visited[start],
        forall|a: int, b: int|
            0 <= a < visited.len() && visited[a] && 0 <= b < visited.len() && spec_adjacent(
                width,
                a,
                b,
            ) && spec_tile_walkable(tiles[b]) ==> visited[b],
    ensures
        visited[t],
    decreases p.len(),
{
    if p.len() == 1 {
        assert(p[0] == start && p.last() == t);
    } else {
        let q = p.drop_last();
        assert(q.last() == p[p.len() - 2]);
        assert forall|i: int| 0 <= i < q.len() implies 0 <= #[trigger] q[i] < tiles.len() by {
            assert(q[i] == p[i]);
        }
        assert forall|i: int|
            0 <= i < q.len() implies spec_tile_walkable(tiles[#[trigger] q[i]]) by {
            assert(q[i] == p[i]);
        }
        assert forall|i: int|
            0 <= i < q.len() - 1 implies spec_adjacent(width, #[trigger] q[i], q[i + 1]) by {
            assert(q[i] == p[i] && q[i + 1] == p[i + 1]);
        }
        assert(spec_is_path(tiles, width, q, start, p[p.len() - 2]));
        lemma_path_all_visited(tiles, width, visited, q, start, p[p.len() - 2]);
        assert(spec_adjacent(width, p[p.len() - 2], p[p.len() - 1]));
        assert(p.last() == p[p.len() - 1]);
    }
}

/// The walkable tile nearest to a target point, by squared Euclidean
/// distance.
pub fn nearest_walkable(map: &LevelMap, tx: i32, ty: i32) -> (r: Option<usize>)
    requires
        map.wf(),
    ensures
        r matches Option::Some(idx) ==> idx < map.tiles@.len() && spec_tile_walkable(
            map.tiles@[idx as int],
        ) && forall|t: int|
            0 <= t < map.tiles@.len() && spec_tile_walkable(#[trigger] map.tiles@[t])
                ==> spec_tile_dist2(map.width as int, idx as int, tx as int, ty as int)
                <= spec_tile_dist2(map.width as int, t, tx as int, ty as int),
        r is None ==> forall|t: int|
            0 <= t < map.tiles@.len() ==> !spec_tile_walkable(map.tiles@[t]),
{
    let count = map.tiles.len();
    let w = map.width as usize;
    let mut best: Option<usize> = Option::None;
    let mut best_dist: i128 = 0;
    let mut t: usize = 0;
    while t < count
        invariant
            map.wf(),
            count == map.tiles@.len(),
            w == map.width,
            t <= count,
            best matches Option::Some(idx) ==> idx < count && spec_tile_walkable(
                map.tiles@[idx as int],
            ) && best_dist == spec_tile_dist2(
                map.width as int,
                idx as int,
                tx as int,
                ty as int,
            ) && forall|j: int|
                0 <= j < t && spec_tile_walkable(#[trigger] map.tiles@[j]) ==> best_dist
                    <= spec_tile_dist2(map.width as int, j, tx as int, ty as int),
            best is None ==> forall|j: int|
                0 <= j < t ==> !spec_tile_walkable(map.tiles@[j]),
        decreases count - t,
    {
        if tile_walkable(map.tiles[t]) {
            proof {
                lemma_idx_bounds(t as int, map.width as int, map.height as int);
            }
            let x = (t % w) as i32;
            let y = (t / w) as i32;
            let dx = (x as i128) - (tx as i128);
            let dy = (y as i128) - (ty as i128);
            proof {
                assert(0 <= dx * dx <= 0x100000000i128 * 0x100000000 && 0 <= dy * dy
                    <= 0x100000000i128 * 0x100000000) by (nonlinear_arith)
                    requires
                        -0x100000000 <= dx <= 0x100000000,
                        -0x100000000 <= dy <= 0x100000000,
                ;
            }
            let dist = dx * dx + dy * dy;
            let better = match best {
                Option::None => true,
                Option::Some(_) => dist < best_dist,
            };
            if better {
                best = Option::Some(t);
                best_dist = dist;
            }
        }
        t = t + 1;
    }
    best
}

/// Pick the starting position: the walkable tile nearest the named region
/// of the map.
pub fn area_starting_position(data: &mut crate::map_builders::BuilderMap, x: XStart, y: YStart)
    requires
        old(data).wf(),
    ensures
        final(data).wf(),
        final(data).map == old(data).map,
        final(data).spawn_list == old(data).spawn_list,
        final(data).starting_position matches Option::Some(pos) ==> {
            &&& 0 <= pos.x < final(data).map.width
            &&& 0 <= pos.y < final(data).map.height
            &&& spec_tile_walkable(
                final(data).map.tiles@[crate::map::spec_xy_idx(
                    final(data).map.width as int,
                    pos.x as int,
                    pos.y as int,
                )],
            )
        },
        final(data).starting_position is None ==> forall|t: int|
            0 <= t < final(data).map.tiles@.len() ==> !spec_tile_walkable(
                final(data).map.tiles@[t],
            ),
{
    let tx = match x {
        XStart::Left => 1,
        XStart::Center => data.map.width / 2,
        XStart::Right => data.map.width - 2,
    };
    let ty = match y {
        YStart::Top => 1,
        YStart::Center => data.map.height / 2,
        YStart::Bottom => data.map.height - 2,
    };
    match nearest_walkable(&data.map, tx, ty) {
        Option::Some(idx) => {
            let w = data.map.width as usize;
            let px = (idx % w) as i32;
            let py = (idx / w) as i32;
            proof {
                lemma_idx_bounds(idx as int, data.map.width as int, data.map.height as int);
                lemma_idx_decompose(data.map.width as int, px as int, py as int);
            }
            data.starting_position = Option::Some(Position { x: px, y: py });
        },
        Option::None => {
            data.starting_position = Option::None;
        },
    }
}

/// An in-range index decomposes to in-range coordinates which recompose
/// to it.
pub proof fn lemma_idx_bounds(idx: int, w: int, h: int)
    requires
        0 < w,
        0 < h,
        0 <= idx < w * h,
    ensures
        0 <= idx % w < w,
        0 <= idx / w < h,
        (idx / w) * w + idx % w == idx,
{
    assert(0 <= idx % w < w && 0 <= idx / w < h && (idx / w) * w + idx % w == idx)
        by (nonlinear_arith)
        requires
            0 < w,
            0 < h,
            0 <= idx < w * h,
    ;
}

/// Pick the level exit: the walkable tile nearest the named edge becomes
/// the downward staircase; a map without walkable tiles is untouched.
pub fn area_ending_position(data: &mut crate::map_builders::BuilderMap, x: XEnd, y: YEnd)
    requires
        old(data).wf(),
    ensures
        final(data).wf(),
        final(data).map.width == old(data).map.width,
        final(data).map.height == old(data).map.height,
        final(data).map.depth == old(data).map.depth,
        final(data).map.tiles@.len() == old(data).map.tiles@.len(),
        final(data).spawn_list == old(data).spawn_list,
        final(data).starting_position == old(data).starting_position,
        (exists|t: int|
            0 <= t < old(data).map.tiles@.len() && spec_tile_walkable(
                #[trigger] old(data).map.tiles@[t],
            )) ==> exists|idx: int|
            {
                &&& 0 <= idx < old(data).map.tiles@.len()
                &&& spec_tile_walkable(old(data).map.tiles@[idx])
                &&& final(data).map.tiles@ == old(data).map.tiles@.update(
                    idx,
                    TileType::DownStairs,
                )
            },
        !(exists|t: int|
            0 <= t < old(data).map.tiles@.len() && spec_tile_walkable(
                #[trigger] old(data).map.tiles@[t],
            )) ==> final(data).map.tiles@ == old(data).map.tiles@,
        forall|t: int|
            0 <= t < final(data).map.tiles@.len() ==> spec_tile_walkable(
                #[trigger] final(data).map.tiles@[t],
            ) == spec_tile_walkable(old(data).map.tiles@[t]),
{
    let tx = match x {
        XEnd::Left => 1,
        XEnd::Center => data.map.width / 2,
        XEnd::Right => data.map.width - 2,
    };
    let ty = match y {
        YEnd::Top => 1,
        YEnd::Center => data.map.height / 2,
        YEnd::Bottom => data.map.height - 2,
    };
    match nearest_walkable(&data.map, tx, ty) {
        Option::Some(idx) => {
            data.map.tiles[idx] = TileType::DownStairs;
            proof {
                assert(data.map.tiles@ =~= old(data).map.tiles@.update(
                    idx as int,
                    TileType::DownStairs,
                ));
                assert forall|t: int|
                    0 <= t < data.map.tiles@.len() implies spec_tile_walkable(
                    #[trigger] data.map.tiles@[t],
                ) == spec_tile_walkable(old(data).map.tiles@[t]) by {}
            }
        },
        Option::None => {
        },
    }
}

/// Pick the level exit: among the walkable tiles reachable from the
/// starting position, the one farthest away by squared Euclidean distance
/// becomes the downward staircase. Without a usable start, or on an
/// unreachable map, nothing changes.
pub fn distant_exit(data: &mut crate::map_builders::BuilderMap)
    requires
        old(data).wf(),
    ensures
        final(data).wf(),
        final(data).map.width == old(data).map.width,
        final(data).map.height == old(data).map.height,
        final(data).map.depth == old(data).map.depth,
        final(data).map.tiles@.len() == old(data).map.tiles@.len(),
        final(data).spawn_list == old(data).spawn_list,
        final(data).starting_position == old(data).starting_position,
        forall|t: int|
            0 <= t < final(data).map.tiles@.len() ==> spec_tile_walkable(
                #[trigger] final(data).map.tiles@[t],
            ) == spec_tile_walkable(old(data).map.tiles@[t]),
        spec_usable_start(*old(data)) ==> exists|idx: int|
            {
                &&& 0 <= idx < old(data).map.tiles@.len()
                &&& spec_tile_walkable(old(data).map.tiles@[idx])
                &&& spec_reachable(
                    old(data).map.tiles@,
                    old(data).map.width as int,
                    spec_start_idx(*old(data)),
                    idx,
                )
                &&& final(data).map.tiles@ == old(data).map.tiles@.update(
                    idx,
                    TileType::DownStairs,
                )
                &&& forall|t: int|
                    0 <= t < old(data).map.tiles@.len() && spec_tile_walkable(
                        #[trigger] old(data).map.tiles@[t],
                    ) && spec_reachable(
                        old(data).map.tiles@,
                        old(data).map.width as int,
                        spec_start_idx(*old(data)),
                        t,
                    ) ==> spec_tile_dist2(
                        old(data).map.width as int,
                        t,
                        old(data).starting_position->Some_0.x as int,
                        old(data).starting_position->Some_0.y as int,
                    ) <= spec_tile_dist2(
                        old(data).map.width as int,
                        idx,
                        old(data).starting_position->Some_0.x as int,
                        old(data).starting_position->Some_0.y as int,
                    )
            },
        !spec_usable_start(*old(data)) ==> final(data).map.tiles@ == old(data).map.tiles@,
{
    let pos = match data.starting_position {
        Option::Some(p) => p,
        Option::None => {
            return ;
        },
    };
    if !(0 <= pos.x && pos.x < data.map.width && 0 <= pos.y && pos.y < data.map.height) {
        return ;
    }
    let start = data.map.xy_idx(pos.x, pos.y);
    if !tile_walkable(data.map.tiles[start]) {
        return ;
    }
    let visited = flood_fill(&data.map, start);
    let count = data.map.tiles.len();
    let w = data.map.width as usize;
    let mut best: usize = start;
    let mut best_dist: i128 = -1;
    let mut t: usize = 0;
    while t < count
        invariant
            data.map.wf(),
            count == data.map.tiles@.len(),
            visited@.len() == count,
            w == data.map.width,
            start < count,
            visited@[start as int],
            0 <= pos.x < data.map.width,
            0 <= pos.y < data.map.height,
            t <= count,
            forall|j: int|
                0 <= j < count && visited@[j] ==> spec_tile_walkable(data.map.tiles@[j]),
            forall|j: int|
                0 <= j < count && visited@[j] ==> exists|p: Seq<int>|
                    spec_is_visited_path(visited@, data.map.width as int, p, start as int, j),
            best < count,
            best_dist >= 0 ==> visited@[best as int] && best_dist == spec_tile_dist2(
                w as int,
                best as int,
                pos.x as int,
                pos.y as int,
            ),
            best_dist >= 0 ==> forall|j: int|
                0 <= j < t && visited@[j] ==> spec_tile_dist2(
                    w as int,
                    j,
                    pos.x as int,
                    pos.y as int,
                ) <= best_dist,
            best_dist < 0 ==> forall|j: int| 0 <= j < t ==> !visited@[j],
        decreases count - t,
    {
        if visited[t] {
            proof {
                lemma_idx_bounds(t as int, data.map.width as int, data.map.height as int);
            }
            let x = (t % w) as i32;
            let y = (t / w) as i32;
            let dx = (x as i128) - (pos.x as i128);
            let dy = (y as i128) - (pos.y as i128);
            proof {
                assert(0 <= dx * dx <= 0x100000000i128 * 0x100000000 && 0 <= dy * dy
                    <= 0x100000000i128 * 0x100000000) by (nonlinear_arith)
                    requires
                        -0x100000000 <= dx <= 0x100000000,
                        -0x100000000 <= dy <= 0x100000000,
                ;
            }
            let dist = dx * dx + dy * dy;
            if dist > best_dist {
                best = t;
                best_dist = dist;
            }
        }
        t = t + 1;
    }
    proof {
        assert(visited@[start as int] && best_dist >= 0);
    }
    let idx = best;
    data.map.tiles[idx] = TileType::DownStairs;
    proof {
        assert(data.map.tiles@ =~= old(data).map.tiles@.update(idx as int, TileType::DownStairs));
        assert forall|u: int|
            0 <= u < data.map.tiles@.len() implies spec_tile_walkable(
            #[trigger] data.map.tiles@[u],
        ) == spec_tile_walkable(old(data).map.tiles@[u]) by {}
        // The chosen tile is reachable, and every reachable tile is no
        // farther: reachable tiles are exactly the flood-visited ones.
        let tiles0 = old(data).map.tiles@;
        let w0 = old(data).map.width as int;
        let p = choose|p: Seq<int>|
            spec_is_visited_path(visited@, w0, p, start as int, idx as int);
        lemma_visited_path_to_map_path(visited@, tiles0, w0, p, start as int, idx as int);
        assert(spec_reachable(tiles0, w0, start as int, idx as int));
        assert forall|u: int|
            0 <= u < tiles0.len() && spec_tile_walkable(#[trigger] tiles0[u]) && spec_reachable(
                tiles0,
                w0,
                start as int,
                u,
            ) implies spec_tile_dist2(w0, u, pos.x as int, pos.y as int) <= spec_tile_dist2(
            w0,
            idx as int,
            pos.x as int,
            pos.y as int,
        ) by {
            let q = choose|q: Seq<int>| spec_is_path(tiles0, w0, q, start as int, u);
            lemma_path_all_visited(tiles0, w0, visited@, q, start as int, u);
        }
    }
}

/// Whether the context's starting position names a walkable in-bounds tile.
pub open spec fn spec_usable_start(data: crate::map_builders::BuilderMap) -> bool {
    &&& data.starting_position matches Option::Some(pos)
    &&& 0 <= data.starting_position->Some_0.x < data.map.width
    &&& 0 <= data.starting_position->Some_0.y < data.map.height
    &&& spec_tile_walkable(data.map.tiles@[spec_start_idx(data)])
}

/// The tile index of the context's starting position.
pub open spec fn spec_start_idx(data: crate::map_builders::BuilderMap) -> int {
    crate::map::spec_xy_idx(
        data.map.width as int,
        data.starting_position->Some_0.x as int,
        data.starting_position->Some_0.y as int,
    )
}

} // verus!
