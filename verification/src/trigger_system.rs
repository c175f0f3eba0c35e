//! Entry-trigger detection: an entity that moved onto a tile with a trap
//! or portal fires it through the effects queue.

use vstd::prelude::*;
use vstd::string::StringExecFns;
use crate::components::GameLog;
use crate::effects::{
    EffectQueue, EffectSpawner, EffectType, Targets, add_effect, effect_view, EffectTypeV,
};
use crate::geometry::within_distance;
use crate::map::LevelMap;
use crate::spatial::SpatialIndex;
use crate::world::World;

verus! {

/// The in-bounds tiles within a Euclidean radius of a centre tile: the
/// blast disc an area trigger covers.
pub fn disc_tiles(map: &LevelMap, center_idx: usize, radius: i32) -> (r: Vec<usize>)
    requires
        map.wf(),
        center_idx < map.tiles@.len(),
        0 <= radius <= 100,
    ensures
        forall|i: int| 0 <= i < r@.len() ==> #[trigger] r@[i] < map.tiles@.len(),
{
    let w = map.width as usize;
    proof {
        crate::map_builders::connectivity::lemma_idx_bounds(
            center_idx as int,
            map.width as int,
            map.height as int,
        );
    }
    let cx = (center_idx % w) as i32;
    let cy = (center_idx / w) as i32;
    let mut tiles: Vec<usize> = Vec::new();
    let mut dy: i32 = -radius;
    while dy <= radius
        invariant
            map.wf(),
            w == map.width,
            0 <= cx < map.width,
            0 <= cy < map.height,
            0 <= radius <= 100,
            dy >= -radius,
            forall|i: int| 0 <= i < tiles@.len() ==> #[trigger] tiles@[i] < map.tiles@.len(),
        decreases radius + 1 - dy,
    {
        let mut dx: i32 = -radius;
        while dx <= radius
            invariant
                map.wf(),
                w == map.width,
                0 <= cx < map.width,
                0 <= cy < map.height,
                0 <= radius <= 100,
                dx >= -radius,
                -radius <= dy <= radius,
                forall|i: int| 0 <= i < tiles@.len() ==> #[trigger] tiles@[i] < map.tiles@.len(),
            decreases radius + 1 - dx,
        {
            let x = cx + dx;
            let y = cy + dy;
            if 0 <= x && x < map.width && 0 <= y && y < map.height {
                if within_distance(x, y, cx, cy, radius) {
                    tiles.push(map.xy_idx(x, y));
                }
            }
            dx = dx + 1;
        }
        dy = dy + 1;
    }
    tiles
}

/// Fire every entry trigger a moved entity now stands on: a trigger-fire
/// request is enqueued aimed at the trigger's blast disc, or at the one
/// tile; every moved mark is cleared.
pub fn trigger_detection_pass(
    world: &mut World,
    map: &LevelMap,
    queue: &mut EffectQueue,
    spatial: &SpatialIndex,
    log: &mut GameLog,
)
    requires
        old(world).wf(),
        old(queue).wf(),
        map.wf(),
        spatial.wf(),
    ensures
        final(world).wf(),
        final(queue).wf(),
        final(queue).head == old(queue).head,
        *final(world) == (World { entity_moved: final(world).entity_moved, ..*old(world) }),
        forall|e: int| 0 <= e < old(world).spec_len() ==> !final(world).entity_moved@[e],
        exists|extra: Seq<String>| final(log).entries@ == old(log).entries@ + extra,
        exists|added: Seq<EffectSpawner>|
            {
                &&& final(queue).pending() == old(queue).pending() + added
                &&& forall|i: int|
                    0 <= i < added.len() ==> #[trigger] effect_view(
                        added[i],
                    ).kind matches EffectTypeV::TriggerFire(t)
            },
{
    let n = world.len();
    let ghost base = queue.pending();
    let ghost base_log = log.entries@;
    let ghost added = Seq::<EffectSpawner>::empty();
    proof {
        assert(queue.pending() =~= base + added);
        assert(log.entries@ =~= base_log + Seq::<String>::empty());
    }
    let mut e: usize = 0;
    while e < n
        invariant
            world.wf(),
            queue.wf(),
            map.wf(),
            spatial.wf(),
            queue.head == old(queue).head,
            n == world.spec_len(),
            e <= n,
            base_log == old(log).entries@,
            *world == (World { entity_moved: world.entity_moved, ..*old(world) }),
            forall|j: int| 0 <= j < e ==> !world.entity_moved@[j],
            exists|extra: Seq<String>| log.entries@ == base_log + extra,
            queue.pending() == base + added,
            forall|i: int|
                0 <= i < added.len() ==> #[trigger] effect_view(
                    added[i],
                ).kind matches EffectTypeV::TriggerFire(t),
        decreases n - e,
    {
        let ghost prev_log = log.entries@;
        let moved = world.entity_moved[e] && world.alive[e] && world.position[e].is_some();
        if moved {
            if let Option::Some(idx) = crate::effects::entity_position(world, e, map) {
                if idx < spatial.tile_content.len() {
                    let occupants = spatial.occupants_at(idx);
                    let mut k: usize = 0;
                    while k < occupants.len()
                        invariant
                            world.wf(),
                            queue.wf(),
                            map.wf(),
                            spatial.wf(),
                            queue.head == old(queue).head,
                            n == world.spec_len(),
                            e < n,
                            idx < map.tiles@.len(),
                            *world == (World {
                                entity_moved: world.entity_moved,
                                ..*old(world)
                            }),
                            forall|j: int| 0 <= j < e ==> !world.entity_moved@[j],
                            exists|extra: Seq<String>| log.entries@ == base_log + extra,
                            queue.pending() == base + added,
                            forall|i: int|
                                0 <= i < added.len() ==> #[trigger] effect_view(
                                    added[i],
                                ).kind matches EffectTypeV::TriggerFire(t),
                        decreases occupants@.len() - k,
                    {
                        let ghost prev_log2 = log.entries@;
                        let other = occupants[k];
                        if other != e && other < world.len() {
                            if world.alive[other] && world.entry_trigger[other] {
                                log.push(String::from_str("Cos uruchamia sie pod nogami!"));
                                let targets = if let Option::Some(radius) =
                                    world.area_of_effect[other] {
                                    if 0 <= radius && radius <= 100 {
                                        Targets::Tiles {
                                            tiles: disc_tiles(map, idx, radius),
                                        }
                                    } else {
                                        Targets::Tile { tile_idx: idx }
                                    }
                                } else {
                                    Targets::Tile { tile_idx: idx }
                                };
                                add_effect(
                                    queue,
                                    Option::Some(e),
                                    EffectType::TriggerFire { trigger: other },
                                    targets,
                                );
                                proof {
                                    added = added.push(queue.pending().last());
                                    assert(queue.pending() =~= base + added);
                                }
                            }
                        }
                        proof {
                            let lseg = log.entries@.skip(prev_log2.len() as int);
                            assert(log.entries@ =~= prev_log2 + lseg);
                            let prev_extra = choose|extra: Seq<String>|
                                prev_log2 == base_log + extra;
                            assert(log.entries@ =~= base_log + (prev_extra + lseg));
                        }
                        k = k + 1;
                    }
                }
            }
        }
        world.entity_moved[e] = false;
        e = e + 1;
    }
}

} // verus!
