//! The item, spell and trap trigger translation layer: inspects the
//! capability components of a triggering entity and enqueues the matching
//! effects, tracking whether anything happened so that charges and
//! single-use triggers are consumed only on real use.

use vstd::prelude::*;
use vstd::string::StringExecFns;
use crate::components::{
    Color, Consumable, EntityId, GameLog, KnownSpell, Pool, Pools, RunState, SpawnParticleLine,
};
use crate::effects::{
    EffectQueue, EffectSpawner, EffectType, EffectTypeV, EffectV, Targets, add_effect,
    clone_targets, effect_potential, effect_type_view, effect_view, entity_position,
    queue_potential, targets_bound, targets_view,
};
use crate::gamesystem::{clamped_sub, spec_clamped};
use crate::map::LevelMap;
use crate::world::World;

verus! {

/// Appending one effect adds exactly its fuel.
pub proof fn lemma_qp_push(s: Seq<EffectSpawner>, x: EffectSpawner, cap: nat)
    ensures
        queue_potential(s.push(x), cap) == queue_potential(s, cap) + effect_potential(x, cap),
{
    assert(s.push(x).drop_last() =~= s);
}

/// A particle-only segment carries no fuel.
pub proof fn lemma_qp_particles(s: Seq<EffectSpawner>, cap: nat)
    requires
        forall|j: int| 0 <= j < s.len() ==> s[j].effect_type is Particle,
    ensures
        queue_potential(s, cap) == 0,
    decreases s.len(),
{
    if s.len() > 0 {
        lemma_qp_particles(s.drop_last(), cap);
    }
}

/// Target descriptions with one view expand to equally many entities.
pub proof fn lemma_targets_bound_view(a: Targets, b: Targets, cap: nat)
    requires
        targets_view(a) == targets_view(b),
    ensures
        targets_bound(a, cap) == targets_bound(b, cap),
{
}

/// The kinds of effect a fired trigger may enqueue: never another trigger
/// firing, a death notice or a bloodstain.
pub open spec fn trigger_emitted_type(t: EffectType) -> bool {
    match t {
        EffectType::Particle { .. } => true,
        EffectType::WellFed => true,
        EffectType::Healing { .. } => true,
        EffectType::Mana { .. } => true,
        EffectType::Damage { .. } => true,
        EffectType::Confusion { .. } => true,
        EffectType::TeleportTo { .. } => true,
        EffectType::AttributeEffect { .. } => true,
        EffectType::Slow { .. } => true,
        EffectType::DamageOverTime { .. } => true,
        _ => false,
    }
}

/// Whether inspecting this entity's capabilities counts as something
/// happening, deciding charge use and single-use deletion.
pub open spec fn spec_event_did(w: World, e: int, depth: int) -> bool {
    ||| w.provides_food@[e]
    ||| w.magic_mapper@[e]
    ||| w.provides_identification@[e]
    ||| w.provides_remove_curse@[e]
    ||| (w.town_portal@[e] && depth != 1)
    ||| w.provides_healing@[e] is Some
    ||| w.provides_mana@[e] is Some
    ||| w.inflicts_damage@[e] is Some
    ||| (w.confusion@[e] && w.duration@[e] is Some)
    ||| w.teleport_to@[e] is Some
    ||| w.attribute_bonus@[e] is Some
    ||| w.teaches_spell@[e] is Some
    ||| w.slow@[e] is Some
    ||| w.damage_over_time@[e] is Some
}

/// The line logged when a spent consumable is used: the item's name, or a
/// generic subject, before the out-of-charges notice.
pub open spec fn spec_no_charge_message(w: World, item: int) -> Seq<char> {
    (if w.name@[item] is Some {
        w.name@[item]->Some_0@
    } else {
        "Ten przedmiot"@
    }) + " nie ma juz ladunkow!"@
}

/// The run mode the interface is asked for after this entity triggers.
pub open spec fn spec_event_runstate(w: World, e: int, depth: int, prev: RunState) -> RunState {
    if w.town_portal@[e] && depth != 1 {
        RunState::TownPortal
    } else if w.provides_remove_curse@[e] {
        RunState::ShowRemoveCurse
    } else if w.provides_identification@[e] {
        RunState::ShowIdentify
    } else if w.magic_mapper@[e] {
        RunState::MagicMapReveal { row: 0 }
    } else {
        prev
    }
}

/// The tile an item acts from: the entity's own position, else its
/// carrier's or wielder's, else the creator's.
pub fn find_item_position(
    world: &World,
    entity: EntityId,
    creator: Option<EntityId>,
    map: &LevelMap,
) -> (r: Option<usize>)
    requires
        world.wf(),
        map.wf(),
    ensures
        r matches Option::Some(idx) ==> idx < map.tiles@.len(),
{
    if let Option::Some(idx) = entity_position(world, entity, map) {
        return Option::Some(idx);
    }
    if entity < world.len() {
        if let Option::Some(carried) = world.in_backpack[entity] {
            if let Option::Some(idx) = entity_position(world, carried.owner, map) {
                return Option::Some(idx);
            }
        }
        if let Option::Some(worn) = world.equipped[entity] {
            if let Option::Some(idx) = entity_position(world, worn.owner, map) {
                return Option::Some(idx);
            }
        }
    }
    if let Option::Some(c) = creator {
        return entity_position(world, c, map);
    }
    Option::None
}

/// Enqueue a particle at every raster-line point between two tiles that
/// lies on the map.
pub fn spawn_line_particles(
    map: &LevelMap,
    queue: &mut EffectQueue,
    start_idx: usize,
    end_idx: usize,
    part: &SpawnParticleLine,
)
    requires
        map.wf(),
        old(queue).wf(),
        start_idx < map.tiles@.len(),
        end_idx < map.tiles@.len(),
    ensures
        final(queue).wf(),
        final(queue).head == old(queue).head,
        exists|added: Seq<EffectSpawner>|
            {
                &&& final(queue).pending() == old(queue).pending() + added
                &&& forall|i: int| 0 <= i < added.len() ==> added[i].effect_type is Particle
            },
{
    let w = map.width as usize;
    proof {
        crate::map_builders::connectivity::lemma_idx_bounds(
            start_idx as int,
            map.width as int,
            map.height as int,
        );
        crate::map_builders::connectivity::lemma_idx_bounds(
            end_idx as int,
            map.width as int,
            map.height as int,
        );
    }
    let sx = (start_idx % w) as i32;
    let sy = (start_idx / w) as i32;
    let ex = (end_idx % w) as i32;
    let ey = (end_idx / w) as i32;
    let pts = crate::geometry::line_points(sx, sy, ex, ey);
    let ghost base = queue.pending();
    proof {
        assert(queue.pending() =~= base + Seq::<EffectSpawner>::empty());
    }
    let mut i: usize = 0;
    while i < pts.len()
        invariant
            queue.wf(),
            queue.head == old(queue).head,
            map.wf(),
            exists|added: Seq<EffectSpawner>|
                {
                    &&& queue.pending() == base + added
                    &&& forall|j: int| 0 <= j < added.len() ==> added[j].effect_type is Particle
                },
        decreases pts@.len() - i,
    {
        let p = pts[i];
        if 0 <= p.x && p.x < map.width && 0 <= p.y && p.y < map.height {
            let ghost prev = queue.pending();
            let ghost prev_added = choose|added: Seq<EffectSpawner>|
                {
                    &&& prev == base + added
                    &&& forall|j: int| 0 <= j < added.len() ==> added[j].effect_type is Particle
                };
            let tile_idx = map.xy_idx(p.x, p.y);
            add_effect(
                queue,
                Option::None,
                EffectType::Particle {
                    glyph: part.glyph,
                    fg: part.color,
                    bg: Color { r: 0, g: 0, b: 0 },
                    lifespan: part.lifetime_ms,
                },
                Targets::Tile { tile_idx },
            );
            proof {
                let x = queue.pending().last();
                assert(queue.pending() =~= base + prev_added.push(x));
            }
        }
        i = i + 1;
    }
}

/// The particle-line prefix of a trigger batch: a line of particles from
/// the item's tile to each targeted tile, and nothing else.
fn line_particle_prefix(
    world: &World,
    map: &LevelMap,
    queue: &mut EffectQueue,
    creator: Option<EntityId>,
    entity: EntityId,
    targets: &Targets,
)
    requires
        world.wf(),
        old(queue).wf(),
        map.wf(),
        entity < world.spec_len(),
    ensures
        final(queue).wf(),
        final(queue).head == old(queue).head,
        exists|added: Seq<EffectSpawner>|
            {
                &&& final(queue).pending() == old(queue).pending() + added
                &&& forall|i: int| 0 <= i < added.len() ==> added[i].effect_type is Particle
            },
{
    let ghost base = queue.pending();
    proof {
        assert(queue.pending() =~= base + Seq::<EffectSpawner>::empty());
    }
    if let Option::Some(part) = world.spawn_particle_line[entity] {
        if let Option::Some(start_idx) = find_item_position(world, entity, creator, map) {
            match targets {
                Targets::Tile { tile_idx } => {
                    if *tile_idx < map.tiles.len() {
                        spawn_line_particles(map, queue, start_idx, *tile_idx, &part);
                    }
                },
                Targets::Tiles { tiles } => {
                    let mut k: usize = 0;
                    while k < tiles.len()
                        invariant
                            queue.wf(),
                            queue.head == old(queue).head,
                            map.wf(),
                            world.wf(),
                            start_idx < map.tiles@.len(),
                            exists|ln: Seq<EffectSpawner>|
                                {
                                    &&& queue.pending() == base + ln
                                    &&& forall|j: int|
                                        0 <= j < ln.len() ==> ln[j].effect_type is Particle
                                },
                        decreases tiles@.len() - k,
                    {
                        if tiles[k] < map.tiles.len() {
                            let ghost prev = queue.pending();
                            let ghost prev_ln = choose|ln: Seq<EffectSpawner>|
                                {
                                    &&& prev == base + ln
                                    &&& forall|j: int|
                                        0 <= j < ln.len() ==> ln[j].effect_type is Particle
                                };
                            spawn_line_particles(map, queue, start_idx, tiles[k], &part);
                            proof {
                                let seg = choose|seg: Seq<EffectSpawner>|
                                    {
                                        &&& queue.pending() == prev + seg
                                        &&& forall|j: int|
                                            0 <= j < seg.len() ==> seg[j].effect_type is Particle
                                    };
                                assert(queue.pending() =~= base + (prev_ln + seg));
                            }
                        }
                        k = k + 1;
                    }
                },
                Targets::Single { target } => {
                    if let Option::Some(end_idx) = entity_position(world, *target, map) {
                        spawn_line_particles(map, queue, start_idx, end_idx, &part);
                    }
                },
                Targets::TargetList { targets: tl } => {
                    let mut k: usize = 0;
                    while k < tl.len()
                        invariant
                            queue.wf(),
                            queue.head == old(queue).head,
                            map.wf(),
                            world.wf(),
                            start_idx < map.tiles@.len(),
                            exists|ln: Seq<EffectSpawner>|
                                {
                                    &&& queue.pending() == base + ln
                                    &&& forall|j: int|
                                        0 <= j < ln.len() ==> ln[j].effect_type is Particle
                                },
                        decreases tl@.len() - k,
                    {
                        let ghost prev = queue.pending();
                        let ghost prev_ln = choose|ln: Seq<EffectSpawner>|
                            {
                                &&& prev == base + ln
                                &&& forall|j: int| 0 <= j < ln.len() ==> ln[j].effect_type is Particle
                            };
                        if let Option::Some(end_idx) = entity_position(world, tl[k], map) {
                            spawn_line_particles(map, queue, start_idx, end_idx, &part);
                            proof {
                                let seg = choose|seg: Seq<EffectSpawner>|
                                    {
                                        &&& queue.pending() == prev + seg
                                        &&& forall|j: int|
                                            0 <= j < seg.len() ==> seg[j].effect_type is Particle
                                    };
                                assert(queue.pending() =~= base + (prev_ln + seg));
                            }
                        }
                        k = k + 1;
                    }
                },
            }
        }
    }
}

/// Enqueue one capability effect, if any, aimed at a copy of the given
/// targets, and report exactly what was appended.
fn push_capability(
    queue: &mut EffectQueue,
    creator: Option<EntityId>,
    effect_type: Option<EffectType>,
    targets_src: &Targets,
    Ghost(cap): Ghost<nat>,
) -> (seg: Ghost<Seq<EffectSpawner>>)
    requires
        old(queue).wf(),
        effect_type matches Option::Some(et) ==> trigger_emitted_type(et),
    ensures
        final(queue).wf(),
        final(queue).head == old(queue).head,
        final(queue).pending() == old(queue).pending() + seg@,
        queue_potential(seg@, cap) <= 1 + targets_bound(*targets_src, cap),
        forall|i: int| 0 <= i < seg@.len() ==> trigger_emitted_type(seg@[i].effect_type),
        effect_type matches Option::Some(et) ==> seg@.len() == 1 && effect_view(seg@[0])
            == (EffectV {
            creator,
            kind: effect_type_view(et),
            targets: targets_view(*targets_src),
        }),
        effect_type is None ==> seg@.len() == 0,
{
    match effect_type {
        Option::None => {
            let ghost segv = Seq::<EffectSpawner>::empty();
            proof {
                assert(queue.pending() =~= old(queue).pending() + segv);
                lemma_qp_particles(segv, cap);
            }
            Ghost(segv)
        },
        Option::Some(et) => {
            let t = clone_targets(targets_src);
            let ghost tv = t;
            add_effect(queue, creator, et, t);
            let ghost segv = seq![queue.pending().last()];
            proof {
                let last = queue.pending().last();
                assert(queue.pending() =~= old(queue).pending() + segv);
                lemma_targets_bound_view(tv, *targets_src, cap);
                lemma_qp_push(Seq::<EffectSpawner>::empty(), last, cap);
                assert(Seq::<EffectSpawner>::empty().push(last) =~= segv);
                lemma_qp_particles(Seq::<EffectSpawner>::empty(), cap);
            }
            Ghost(segv)
        },
    }
}

/// The first half of the capability-effect guarantees: food, healing,
/// mana and damage requests demanded by the entity's components are in
/// `added`, aimed at the given targets.
pub open spec fn capability_effects_present_a(
    w: World,
    creator: Option<EntityId>,
    e: int,
    t: Targets,
    added: Seq<EffectSpawner>,
) -> bool {
    &&& w.provides_food@[e] ==> exists|i: int|
        0 <= i < added.len() && effect_view(added[i]) == (EffectV {
            creator,
            kind: EffectTypeV::WellFed,
            targets: targets_view(t),
        })
    &&& w.provides_healing@[e] matches Option::Some(h) ==> exists|i: int|
        0 <= i < added.len() && effect_view(added[i]) == (EffectV {
            creator,
            kind: EffectTypeV::Healing(h as int),
            targets: targets_view(t),
        })
    &&& w.provides_mana@[e] matches Option::Some(m) ==> exists|i: int|
        0 <= i < added.len() && effect_view(added[i]) == (EffectV {
            creator,
            kind: EffectTypeV::Mana(m as int),
            targets: targets_view(t),
        })
    &&& w.inflicts_damage@[e] matches Option::Some(d) ==> exists|i: int|
        0 <= i < added.len() && effect_view(added[i]) == (EffectV {
            creator,
            kind: EffectTypeV::Damage(d as int),
            targets: targets_view(t),
        })
}

/// The second half of the capability-effect guarantees: confusion,
/// teleport, slow and damage-over-time requests demanded by the entity's
/// components are in `added`, aimed at the given targets.
pub open spec fn capability_effects_present_b(
    w: World,
    creator: Option<EntityId>,
    e: int,
    t: Targets,
    added: Seq<EffectSpawner>,
) -> bool {
    &&& (w.confusion@[e] && w.duration@[e] is Some) ==> exists|i: int|
        0 <= i < added.len() && effect_view(added[i]) == (EffectV {
            creator,
            kind: EffectTypeV::Confusion(w.duration@[e]->Some_0.turns as int),
            targets: targets_view(t),
        })
    &&& w.teleport_to@[e] matches Option::Some(tp) ==> exists|i: int|
        0 <= i < added.len() && effect_view(added[i]) == (EffectV {
            creator,
            kind: EffectTypeV::TeleportTo(tp.x as int, tp.y as int, tp.depth as int, tp.player_only),
            targets: targets_view(t),
        })
    &&& w.slow@[e] matches Option::Some(sl) ==> exists|i: int|
        0 <= i < added.len() && effect_view(added[i]) == (EffectV {
            creator,
            kind: EffectTypeV::Slow(sl.initiative_penalty as int),
            targets: targets_view(t),
        })
    &&& w.damage_over_time@[e] matches Option::Some(d) ==> exists|i: int|
        0 <= i < added.len() && effect_view(added[i]) == (EffectV {
            creator,
            kind: EffectTypeV::DamageOverTime(d.damage as int),
            targets: targets_view(t),
        })
    &&& w.attribute_bonus@[e] matches Option::Some(bonus) ==> exists|i: int|
        0 <= i < added.len() && effect_view(added[i]) == (EffectV {
            creator,
            kind: EffectTypeV::AttributeEffect(bonus, spec_attr_effect_name(w, e), 10),
            targets: targets_view(t),
        })
}

/// The name an attribute effect carries: the triggering entity's own name,
/// or the generic spell name when it has none.
pub open spec fn spec_attr_effect_name(w: World, e: int) -> Seq<char> {
    if w.name@[e] is Some {
        w.name@[e]->Some_0@
    } else {
        "Czar"@
    }
}

/// Both halves of the capability-effect guarantees.
pub open spec fn capability_effects_present(
    w: World,
    creator: Option<EntityId>,
    e: int,
    t: Targets,
    added: Seq<EffectSpawner>,
) -> bool {
    capability_effects_present_a(w, creator, e, t, added) && capability_effects_present_b(
        w,
        creator,
        e,
        t,
        added,
    )
}

/// Enqueue the non-cosmetic effects the entity's capability components
/// demand, each aimed at a copy of the given targets.
fn enqueue_capability_effects(
    world: &World,
    queue: &mut EffectQueue,
    creator: Option<EntityId>,
    entity: EntityId,
    targets: &Targets,
    Ghost(cap): Ghost<nat>,
)
    requires
        world.wf(),
        old(queue).wf(),
        entity < world.spec_len(),
    ensures
        final(queue).wf(),
        final(queue).head == old(queue).head,
        exists|added: Seq<EffectSpawner>|
            {
                &&& final(queue).pending() == old(queue).pending() + added
                &&& forall|i: int|
                    0 <= i < added.len() ==> trigger_emitted_type(added[i].effect_type)
                &&& queue_potential(added, cap) <= 10 + 10 * targets_bound(*targets, cap)
                &&& capability_effects_present(*world, creator, entity as int, *targets, added)
            },
{
    let ghost base = queue.pending();
    enqueue_capability_effects_a(world, queue, creator, entity, targets, Ghost(cap));
    let ghost part_a = choose|pa: Seq<EffectSpawner>|
        {
            &&& queue.pending() == base + pa
            &&& forall|i: int| 0 <= i < pa.len() ==> trigger_emitted_type(pa[i].effect_type)
            &&& queue_potential(pa, cap) <= 5 + 5 * targets_bound(*targets, cap)
            &&& capability_effects_present_a(*world, creator, entity as int, *targets, pa)
        };
    let ghost mid = queue.pending();
    enqueue_capability_effects_b(world, queue, creator, entity, targets, Ghost(cap));
    let ghost part_b = choose|pb: Seq<EffectSpawner>|
        {
            &&& queue.pending() == mid + pb
            &&& forall|i: int| 0 <= i < pb.len() ==> trigger_emitted_type(pb[i].effect_type)
            &&& queue_potential(pb, cap) <= 5 + 5 * targets_bound(*targets, cap)
            &&& capability_effects_present_b(*world, creator, entity as int, *targets, pb)
        };
    proof {
        let added = part_a + part_b;
        assert(queue.pending() =~= base + added);
        crate::effects::lemma_queue_potential_add(part_a, part_b, cap);
        assert forall|i: int|
            0 <= i < added.len() implies trigger_emitted_type(added[i].effect_type) by {
            if i < part_a.len() {
                assert(added[i] == part_a[i]);
            } else {
                assert(added[i] == part_b[i - part_a.len()]);
            }
        }
        assert(capability_effects_present_a(*world, creator, entity as int, *targets, added)) by {
            lemma_capability_a_extend(*world, creator, entity as int, *targets, part_a, part_b);
        }
        assert(capability_effects_present_b(*world, creator, entity as int, *targets, added)) by {
            lemma_capability_b_shift(*world, creator, entity as int, *targets, part_a, part_b);
        }
    }
}

/// First-half witnesses keep their places when a batch grows at the end.
proof fn lemma_capability_a_extend(
    w: World,
    creator: Option<EntityId>,
    e: int,
    t: Targets,
    part_a: Seq<EffectSpawner>,
    part_b: Seq<EffectSpawner>,
)
    requires
        capability_effects_present_a(w, creator, e, t, part_a),
    ensures
        capability_effects_present_a(w, creator, e, t, part_a + part_b),
{
    let added = part_a + part_b;
    assert forall|i: int| 0 <= i < part_a.len() implies added[i] == part_a[i] by {}
}

/// Second-half witnesses shift by the first half's length.
proof fn lemma_capability_b_shift(
    w: World,
    creator: Option<EntityId>,
    e: int,
    t: Targets,
    part_a: Seq<EffectSpawner>,
    part_b: Seq<EffectSpawner>,
)
    requires
        capability_effects_present_b(w, creator, e, t, part_b),
    ensures
        capability_effects_present_b(w, creator, e, t, part_a + part_b),
{
    let added = part_a + part_b;
    assert forall|i: int| 0 <= i < part_b.len() implies added[part_a.len() + i] == part_b[i] by {}
}

/// Food, healing, mana and damage requests of the entity.
#[verifier::rlimit(100)]
#[verifier::spinoff_prover]
fn enqueue_capability_effects_a(
    world: &World,
    queue: &mut EffectQueue,
    creator: Option<EntityId>,
    entity: EntityId,
    targets: &Targets,
    Ghost(cap): Ghost<nat>,
)
    requires
        world.wf(),
        old(queue).wf(),
        entity < world.spec_len(),
    ensures
        final(queue).wf(),
        final(queue).head == old(queue).head,
        exists|added: Seq<EffectSpawner>|
            {
                &&& final(queue).pending() == old(queue).pending() + added
                &&& forall|i: int|
                    0 <= i < added.len() ==> trigger_emitted_type(added[i].effect_type)
                &&& queue_potential(added, cap) <= 5 + 5 * targets_bound(*targets, cap)
                &&& capability_effects_present_a(*world, creator, entity as int, *targets, added)
            },
{
    let ghost base = queue.pending();
    let ghost added = Seq::<EffectSpawner>::empty();
    proof {
        assert(queue.pending() =~= base + added);
        lemma_qp_particles(added, cap);
    }
    let ghost e = entity as int;
    let ghost tb = targets_bound(*targets, cap);

    let burst_et = if let Option::Some(part) = world.spawn_particle_burst[entity] {
        Option::Some(
            EffectType::Particle {
                glyph: part.glyph,
                fg: part.color,
                bg: Color { r: 0, g: 0, b: 0 },
                lifespan: part.lifetime_ms,
            },
        )
    } else {
        Option::None
    };
    let Ghost(s1) = push_capability(queue, creator, burst_et, targets, Ghost(cap));
    proof {
        added = join_segment(base, added, s1, queue, cap, 1, tb);
    }

    let food_et = if world.provides_food[entity] {
        Option::Some(EffectType::WellFed)
    } else {
        Option::None
    };
    let Ghost(s2) = push_capability(queue, creator, food_et, targets, Ghost(cap));
    proof {
        added = join_segment(base, added, s2, queue, cap, 2, tb);
        assert(world.provides_food@[e] ==> exists|i: int|
            0 <= i < added.len() && effect_view(added[i]) == (EffectV {
                creator,
                kind: EffectTypeV::WellFed,
                targets: targets_view(*targets),
            }));
    }

    let heal_et = if let Option::Some(h) = world.provides_healing[entity] {
        Option::Some(EffectType::Healing { amount: h })
    } else {
        Option::None
    };
    let Ghost(s3) = push_capability(queue, creator, heal_et, targets, Ghost(cap));
    proof {
        added = join_segment(base, added, s3, queue, cap, 3, tb);
        assert(world.provides_healing@[e] matches Option::Some(h) ==> exists|i: int|
            0 <= i < added.len() && effect_view(added[i]) == (EffectV {
                creator,
                kind: EffectTypeV::Healing(h as int),
                targets: targets_view(*targets),
            }));
    }

    let mana_et = if let Option::Some(m) = world.provides_mana[entity] {
        Option::Some(EffectType::Mana { amount: m })
    } else {
        Option::None
    };
    let Ghost(s4) = push_capability(queue, creator, mana_et, targets, Ghost(cap));
    proof {
        added = join_segment(base, added, s4, queue, cap, 4, tb);
        assert(world.provides_mana@[e] matches Option::Some(m) ==> exists|i: int|
            0 <= i < added.len() && effect_view(added[i]) == (EffectV {
                creator,
                kind: EffectTypeV::Mana(m as int),
                targets: targets_view(*targets),
            }));
    }

    let dmg_et = if let Option::Some(d) = world.inflicts_damage[entity] {
        Option::Some(EffectType::Damage { amount: d })
    } else {
        Option::None
    };
    let Ghost(s5) = push_capability(queue, creator, dmg_et, targets, Ghost(cap));
    proof {
        added = join_segment(base, added, s5, queue, cap, 5, tb);
        assert(world.inflicts_damage@[e] matches Option::Some(d) ==> exists|i: int|
            0 <= i < added.len() && effect_view(added[i]) == (EffectV {
                creator,
                kind: EffectTypeV::Damage(d as int),
                targets: targets_view(*targets),
            }));
        assert(capability_effects_present_a(*world, creator, e, *targets, added));
    }
}

/// Confusion, teleport, attribute, slow and damage-over-time requests of
/// the entity.
#[verifier::rlimit(100)]
#[verifier::spinoff_prover]
fn enqueue_capability_effects_b(
    world: &World,
    queue: &mut EffectQueue,
    creator: Option<EntityId>,
    entity: EntityId,
    targets: &Targets,
    Ghost(cap): Ghost<nat>,
)
    requires
        world.wf(),
        old(queue).wf(),
        entity < world.spec_len(),
    ensures
        final(queue).wf(),
        final(queue).head == old(queue).head,
        exists|added: Seq<EffectSpawner>|
            {
                &&& final(queue).pending() == old(queue).pending() + added
                &&& forall|i: int|
                    0 <= i < added.len() ==> trigger_emitted_type(added[i].effect_type)
                &&& queue_potential(added, cap) <= 5 + 5 * targets_bound(*targets, cap)
                &&& capability_effects_present_b(*world, creator, entity as int, *targets, added)
            },
{
    let ghost base = queue.pending();
    let ghost added = Seq::<EffectSpawner>::empty();
    proof {
        assert(queue.pending() =~= base + added);
        lemma_qp_particles(added, cap);
    }
    let ghost e = entity as int;
    let ghost tb = targets_bound(*targets, cap);

    let conf_et = if world.confusion[entity] {
        if let Option::Some(duration) = world.duration[entity] {
            Option::Some(EffectType::Confusion { turns: duration.turns })
        } else {
            Option::None
        }
    } else {
        Option::None
    };
    let Ghost(s6) = push_capability(queue, creator, conf_et, targets, Ghost(cap));
    proof {
        added = join_segment(base, added, s6, queue, cap, 1, tb);
        assert((world.confusion@[e] && world.duration@[e] is Some) ==> exists|i: int|
            0 <= i < added.len() && effect_view(added[i]) == (EffectV {
                creator,
                kind: EffectTypeV::Confusion(world.duration@[e]->Some_0.turns as int),
                targets: targets_view(*targets),
            }));
    }

    let tp_et = if let Option::Some(tp) = world.teleport_to[entity] {
        Option::Some(
            EffectType::TeleportTo {
                x: tp.x,
                y: tp.y,
                depth: tp.depth,
                player_only: tp.player_only,
            },
        )
    } else {
        Option::None
    };
    let Ghost(s7) = push_capability(queue, creator, tp_et, targets, Ghost(cap));
    proof {
        added = join_segment(base, added, s7, queue, cap, 2, tb);
        assert(world.teleport_to@[e] matches Option::Some(tp) ==> exists|i: int|
            0 <= i < added.len() && effect_view(added[i]) == (EffectV {
                creator,
                kind: EffectTypeV::TeleportTo(
                    tp.x as int,
                    tp.y as int,
                    tp.depth as int,
                    tp.player_only,
                ),
                targets: targets_view(*targets),
            }));
    }

    let attr_et = if let Option::Some(bonus) = world.attribute_bonus[entity] {
        let effect_name = if let Option::Some(n) = &world.name[entity] {
            n.clone()
        } else {
            String::from_str("Czar")
        };
        Option::Some(EffectType::AttributeEffect { bonus, name: effect_name, duration: 10 })
    } else {
        Option::None
    };
    let Ghost(s8) = push_capability(queue, creator, attr_et, targets, Ghost(cap));
    proof {
        added = join_segment(base, added, s8, queue, cap, 3, tb);
        assert(world.attribute_bonus@[e] matches Option::Some(bonus) ==> exists|i: int|
            0 <= i < added.len() && effect_view(added[i]) == (EffectV {
                creator,
                kind: EffectTypeV::AttributeEffect(bonus, spec_attr_effect_name(*world, e), 10),
                targets: targets_view(*targets),
            }));
    }

    let slow_et = if let Option::Some(sl) = world.slow[entity] {
        Option::Some(EffectType::Slow { initiative_penalty: sl.initiative_penalty })
    } else {
        Option::None
    };
    let Ghost(s9) = push_capability(queue, creator, slow_et, targets, Ghost(cap));
    proof {
        added = join_segment(base, added, s9, queue, cap, 4, tb);
        assert(world.slow@[e] matches Option::Some(sl) ==> exists|i: int|
            0 <= i < added.len() && effect_view(added[i]) == (EffectV {
                creator,
                kind: EffectTypeV::Slow(sl.initiative_penalty as int),
                targets: targets_view(*targets),
            }));
    }

    let dot_et = if let Option::Some(d) = world.damage_over_time[entity] {
        Option::Some(EffectType::DamageOverTime { damage: d.damage })
    } else {
        Option::None
    };
    let Ghost(s10) = push_capability(queue, creator, dot_et, targets, Ghost(cap));
    proof {
        added = join_segment(base, added, s10, queue, cap, 5, tb);
        assert(world.damage_over_time@[e] matches Option::Some(d) ==> exists|i: int|
            0 <= i < added.len() && effect_view(added[i]) == (EffectV {
                creator,
                kind: EffectTypeV::DamageOverTime(d.damage as int),
                targets: targets_view(*targets),
            }));
        assert(capability_effects_present_b(*world, creator, e, *targets, added));
    }
}

/// Append a just-enqueued segment to the running batch: earlier witnesses
/// keep their places, and the fuel grows by at most one push's budget.
proof fn join_segment(
    base: Seq<EffectSpawner>,
    added: Seq<EffectSpawner>,
    seg: Seq<EffectSpawner>,
    queue: &EffectQueue,
    cap: nat,
    k: int,
    tb: nat,
) -> (r: Seq<EffectSpawner>)
    requires
        queue.wf(),
        queue.pending() == (base + added) + seg,
        queue_potential(added, cap) <= (k - 1) * (1 + tb),
        queue_potential(seg, cap) <= 1 + tb,
        1 <= k <= 10,
        forall|i: int| 0 <= i < added.len() ==> trigger_emitted_type(added[i].effect_type),
        forall|i: int| 0 <= i < seg.len() ==> trigger_emitted_type(seg[i].effect_type),
    ensures
        r == added + seg,
        queue.pending() == base + r,
        queue_potential(r, cap) <= k * (1 + tb),
        forall|i: int| 0 <= i < r.len() ==> trigger_emitted_type(r[i].effect_type),
        forall|i: int| 0 <= i < added.len() ==> r[i] == added[i],
{
    let r = added + seg;
    assert(queue.pending() =~= base + r);
    crate::effects::lemma_queue_potential_add(added, seg, cap);
    assert(k * (1 + tb) == (k - 1) * (1 + tb) + (1 + tb)) by (nonlinear_arith);
    r
}

/// Inspect the capabilities of a triggering entity and enqueue the
/// matching effects. Returns whether anything happened. Every enqueued
/// effect is aimed at (a copy of) the given targets or is a cosmetic
/// particle, and the batch's fuel is bounded, so a resolution pass that
/// fires triggers still terminates.
#[verifier::rlimit(100)]
#[verifier::spinoff_prover]
pub fn event_trigger(
    world: &mut World,
    map: &LevelMap,
    queue: &mut EffectQueue,
    log: &mut GameLog,
    runstate: &mut RunState,
    creator: Option<EntityId>,
    entity: EntityId,
    targets: &Targets,
    Ghost(cap): Ghost<nat>,
) -> (did: bool)
    requires
        old(world).wf(),
        old(queue).wf(),
        map.wf(),
        entity < old(world).spec_len(),
    ensures
        final(world).wf(),
        final(queue).wf(),
        final(queue).head == old(queue).head,
        *final(world) == (World { known_spells: final(world).known_spells, ..*old(world) }),
        final(world).known_spells@.len() == old(world).known_spells@.len(),
        did == spec_event_did(*old(world), entity as int, map.depth as int),
        *final(runstate) == spec_event_runstate(
            *old(world),
            entity as int,
            map.depth as int,
            *old(runstate),
        ),
        exists|extra: Seq<String>| final(log).entries@ == old(log).entries@ + extra,
        exists|added: Seq<EffectSpawner>|
            {
                &&& final(queue).pending() == old(queue).pending() + added
                &&& forall|i: int|
                    0 <= i < added.len() ==> trigger_emitted_type(added[i].effect_type)
                &&& queue_potential(added, cap) <= 10 + 10 * targets_bound(*targets, cap)
                &&& capability_effects_present(
                    *old(world),
                    creator,
                    entity as int,
                    *targets,
                    added,
                )
            },
{
    let ghost base = queue.pending();
    line_particle_prefix(world, map, queue, creator, entity, targets);
    let ghost line_part = choose|ln: Seq<EffectSpawner>|
        {
            &&& queue.pending() == base + ln
            &&& forall|j: int| 0 <= j < ln.len() ==> ln[j].effect_type is Particle
        };
    let ghost mid = queue.pending();
    enqueue_capability_effects(world, queue, creator, entity, targets, Ghost(cap));
    let ghost caps = choose|caps: Seq<EffectSpawner>|
        {
            &&& queue.pending() == mid + caps
            &&& forall|i: int| 0 <= i < caps.len() ==> trigger_emitted_type(caps[i].effect_type)
            &&& queue_potential(caps, cap) <= 10 + 10 * targets_bound(*targets, cap)
            &&& capability_effects_present(*world, creator, entity as int, *targets, caps)
        };
    let ghost added = line_part + caps;
    proof {
        assert(queue.pending() =~= base + added);
        crate::effects::lemma_queue_potential_add(line_part, caps, cap);
        lemma_qp_particles(line_part, cap);
        assert forall|i: int|
            0 <= i < added.len() implies trigger_emitted_type(added[i].effect_type) by {
            if i < line_part.len() {
                assert(added[i] == line_part[i]);
            } else {
                assert(added[i] == caps[i - line_part.len()]);
            }
        }
        assert(capability_effects_present(*world, creator, entity as int, *targets, added)) by {
            lemma_capability_effects_shift(
                *world,
                creator,
                entity as int,
                *targets,
                line_part,
                caps,
            );
        }
    }

    // Log lines, interface modes and the did-something verdict.
    let mut did: bool = false;
    if world.provides_food[entity] {
        log.push(String::from_str("Wieclaw zjada cos pozywnego."));
        did = true;
    }
    if world.magic_mapper[entity] {
        log.push(String::from_str("Wieclaw odkryl cala mape!"));
        *runstate = RunState::MagicMapReveal { row: 0 };
        did = true;
    }
    if world.provides_identification[entity] {
        *runstate = RunState::ShowIdentify;
        did = true;
    }
    if world.provides_remove_curse[entity] {
        *runstate = RunState::ShowRemoveCurse;
        did = true;
    }
    if world.town_portal[entity] {
        if map.depth == 1 {
            log.push(String::from_str("Wieclaw juz jest w miescie, wiec zwoj nie dziala."));
        } else {
            log.push(String::from_str("Wieclaw teleportuje sie do miasta!"));
            *runstate = RunState::TownPortal;
            did = true;
        }
    }
    if world.provides_healing[entity].is_some() {
        log.push(String::from_str("Wieclaw czuje sie lepiej."));
        did = true;
    }
    if world.provides_mana[entity].is_some() {
        log.push(String::from_str("Wieclaw odzyskuje mane."));
        did = true;
    }
    if world.inflicts_damage[entity].is_some() {
        did = true;
    }
    if world.confusion[entity] && world.duration[entity].is_some() {
        did = true;
    }
    if world.teleport_to[entity].is_some() {
        did = true;
    }
    if world.attribute_bonus[entity].is_some() {
        did = true;
    }
    if world.teaches_spell[entity].is_some() {
        learn_spell(world, creator, entity);
        did = true;
    }
    if world.slow[entity].is_some() {
        did = true;
    }
    if world.damage_over_time[entity].is_some() {
        did = true;
    }
    proof {
        assert(log.entries@ =~= old(log).entries@ + log.entries@.skip(
            old(log).entries@.len() as int,
        ));
    }
    did
}

/// Capability effects found in a batch's tail are found in the whole batch.
proof fn lemma_capability_effects_shift(
    w: World,
    creator: Option<EntityId>,
    e: int,
    t: Targets,
    prefix: Seq<EffectSpawner>,
    caps: Seq<EffectSpawner>,
)
    requires
        capability_effects_present(w, creator, e, t, caps),
    ensures
        capability_effects_present(w, creator, e, t, prefix + caps),
{
    let added = prefix + caps;
    assert forall|i: int| 0 <= i < caps.len() implies added[prefix.len() + i] == caps[i] by {}
}

/// Teach the triggering item's spell to the creator, unless it is already
/// known. Only the creator's spell list can change.
fn learn_spell(world: &mut World, creator: Option<EntityId>, entity: EntityId)
    requires
        old(world).wf(),
        entity < old(world).spec_len(),
    ensures
        final(world).wf(),
        *final(world) == (World { known_spells: final(world).known_spells, ..*old(world) }),
        final(world).known_spells@.len() == old(world).known_spells@.len(),
{
    let caster = if let Option::Some(c) = creator {
        c
    } else {
        return ;
    };
    if caster >= world.len() {
        return ;
    }
    let spell_name = if let Option::Some(n) = &world.teaches_spell[entity] {
        n.clone()
    } else {
        return ;
    };
    if world.known_spells[caster].is_none() {
        return ;
    }
    let spell_entity = match find_spell_entity(world, &spell_name) {
        Option::Some(e) => e,
        Option::None => { return ; },
    };
    let mana_cost = match world.spell_template[spell_entity] {
        Option::Some(t) => t.mana_cost,
        Option::None => { return ; },
    };
    let mut already_known = false;
    let mut new_list: Vec<KnownSpell> = Vec::new();
    match &world.known_spells[caster] {
        Option::None => {
            return ;
        },
        Option::Some(known) => {
            let mut i: usize = 0;
            while i < known.len()
                invariant
                    i <= known@.len(),
                decreases known@.len() - i,
            {
                if known[i].display_name == spell_name {
                    already_known = true;
                }
                new_list.push(
                    KnownSpell {
                        display_name: known[i].display_name.clone(),
                        mana_cost: known[i].mana_cost,
                    },
                );
                i = i + 1;
            }
        },
    }
    if !already_known {
        new_list.push(KnownSpell { display_name: spell_name, mana_cost });
        world.known_spells[caster] = Option::Some(new_list);
        proof {
            assert(world.known_spells@.len() == old(world).known_spells@.len());
        }
    }
}

/// The entity that carries the named spell's template, if any.
pub fn find_spell_entity(world: &World, name: &String) -> (r: Option<EntityId>)
    requires
        world.wf(),
    ensures
        r matches Option::Some(e) ==> e < world.spec_len() && world.spell_template@[e as int]
            is Some,
{
    let n = world.len();
    let mut i: usize = 0;
    while i < n
        invariant
            world.wf(),
            n == world.spec_len(),
        decreases n - i,
    {
        if world.spell_template[i].is_some() {
            if let Option::Some(item_name) = &world.name[i] {
                if *item_name == *name {
                    return Option::Some(i);
                }
            }
        }
        i = i + 1;
    }
    Option::None
}


/// Use an item: a consumable with no charges left only logs its failure;
/// otherwise one charge is spent, the item's capabilities fire, and a
/// consumable whose last charge was just spent on a real effect is
/// deleted.
pub fn item_trigger(
    world: &mut World,
    map: &LevelMap,
    queue: &mut EffectQueue,
    log: &mut GameLog,
    runstate: &mut RunState,
    creator: Option<EntityId>,
    item: EntityId,
    targets: &Targets,
)
    requires
        old(world).wf(),
        old(queue).wf(),
        map.wf(),
        item < old(world).spec_len(),
    ensures
        final(world).wf(),
        final(queue).wf(),
        final(queue).head == old(queue).head,
        *final(world) == (World {
            consumable: final(world).consumable,
            known_spells: final(world).known_spells,
            alive: final(world).alive,
            ..*old(world)
        }),
        old(world).consumable@[item as int] matches Option::Some(c) && c.charges < 1 ==> {
            &&& final(world).consumable@ == old(world).consumable@
            &&& final(world).alive@ == old(world).alive@
            &&& final(queue).pending() == old(queue).pending()
            &&& *final(runstate) == *old(runstate)
            &&& final(log).entries@.len() == old(log).entries@.len() + 1
            &&& final(log).entries@.last()@ == spec_no_charge_message(*old(world), item as int)
        },
        !(old(world).consumable@[item as int] matches Option::Some(c) && c.charges < 1) ==> {
            let spent = spec_clamped(
                old(world).consumable@[item as int]->Some_0.charges - 1,
            );
            let did = spec_event_did(*old(world), item as int, map.depth as int);
            &&& final(world).consumable@ == if old(world).consumable@[item as int] is Some {
                old(world).consumable@.update(
                    item as int,
                    Option::Some(
                        Consumable {
                            max_charges: old(world).consumable@[item as int]->Some_0.max_charges,
                            charges: spent as i32,
                        },
                    ),
                )
            } else {
                old(world).consumable@
            }
            &&& did == spec_event_did(*old(world), item as int, map.depth as int)
            &&& final(world).alive@ == if did && old(world).consumable@[item as int] is Some
                && spent == 0 {
                old(world).alive@.update(item as int, false)
            } else {
                old(world).alive@
            }
            &&& *final(runstate) == spec_event_runstate(
                *old(world),
                item as int,
                map.depth as int,
                *old(runstate),
            )
        },
        exists|extra: Seq<String>| final(log).entries@ == old(log).entries@ + extra,
{
    let ghost base_log = log.entries@;
    if let Option::Some(c) = world.consumable[item] {
        if c.charges < 1 {
            let mut msg = match &world.name[item] {
                Option::Some(n) => n.clone(),
                Option::None => String::from_str("Ten przedmiot"),
            };
            msg.append(" nie ma juz ladunkow!");
            log.push(msg);
            proof {
                assert(log.entries@ =~= base_log + seq![log.entries@.last()]);
                assert(log.entries@.last()@ == spec_no_charge_message(*old(world), item as int));
            }
            return ;
        }
        world.consumable[item] = Option::Some(
            Consumable { max_charges: c.max_charges, charges: clamped_sub(c.charges, 1) },
        );
        proof {
            assert(world.consumable@ =~= old(world).consumable@.update(
                item as int,
                world.consumable@[item as int],
            ));
        }
    }
    let did = event_trigger(world, map, queue, log, runstate, creator, item, targets, Ghost(0));
    if did {
        if let Option::Some(c) = world.consumable[item] {
            if c.charges == 0 {
                world.delete_entity(item);
            }
        }
    }
    proof {
        assert(log.entries@ =~= base_log + log.entries@.skip(base_log.len() as int));
    }
}

/// Cast a spell: the caster pays the template's mana cost when they can,
/// and the spell's capabilities fire.
pub fn spell_trigger(
    world: &mut World,
    map: &LevelMap,
    queue: &mut EffectQueue,
    log: &mut GameLog,
    runstate: &mut RunState,
    creator: Option<EntityId>,
    spell: EntityId,
    targets: &Targets,
)
    requires
        old(world).wf(),
        old(queue).wf(),
        map.wf(),
        spell < old(world).spec_len(),
    ensures
        final(world).wf(),
        final(queue).wf(),
        final(queue).head == old(queue).head,
        *final(world) == (World {
            pools: final(world).pools,
            known_spells: final(world).known_spells,
            ..*old(world)
        }),
        final(world).pools@ == if {
            &&& old(world).spell_template@[spell as int] matches Option::Some(t)
            &&& creator matches Option::Some(caster)
            &&& creator->Some_0 < old(world).spec_len()
            &&& old(world).pools@[creator->Some_0 as int] matches Option::Some(p)
            &&& t.mana_cost <= p.mana.current
        } {
            old(world).pools@.update(
                creator->Some_0 as int,
                Option::Some(
                    Pools {
                        mana: Pool {
                            max: old(world).pools@[creator->Some_0 as int]->Some_0.mana.max,
                            current: spec_clamped(
                                old(world).pools@[creator->Some_0 as int]->Some_0.mana.current - old(
                                    world,
                                ).spell_template@[spell as int]->Some_0.mana_cost,
                            ) as i32,
                        },
                        ..old(world).pools@[creator->Some_0 as int]->Some_0
                    },
                ),
            )
        } else {
            old(world).pools@
        },
        *final(runstate) == spec_event_runstate(
            *old(world),
            spell as int,
            map.depth as int,
            *old(runstate),
        ),
        exists|extra: Seq<String>| final(log).entries@ == old(log).entries@ + extra,
{
    if let Option::Some(template) = world.spell_template[spell] {
        if let Option::Some(caster) = creator {
            if caster < world.len() {
                if let Option::Some(pool) = world.pools[caster] {
                    if template.mana_cost <= pool.mana.current {
                        world.pools[caster] = Option::Some(
                            Pools {
                                mana: Pool {
                                    max: pool.mana.max,
                                    current: clamped_sub(pool.mana.current, template.mana_cost),
                                },
                                ..pool
                            },
                        );
                        proof {
                            assert(world.pools@ =~= old(world).pools@.update(
                                caster as int,
                                world.pools@[caster as int],
                            ));
                        }
                    }
                }
            }
        }
    }
    event_trigger(world, map, queue, log, runstate, creator, spell, targets, Ghost(0));
}

/// Fire a walked-on trigger: it stops being hidden, its capabilities
/// fire, and a single-use trigger that did something is deleted. Only
/// bounded-fuel effects are enqueued, so the resolution pass that fired
/// the trigger still terminates.
pub fn trigger(
    world: &mut World,
    map: &LevelMap,
    queue: &mut EffectQueue,
    log: &mut GameLog,
    runstate: &mut RunState,
    creator: Option<EntityId>,
    trigger_entity: EntityId,
    targets: &Targets,
    Ghost(cap): Ghost<nat>,
)
    requires
        old(world).wf(),
        old(queue).wf(),
        map.wf(),
        trigger_entity < old(world).spec_len(),
    ensures
        final(world).wf(),
        final(queue).wf(),
        final(queue).head == old(queue).head,
        final(world).spec_len() == old(world).spec_len(),
        *final(world) == (World {
            hidden: final(world).hidden,
            known_spells: final(world).known_spells,
            alive: final(world).alive,
            ..*old(world)
        }),
        final(world).hidden@ == old(world).hidden@.update(trigger_entity as int, false),
        final(world).alive@ == if spec_event_did(
            *old(world),
            trigger_entity as int,
            map.depth as int,
        ) && old(world).single_activation@[trigger_entity as int] {
            old(world).alive@.update(trigger_entity as int, false)
        } else {
            old(world).alive@
        },
        *final(runstate) == spec_event_runstate(
            *old(world),
            trigger_entity as int,
            map.depth as int,
            *old(runstate),
        ),
        exists|extra: Seq<String>| final(log).entries@ == old(log).entries@ + extra,
        exists|added: Seq<EffectSpawner>|
            {
                &&& final(queue).pending() == old(queue).pending() + added
                &&& forall|i: int|
                    0 <= i < added.len() ==> trigger_emitted_type(added[i].effect_type)
                &&& queue_potential(added, cap) <= 10 + 10 * targets_bound(*targets, cap)
            },
{
    world.hidden[trigger_entity] = false;
    proof {
        assert(world.hidden@ =~= old(world).hidden@.update(trigger_entity as int, false));
    }
    let did = event_trigger(
        world,
        map,
        queue,
        log,
        runstate,
        creator,
        trigger_entity,
        targets,
        Ghost(cap),
    );
    if did && world.single_activation[trigger_entity] {
        world.delete_entity(trigger_entity);
    }
}

} // verus!
