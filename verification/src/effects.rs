//! The deferred effects pipeline.
//!
//! Actions never mutate the world directly: they enqueue an
//! [`EffectSpawner`] describing what should happen and to whom, and the
//! queue is drained to completion once per simulation step. Draining is
//! strictly first-in-first-out, and a handler may enqueue further effects,
//! which are resolved in the same pass.

use vstd::prelude::*;
use crate::components::{
    AttributeBonus, Color, EntityId, ParticleRequest, Position, RunState, TeleportTo,
};
use crate::spatial::{SpatialIndex, lemma_occ_at_le_sum};
use crate::world::World;
use crate::map::{LevelMap, spec_xy_idx};

pub mod damage;
pub mod triggers;

verus! {

/// What a queued effect does once resolved.
#[derive(Clone, Debug)]
pub enum EffectType {
    Damage { amount: i32 },
    Bloodstain,
    Particle { glyph: char, fg: Color, bg: Color, lifespan: i32 },
    EntityDeath,
    Healing { amount: i32 },
    Mana { amount: i32 },
    Confusion { turns: i32 },
    TeleportTo { x: i32, y: i32, depth: i32, player_only: bool },
    AttributeEffect { bonus: AttributeBonus, name: String, duration: i32 },
    Slow { initiative_penalty: i32 },
    DamageOverTime { damage: i32 },
    WellFed,
    TriggerFire { trigger: EntityId },
}

/// Whom a queued effect is aimed at. Tile-directed targets expand to the
/// entities the spatial index holds on those tiles.
#[derive(Clone, Debug)]
pub enum Targets {
    Single { target: EntityId },
    TargetList { targets: Vec<EntityId> },
    Tile { tile_idx: usize },
    Tiles { tiles: Vec<usize> },
}

/// One pending effect: an optional originator for attribution, the effect
/// kind, and its targets.
#[derive(Clone, Debug)]
pub struct EffectSpawner {
    pub creator: Option<EntityId>,
    pub effect_type: EffectType,
    pub targets: Targets,
}

/// Append-only work list of pending effects, drained first-in-first-out.
#[derive(Clone, Debug)]
pub struct EffectQueue {
    pub items: Vec<EffectSpawner>,
    pub head: usize,
}

impl EffectQueue {
    /// The head never runs past the end.
    pub open spec fn wf(self) -> bool {
        self.head <= self.items@.len()
    }

    /// The effects still waiting to be resolved, in resolution order.
    pub open spec fn pending(self) -> Seq<EffectSpawner> {
        self.items@.skip(self.head as int)
    }

    /// An empty queue.
    pub fn new() -> (r: EffectQueue)
        ensures
            r.wf(),
            r.pending() == Seq::<EffectSpawner>::empty(),
    {
        let r = EffectQueue { items: Vec::new(), head: 0 };
        proof {
            assert(r.pending() =~= Seq::<EffectSpawner>::empty());
        }
        r
    }

    /// Whether any effect is still pending.
    pub fn is_empty(&self) -> (r: bool)
        requires
            self.wf(),
        ensures
            r == (self.pending().len() == 0),
    {
        self.head == self.items.len()
    }
}

/// Enqueue an effect for the current resolution pass.
pub fn add_effect(
    queue: &mut EffectQueue,
    creator: Option<EntityId>,
    effect_type: EffectType,
    targets: Targets,
)
    requires
        old(queue).wf(),
    ensures
        final(queue).wf(),
        final(queue).head == old(queue).head,
        final(queue).pending() == old(queue).pending().push(
            EffectSpawner { creator, effect_type, targets },
        ),
{
    let spawner = EffectSpawner { creator, effect_type, targets };
    queue.items.push(spawner);
    proof {
        assert(queue.pending() =~= old(queue).pending().push(
            EffectSpawner { creator, effect_type, targets },
        ));
    }
}

/// The tile index an entity stands on, if it has a position on the map.
pub fn entity_position(world: &World, target: EntityId, map: &LevelMap) -> (r: Option<usize>)
    requires
        world.wf(),
        map.wf(),
    ensures
        match r {
            Option::Some(idx) => {
                &&& target < world.spec_len()
                &&& world.position@[target as int] matches Option::Some(pos)
                &&& 0 <= pos.x < map.width
                &&& 0 <= pos.y < map.height
                &&& idx == spec_xy_idx(map.width as int, pos.x as int, pos.y as int)
                &&& idx < map.tiles@.len()
            },
            Option::None => !(target < world.spec_len() && world.position@[target as int] is Some
                && 0 <= world.position@[target as int]->Some_0.x < map.width && 0
                <= world.position@[target as int]->Some_0.y < map.height),
        },
{
    if target >= world.len() {
        return Option::None;
    }
    match world.position[target] {
        Option::Some(pos) => {
            if 0 <= pos.x && pos.x < map.width && 0 <= pos.y && pos.y < map.height {
                Option::Some(map.xy_idx(pos.x, pos.y))
            } else {
                Option::None
            }
        },
        Option::None => Option::None,
    }
}

/// Ghost view of a target description: Vecs become sequences, so two
/// target values that denote the same tiles or entities have one view.
pub enum TargetsV {
    Single(EntityId),
    List(Seq<EntityId>),
    Tile(usize),
    Tiles(Seq<usize>),
}

/// Ghost view of an effect kind; the one carried string becomes a
/// character sequence.
pub enum EffectTypeV {
    Damage(int),
    Bloodstain,
    Particle,
    EntityDeath,
    Healing(int),
    Mana(int),
    Confusion(int),
    TeleportTo(int, int, int, bool),
    AttributeEffect(AttributeBonus, Seq<char>, int),
    Slow(int),
    DamageOverTime(int),
    WellFed,
    TriggerFire(EntityId),
}

/// Ghost view of one pending effect.
pub struct EffectV {
    pub creator: Option<EntityId>,
    pub kind: EffectTypeV,
    pub targets: TargetsV,
}

/// The view of a target description.
pub open spec fn targets_view(t: Targets) -> TargetsV {
    match t {
        Targets::Single { target } => TargetsV::Single(target),
        Targets::TargetList { targets } => TargetsV::List(targets@),
        Targets::Tile { tile_idx } => TargetsV::Tile(tile_idx),
        Targets::Tiles { tiles } => TargetsV::Tiles(tiles@),
    }
}

/// The view of an effect kind.
pub open spec fn effect_type_view(t: EffectType) -> EffectTypeV {
    match t {
        EffectType::Damage { amount } => EffectTypeV::Damage(amount as int),
        EffectType::Bloodstain => EffectTypeV::Bloodstain,
        EffectType::Particle { .. } => EffectTypeV::Particle,
        EffectType::EntityDeath => EffectTypeV::EntityDeath,
        EffectType::Healing { amount } => EffectTypeV::Healing(amount as int),
        EffectType::Mana { amount } => EffectTypeV::Mana(amount as int),
        EffectType::Confusion { turns } => EffectTypeV::Confusion(turns as int),
        EffectType::TeleportTo { x, y, depth, player_only } => EffectTypeV::TeleportTo(
            x as int,
            y as int,
            depth as int,
            player_only,
        ),
        EffectType::AttributeEffect { bonus, name, duration } => EffectTypeV::AttributeEffect(
            bonus,
            name@,
            duration as int,
        ),
        EffectType::Slow { initiative_penalty } => EffectTypeV::Slow(initiative_penalty as int),
        EffectType::DamageOverTime { damage } => EffectTypeV::DamageOverTime(damage as int),
        EffectType::WellFed => EffectTypeV::WellFed,
        EffectType::TriggerFire { trigger } => EffectTypeV::TriggerFire(trigger),
    }
}

/// The view of one pending effect.
pub open spec fn effect_view(e: EffectSpawner) -> EffectV {
    EffectV {
        creator: e.creator,
        kind: effect_type_view(e.effect_type),
        targets: targets_view(e.targets),
    }
}

/// A copy of a target description; the copy has the same view.
pub fn clone_targets(t: &Targets) -> (r: Targets)
    ensures
        targets_view(r) == targets_view(*t),
{
    match t {
        Targets::Single { target } => Targets::Single { target: *target },
        Targets::Tile { tile_idx } => Targets::Tile { tile_idx: *tile_idx },
        Targets::TargetList { targets } => {
            let mut v: Vec<EntityId> = Vec::new();
            let mut i: usize = 0;
            while i < targets.len()
                invariant
                    i <= targets@.len(),
                    v@ == targets@.take(i as int),
                decreases targets@.len() - i,
            {
                v.push(targets[i]);
                proof {
                    assert(v@ =~= targets@.take(i + 1));
                }
                i = i + 1;
            }
            proof {
                assert(targets@.take(targets@.len() as int) =~= targets@);
            }
            Targets::TargetList { targets: v }
        },
        Targets::Tiles { tiles } => {
            let mut v: Vec<usize> = Vec::new();
            let mut i: usize = 0;
            while i < tiles.len()
                invariant
                    i <= tiles@.len(),
                    v@ == tiles@.take(i as int),
                decreases tiles@.len() - i,
            {
                v.push(tiles[i]);
                proof {
                    assert(v@ =~= tiles@.take(i + 1));
                }
                i = i + 1;
            }
            proof {
                assert(tiles@.take(tiles@.len() as int) =~= tiles@);
            }
            Targets::Tiles { tiles: v }
        },
    }
}

/// How many entities a target description can expand to, with `cap`
/// bounding the occupants of any one tile.
pub open spec fn targets_bound(t: Targets, cap: nat) -> nat {
    match t {
        Targets::Single { .. } => 1,
        Targets::TargetList { targets } => targets@.len(),
        Targets::Tile { .. } => cap,
        Targets::Tiles { tiles } => tiles@.len() * cap,
    }
}

/// Fuel one queued effect can consume before the pass must make progress:
/// cosmetic effects enqueue nothing, damage may enqueue one death per
/// target, and a fired trigger may enqueue up to ten effect requests, each
/// aimed at the trigger's own targets.
pub open spec fn effect_potential(e: EffectSpawner, cap: nat) -> nat {
    match e.effect_type {
        EffectType::Bloodstain => 0,
        EffectType::Particle { .. } => 0,
        EffectType::Damage { .. } => 1 + targets_bound(e.targets, cap),
        EffectType::TriggerFire { .. } => 12 + 10 * targets_bound(e.targets, cap),
        _ => 1,
    }
}

/// Total fuel of a queue segment.
pub open spec fn queue_potential(s: Seq<EffectSpawner>, cap: nat) -> nat
    decreases s.len(),
{
    if s.len() == 0 {
        0
    } else {
        queue_potential(s.drop_last(), cap) + effect_potential(s.last(), cap)
    }
}

/// Fuel of a concatenation is the sum of the parts' fuel.
pub proof fn lemma_queue_potential_add(a: Seq<EffectSpawner>, b: Seq<EffectSpawner>, cap: nat)
    ensures
        queue_potential(a + b, cap) == queue_potential(a, cap) + queue_potential(b, cap),
    decreases b.len(),
{
    if b.len() == 0 {
        assert(a + b =~= a);
    } else {
        lemma_queue_potential_add(a, b.drop_last(), cap);
        assert((a + b).drop_last() =~= a + b.drop_last());
        assert((a + b).last() == b.last());
    }
}

/// Fuel of the tail of a queue: dropping the first element costs its fuel.
pub proof fn lemma_queue_potential_skip(s: Seq<EffectSpawner>, cap: nat)
    requires
        s.len() > 0,
    ensures
        queue_potential(s, cap) == effect_potential(s[0], cap) + queue_potential(s.skip(1), cap),
{
    assert(s =~= seq![s[0]] + s.skip(1));
    lemma_queue_potential_add(seq![s[0]], s.skip(1), cap);
    assert(queue_potential(seq![s[0]], cap) == effect_potential(s[0], cap)) by {
        let single = seq![s[0]];
        assert(single.drop_last() =~= Seq::<EffectSpawner>::empty());
        assert(single.last() == s[0]);
        assert(queue_potential(single.drop_last(), cap) == 0);
    }
}

/// Expand a target description to the entities it denotes: a single
/// entity or explicit list as given; a tile or tile list to the entities
/// the spatial index holds there, skipping out-of-range tiles.
pub fn entity_targets(spatial: &SpatialIndex, targets: &Targets) -> (r: Vec<EntityId>)
    requires
        spatial.wf(),
    ensures
        r@.len() <= targets_bound(*targets, spatial.occupancy()),
        *targets matches Targets::Single { target } ==> r@ =~= seq![target],
        *targets matches Targets::TargetList { targets: ts } ==> r@ == ts@,
{
    match targets {
        Targets::Single { target } => {
            let mut v: Vec<EntityId> = Vec::new();
            v.push(*target);
            v
        },
        Targets::TargetList { targets } => {
            let mut v: Vec<EntityId> = Vec::new();
            let mut i: usize = 0;
            while i < targets.len()
                invariant
                    i <= targets@.len(),
                    v@ == targets@.take(i as int),
                decreases targets@.len() - i,
            {
                v.push(targets[i]);
                proof {
                    assert(v@ =~= targets@.take(i + 1));
                }
                i = i + 1;
            }
            proof {
                assert(targets@.take(targets@.len() as int) =~= targets@);
            }
            v
        },
        Targets::Tile { tile_idx } => occupants_of_tile(spatial, *tile_idx),
        Targets::Tiles { tiles } => {
            let mut v: Vec<EntityId> = Vec::new();
            let mut i: usize = 0;
            while i < tiles.len()
                invariant
                    spatial.wf(),
                    i <= tiles@.len(),
                    v@.len() <= i * spatial.occupancy(),
                decreases tiles@.len() - i,
            {
                let mut occ = occupants_of_tile(spatial, tiles[i]);
                let ghost prev_len = v@.len();
                let mut j: usize = 0;
                while j < occ.len()
                    invariant
                        j <= occ@.len(),
                        v@.len() == prev_len + j,
                    decreases occ@.len() - j,
                {
                    v.push(occ[j]);
                    j = j + 1;
                }
                assert(v@.len() <= (i + 1) * spatial.occupancy()) by (nonlinear_arith)
                    requires
                        v@.len() <= i * spatial.occupancy() + spatial.occupancy(),
                ;
                i = i + 1;
            }
            proof {
                assert(tiles@.len() * spatial.occupancy() >= i * spatial.occupancy())
                    by (nonlinear_arith)
                    requires
                        i <= tiles@.len(),
                ;
            }
            v
        },
    }
}

/// The entities on one tile, an out-of-range tile holding none; never more
/// than the index's whole occupancy.
fn occupants_of_tile(spatial: &SpatialIndex, tile_idx: usize) -> (r: Vec<EntityId>)
    requires
        spatial.wf(),
    ensures
        r@.len() <= spatial.occupancy(),
{
    if tile_idx < spatial.tile_content.len() {
        let r = spatial.occupants_at(tile_idx);
        proof {
            lemma_occ_at_le_sum(spatial.contents(), tile_idx as int);
        }
        r
    } else {
        Vec::new()
    }
}


/// A copy of an effect kind; the copy has the same view.
pub fn clone_effect_type(t: &EffectType) -> (r: EffectType)
    ensures
        effect_type_view(r) == effect_type_view(*t),
{
    match t {
        EffectType::Damage { amount } => EffectType::Damage { amount: *amount },
        EffectType::Bloodstain => EffectType::Bloodstain,
        EffectType::Particle { glyph, fg, bg, lifespan } => EffectType::Particle {
            glyph: *glyph,
            fg: *fg,
            bg: *bg,
            lifespan: *lifespan,
        },
        EffectType::EntityDeath => EffectType::EntityDeath,
        EffectType::Healing { amount } => EffectType::Healing { amount: *amount },
        EffectType::Mana { amount } => EffectType::Mana { amount: *amount },
        EffectType::Confusion { turns } => EffectType::Confusion { turns: *turns },
        EffectType::TeleportTo { x, y, depth, player_only } => EffectType::TeleportTo {
            x: *x,
            y: *y,
            depth: *depth,
            player_only: *player_only,
        },
        EffectType::AttributeEffect { bonus, name, duration } => EffectType::AttributeEffect {
            bonus: *bonus,
            name: name.clone(),
            duration: *duration,
        },
        EffectType::Slow { initiative_penalty } => EffectType::Slow {
            initiative_penalty: *initiative_penalty,
        },
        EffectType::DamageOverTime { damage } => EffectType::DamageOverTime { damage: *damage },
        EffectType::WellFed => EffectType::WellFed,
        EffectType::TriggerFire { trigger } => EffectType::TriggerFire { trigger: *trigger },
    }
}

/// Take the next pending effect off the queue; the copy handed back has
/// the view of the queue's former first element.
pub fn take_next(queue: &mut EffectQueue) -> (r: EffectSpawner)
    requires
        old(queue).wf(),
        old(queue).pending().len() > 0,
    ensures
        final(queue).wf(),
        final(queue).pending() == old(queue).pending().skip(1),
        effect_view(r) == effect_view(old(queue).pending()[0]),
{
    let creator = queue.items[queue.head].creator;
    let effect_type = clone_effect_type(&queue.items[queue.head].effect_type);
    let targets = clone_targets(&queue.items[queue.head].targets);
    let n = queue.items.len();
    proof {
        assert(queue.head < n);
    }
    queue.head = queue.head + 1;
    proof {
        assert(queue.pending() =~= old(queue).pending().skip(1));
    }
    EffectSpawner { creator, effect_type, targets }
}

/// Effects with one view carry the same fuel.
pub proof fn lemma_effect_potential_view(a: EffectSpawner, b: EffectSpawner, cap: nat)
    requires
        effect_view(a) == effect_view(b),
    ensures
        effect_potential(a, cap) == effect_potential(b, cap),
{
}

/// The target bound grows with the per-tile occupancy bound.
pub proof fn lemma_targets_bound_mono(t: Targets, small: nat, big: nat)
    requires
        small <= big,
    ensures
        targets_bound(t, small) <= targets_bound(t, big),
{
    match t {
        Targets::Tiles { tiles } => {
            assert(tiles@.len() * small <= tiles@.len() * big) by (nonlinear_arith)
                requires
                    small <= big,
            ;
        },
        _ => {},
    }
}

/// A cosmetic segment (bloodstains and particles only) carries no fuel.
pub proof fn lemma_qp_cosmetic(s: Seq<EffectSpawner>, cap: nat)
    requires
        forall|j: int|
            0 <= j < s.len() ==> (s[j].effect_type is Bloodstain || s[j].effect_type is Particle),
    ensures
        queue_potential(s, cap) == 0,
    decreases s.len(),
{
    if s.len() > 0 {
        lemma_qp_cosmetic(s.drop_last(), cap);
    }
}


/// A teleport recorded during resolution, applied between ticks.
#[derive(Clone, Copy, Debug, PartialEq, Eq, Structural)]
pub struct PendingTeleport {
    pub entity: EntityId,
    pub destination: TeleportTo,
}

/// Damage every expanded target of one damage request.
fn damage_all(
    world: &mut World,
    map: &LevelMap,
    queue: &mut EffectQueue,
    creator: Option<EntityId>,
    amount: i32,
    tlist: &Vec<EntityId>,
    Ghost(cap): Ghost<nat>,
)
    requires
        old(world).wf(),
        old(queue).wf(),
        map.wf(),
    ensures
        final(world).wf(),
        final(queue).wf(),
        final(queue).head == old(queue).head,
        final(world).spec_len() == old(world).spec_len(),
        *final(world) == (World { pools: final(world).pools, ..*old(world) }),
        exists|added: Seq<EffectSpawner>|
            {
                &&& final(queue).pending() == old(queue).pending() + added
                &&& queue_potential(added, cap) <= tlist@.len()
            },
{
    let ghost base = queue.pending();
    proof {
        assert(queue.pending() =~= base + Seq::<EffectSpawner>::empty());
        lemma_qp_cosmetic(Seq::<EffectSpawner>::empty(), cap);
    }
    let mut k: usize = 0;
    while k < tlist.len()
        invariant
            world.wf(),
            queue.wf(),
            map.wf(),
            queue.head == old(queue).head,
            world.spec_len() == old(world).spec_len(),
            *world == (World { pools: world.pools, ..*old(world) }),
            k <= tlist@.len(),
            exists|added: Seq<EffectSpawner>|
                {
                    &&& queue.pending() == base + added
                    &&& queue_potential(added, cap) <= k
                },
        decreases tlist@.len() - k,
    {
        let ghost prev = queue.pending();
        let ghost w_prev = *world;
        let ghost prev_added = choose|added: Seq<EffectSpawner>|
            {
                &&& prev == base + added
                &&& queue_potential(added, cap) <= k
            };
        let target = tlist[k];
        crate::effects::damage::inflict_damage(world, map, queue, creator, amount, target);
        proof {
            let seg = queue.pending().skip(prev.len() as int);
            if crate::effects::damage::damage_applies(w_prev, creator, target) {
                let p = w_prev.pools@[target as int]->Some_0;
                let new_hp = crate::gamesystem::spec_clamped(p.hit_points.current - amount);
                let crossed = p.hit_points.current >= 1 && new_hp < 1;
                let cosmetic = choose|cosmetic: Seq<EffectSpawner>|
                    {
                        &&& queue.pending() == prev + cosmetic + (if crossed {
                            seq![crate::effects::damage::death_effect(creator, target)]
                        } else {
                            Seq::<EffectSpawner>::empty()
                        })
                        &&& forall|i: int|
                            0 <= i < cosmetic.len() ==> (cosmetic[i].effect_type is Bloodstain
                                || cosmetic[i].effect_type is Particle)
                    };
                let dpart = if crossed {
                    seq![crate::effects::damage::death_effect(creator, target)]
                } else {
                    Seq::<EffectSpawner>::empty()
                };
                assert(seg =~= cosmetic + dpart);
                lemma_queue_potential_add(cosmetic, dpart, cap);
                lemma_qp_cosmetic(cosmetic, cap);
                if crossed {
                    crate::effects::triggers::lemma_qp_push(Seq::<EffectSpawner>::empty(), dpart[0], cap);
                    assert(Seq::<EffectSpawner>::empty().push(dpart[0]) =~= dpart);
                }
                assert(queue_potential(seg, cap) <= 1);
            } else {
                assert(queue.pending() == prev);
                assert(seg =~= Seq::<EffectSpawner>::empty());
                assert(queue_potential(seg, cap) == 0);
            }
            assert(queue.pending() =~= prev + seg);
            assert(queue.pending() =~= base + (prev_added + seg));
            lemma_queue_potential_add(prev_added, seg, cap);
        }
        k = k + 1;
    }
}

/// Heal or restore mana for every expanded target of one request.
fn restore_all(
    world: &mut World,
    queue: &mut EffectQueue,
    amount: i32,
    tlist: &Vec<EntityId>,
    heal: bool,
    Ghost(cap): Ghost<nat>,
)
    requires
        old(world).wf(),
        old(queue).wf(),
    ensures
        final(world).wf(),
        final(queue).wf(),
        final(queue).head == old(queue).head,
        final(world).spec_len() == old(world).spec_len(),
        *final(world) == (World { pools: final(world).pools, ..*old(world) }),
        exists|added: Seq<EffectSpawner>|
            {
                &&& final(queue).pending() == old(queue).pending() + added
                &&& queue_potential(added, cap) == 0
            },
{
    let ghost base = queue.pending();
    proof {
        assert(queue.pending() =~= base + Seq::<EffectSpawner>::empty());
        lemma_qp_cosmetic(Seq::<EffectSpawner>::empty(), cap);
    }
    let mut k: usize = 0;
    while k < tlist.len()
        invariant
            world.wf(),
            queue.wf(),
            queue.head == old(queue).head,
            world.spec_len() == old(world).spec_len(),
            *world == (World { pools: world.pools, ..*old(world) }),
            k <= tlist@.len(),
            exists|added: Seq<EffectSpawner>|
                {
                    &&& queue.pending() == base + added
                    &&& forall|i: int| 0 <= i < added.len() ==> added[i].effect_type is Particle
                },
        decreases tlist@.len() - k,
    {
        let ghost prev = queue.pending();
        let ghost prev_added = choose|added: Seq<EffectSpawner>|
            {
                &&& prev == base + added
                &&& forall|i: int| 0 <= i < added.len() ==> added[i].effect_type is Particle
            };
        if heal {
            crate::effects::damage::heal_damage(world, queue, amount, tlist[k]);
        } else {
            crate::effects::damage::restore_mana(world, queue, amount, tlist[k]);
        }
        proof {
            let seg = queue.pending().skip(prev.len() as int);
            assert(queue.pending() =~= prev + seg);
            assert(queue.pending() =~= base + (prev_added + seg));
        }
        k = k + 1;
    }
    proof {
        let added = choose|added: Seq<EffectSpawner>|
            {
                &&& queue.pending() == base + added
                &&& forall|i: int| 0 <= i < added.len() ==> added[i].effect_type is Particle
            };
        lemma_qp_particles_here(added, cap);
    }
}

/// A particle-only segment carries no fuel.
proof fn lemma_qp_particles_here(s: Seq<EffectSpawner>, cap: nat)
    requires
        forall|j: int| 0 <= j < s.len() ==> s[j].effect_type is Particle,
    ensures
        queue_potential(s, cap) == 0,
    decreases s.len(),
{
    if s.len() > 0 {
        lemma_qp_particles_here(s.drop_last(), cap);
    }
}

/// Resolve a death notice for every expanded target.
fn death_all(
    world: &mut World,
    map: &LevelMap,
    queue: &mut EffectQueue,
    spatial: &mut SpatialIndex,
    rng: &mut rltk::RandomNumberGenerator,
    log: &mut crate::components::GameLog,
    creator: Option<EntityId>,
    tlist: &Vec<EntityId>,
    Ghost(cap): Ghost<nat>,
)
    requires
        old(world).wf(),
        old(queue).wf(),
        old(spatial).wf(),
        map.wf(),
    ensures
        final(world).wf(),
        final(queue).wf(),
        final(spatial).wf(),
        final(queue).head == old(queue).head,
        final(world).spec_len() == old(world).spec_len(),
        final(spatial).tile_content@.len() == old(spatial).tile_content@.len(),
        final(spatial).occupancy() <= old(spatial).occupancy(),
        exists|extra: Seq<String>| final(log).entries@ == old(log).entries@ + extra,
        exists|added: Seq<EffectSpawner>|
            {
                &&& final(queue).pending() == old(queue).pending() + added
                &&& queue_potential(added, cap) == 0
            },
{
    let ghost base = queue.pending();
    let ghost base_log = log.entries@;
    proof {
        assert(queue.pending() =~= base + Seq::<EffectSpawner>::empty());
        assert(log.entries@ =~= base_log + Seq::<String>::empty());
    }
    let mut k: usize = 0;
    while k < tlist.len()
        invariant
            world.wf(),
            queue.wf(),
            spatial.wf(),
            map.wf(),
            queue.head == old(queue).head,
            world.spec_len() == old(world).spec_len(),
            spatial.tile_content@.len() == old(spatial).tile_content@.len(),
            spatial.occupancy() <= old(spatial).occupancy(),
            k <= tlist@.len(),
            exists|extra: Seq<String>| log.entries@ == base_log + extra,
            exists|added: Seq<EffectSpawner>|
                {
                    &&& queue.pending() == base + added
                    &&& forall|i: int| 0 <= i < added.len() ==> added[i].effect_type is Particle
                },
        decreases tlist@.len() - k,
    {
        let ghost prev = queue.pending();
        let ghost prev_log = log.entries@;
        let ghost prev_added = choose|added: Seq<EffectSpawner>|
            {
                &&& prev == base + added
                &&& forall|i: int| 0 <= i < added.len() ==> added[i].effect_type is Particle
            };
        let ghost prev_extra = choose|extra: Seq<String>| prev_log == base_log + extra;
        crate::effects::damage::death(world, map, queue, spatial, rng, log, creator, tlist[k]);
        proof {
            let seg = queue.pending().skip(prev.len() as int);
            assert(queue.pending() =~= prev + seg);
            assert(queue.pending() =~= base + (prev_added + seg));
            let lseg = log.entries@.skip(prev_log.len() as int);
            assert(log.entries@ =~= prev_log + lseg);
            assert(log.entries@ =~= base_log + (prev_extra + lseg));
        }
        k = k + 1;
    }
    proof {
        let added = choose|added: Seq<EffectSpawner>|
            {
                &&& queue.pending() == base + added
                &&& forall|i: int| 0 <= i < added.len() ==> added[i].effect_type is Particle
            };
        lemma_qp_particles_here(added, cap);
    }
}

/// Attach a status effect of the requested kind to every expanded target.
fn status_all(
    world: &mut World,
    effect_type: &EffectType,
    tlist: &Vec<EntityId>,
)
    requires
        old(world).wf(),
        effect_type matches EffectType::Confusion { .. } || effect_type matches EffectType::Slow {
            ..
        } || effect_type matches EffectType::DamageOverTime { .. } || effect_type
            matches EffectType::AttributeEffect { .. },
    ensures
        final(world).wf(),
        final(world).spec_len() >= old(world).spec_len(),
{
    let mut k: usize = 0;
    while k < tlist.len()
        invariant
            world.wf(),
            world.spec_len() >= old(world).spec_len(),
            k <= tlist@.len(),
        decreases tlist@.len() - k,
    {
        if world.len() < 1_000_000_000 {
            match effect_type {
                EffectType::Confusion { turns } => {
                    crate::effects::damage::add_confusion(world, *turns, tlist[k]);
                },
                EffectType::Slow { initiative_penalty } => {
                    crate::effects::damage::slow(world, *initiative_penalty, tlist[k]);
                },
                EffectType::DamageOverTime { damage } => {
                    crate::effects::damage::damage_over_time(world, *damage, tlist[k]);
                },
                EffectType::AttributeEffect { bonus, name, duration } => {
                    crate::effects::damage::attribute_effect(
                        world,
                        *bonus,
                        name.clone(),
                        *duration,
                        tlist[k],
                    );
                },
                _ => {},
            }
        }
        k = k + 1;
    }
}

/// Mark every expanded target well fed.
fn well_fed_all(world: &mut World, tlist: &Vec<EntityId>)
    requires
        old(world).wf(),
    ensures
        final(world).wf(),
        final(world).spec_len() == old(world).spec_len(),
        *final(world) == (World { hunger: final(world).hunger, ..*old(world) }),
{
    let mut k: usize = 0;
    while k < tlist.len()
        invariant
            world.wf(),
            world.spec_len() == old(world).spec_len(),
            *world == (World { hunger: world.hunger, ..*old(world) }),
            k <= tlist@.len(),
        decreases tlist@.len() - k,
    {
        let t = tlist[k];
        if t < world.len() {
            if let Option::Some(clock) = world.hunger[t] {
                world.hunger[t] = Option::Some(
                    crate::components::HungerClock {
                        state: crate::components::HungerState::WellFed,
                        duration: 20,
                    },
                );
            }
        }
        k = k + 1;
    }
}

/// Record a deferred teleport intent for every expanded target the
/// request may move.
fn teleport_all(
    world: &World,
    pending_teleports: &mut Vec<PendingTeleport>,
    destination: TeleportTo,
    tlist: &Vec<EntityId>,
)
    requires
        world.wf(),
    ensures
        final(pending_teleports)@.len() >= old(pending_teleports)@.len(),
        forall|i: int|
            0 <= i < old(pending_teleports)@.len()
                ==> final(pending_teleports)@[i] == old(pending_teleports)@[i],
        forall|i: int|
            old(pending_teleports)@.len() <= i < final(pending_teleports)@.len()
                ==> final(pending_teleports)@[i].destination == destination,
{
    let mut k: usize = 0;
    while k < tlist.len()
        invariant
            pending_teleports@.len() >= old(pending_teleports)@.len(),
            forall|i: int|
                0 <= i < old(pending_teleports)@.len()
                    ==> pending_teleports@[i] == old(pending_teleports)@[i],
            forall|i: int|
                old(pending_teleports)@.len() <= i < pending_teleports@.len()
                    ==> pending_teleports@[i].destination == destination,
            k <= tlist@.len(),
            world.wf(),
        decreases tlist@.len() - k,
    {
        let t = tlist[k];
        let moves = if destination.player_only {
            t < world.len() && world.player[t]
        } else {
            true
        };
        if moves {
            pending_teleports.push(PendingTeleport { entity: t, destination });
        }
        k = k + 1;
    }
}

/// Show a particle at every targeted entity's tile, or at the targeted
/// tiles themselves.
fn particle_all(
    world: &World,
    map: &LevelMap,
    particles: &mut Vec<ParticleRequest>,
    glyph: char,
    fg: Color,
    bg: Color,
    lifespan: i32,
    targets: &Targets,
    spatial: &SpatialIndex,
)
    requires
        world.wf(),
        map.wf(),
        spatial.wf(),
    ensures
        final(particles)@.len() >= old(particles)@.len(),
        forall|i: int|
            0 <= i < old(particles)@.len() ==> final(particles)@[i] == old(particles)@[i],
{
    match targets {
        Targets::Tile { tile_idx } => {
            push_tile_particle(map, particles, glyph, fg, bg, lifespan, *tile_idx);
        },
        Targets::Tiles { tiles } => {
            let mut k: usize = 0;
            while k < tiles.len()
                invariant
                    map.wf(),
                    particles@.len() >= old(particles)@.len(),
                    forall|i: int|
                        0 <= i < old(particles)@.len() ==> particles@[i] == old(particles)@[i],
                    k <= tiles@.len(),
                decreases tiles@.len() - k,
            {
                push_tile_particle(map, particles, glyph, fg, bg, lifespan, tiles[k]);
                k = k + 1;
            }
        },
        Targets::Single { target } => {
            push_entity_particle(world, map, particles, glyph, fg, bg, lifespan, *target);
        },
        Targets::TargetList { targets: tl } => {
            let mut k: usize = 0;
            while k < tl.len()
                invariant
                    world.wf(),
                    map.wf(),
                    particles@.len() >= old(particles)@.len(),
                    forall|i: int|
                        0 <= i < old(particles)@.len() ==> particles@[i] == old(particles)@[i],
                    k <= tl@.len(),
                decreases tl@.len() - k,
            {
                push_entity_particle(world, map, particles, glyph, fg, bg, lifespan, tl[k]);
                k = k + 1;
            }
        },
    }
}

/// One particle at a tile, if it lies on the map.
fn push_tile_particle(
    map: &LevelMap,
    particles: &mut Vec<ParticleRequest>,
    glyph: char,
    fg: Color,
    bg: Color,
    lifespan: i32,
    tile_idx: usize,
)
    requires
        map.wf(),
    ensures
        final(particles)@.len() >= old(particles)@.len(),
        forall|i: int|
            0 <= i < old(particles)@.len() ==> final(particles)@[i] == old(particles)@[i],
{
    if tile_idx < map.tiles.len() {
        let w = map.width as usize;
        let x = (tile_idx % w) as i32;
        let y = (tile_idx / w) as i32;
        particles.push(ParticleRequest { x, y, fg, bg, glyph, lifetime_ms: lifespan });
    }
}

/// One particle at an entity's tile, if it stands on the map.
fn push_entity_particle(
    world: &World,
    map: &LevelMap,
    particles: &mut Vec<ParticleRequest>,
    glyph: char,
    fg: Color,
    bg: Color,
    lifespan: i32,
    target: EntityId,
)
    requires
        world.wf(),
        map.wf(),
    ensures
        final(particles)@.len() >= old(particles)@.len(),
        forall|i: int|
            0 <= i < old(particles)@.len() ==> final(particles)@[i] == old(particles)@[i],
{
    if target < world.len() {
        if let Option::Some(pos) = world.position[target] {
            particles.push(
                ParticleRequest { x: pos.x, y: pos.y, fg, bg, glyph, lifetime_ms: lifespan },
            );
        }
    }
}


/// Resolve one dequeued effect: expand its targets and apply the matching
/// handler to each. Cosmetic effects enqueue nothing; every other kind
/// enqueues strictly less fuel than it carried.
fn process_effect(
    world: &mut World,
    map: &mut LevelMap,
    queue: &mut EffectQueue,
    spatial: &mut SpatialIndex,
    particles: &mut Vec<ParticleRequest>,
    pending_teleports: &mut Vec<PendingTeleport>,
    rng: &mut rltk::RandomNumberGenerator,
    log: &mut crate::components::GameLog,
    runstate: &mut RunState,
    eff: EffectSpawner,
    Ghost(cap): Ghost<nat>,
)
    requires
        old(world).wf(),
        old(queue).wf(),
        old(spatial).wf(),
        old(map).wf(),
        old(spatial).occupancy() <= cap,
    ensures
        final(world).wf(),
        final(queue).wf(),
        final(spatial).wf(),
        final(map).wf(),
        final(queue).head == old(queue).head,
        final(world).spec_len() >= old(world).spec_len(),
        final(spatial).tile_content@.len() == old(spatial).tile_content@.len(),
        final(spatial).occupancy() <= old(spatial).occupancy(),
        *final(map) == (LevelMap { bloodstains: final(map).bloodstains, ..*old(map) }),
        final(map).bloodstains@.len() == old(map).bloodstains@.len(),
        exists|extra: Seq<String>| final(log).entries@ == old(log).entries@ + extra,
        effect_potential(eff, cap) == 0 ==> final(queue).pending() == old(queue).pending(),
        effect_potential(eff, cap) > 0 ==> exists|added: Seq<EffectSpawner>|
            {
                &&& final(queue).pending() == old(queue).pending() + added
                &&& queue_potential(added, cap) < effect_potential(eff, cap)
            },
{
    proof {
        assert(log.entries@ =~= old(log).entries@ + Seq::<String>::empty());
    }
    let ghost base = queue.pending();
    match &eff.effect_type {
        EffectType::Bloodstain => {
            if let Targets::Tile { tile_idx } = &eff.targets {
                if *tile_idx < map.tiles.len() {
                    map.add_bloodstain(*tile_idx);
                }
            }
        },
        EffectType::Particle { glyph, fg, bg, lifespan } => {
            particle_all(world, map, particles, *glyph, *fg, *bg, *lifespan, &eff.targets, spatial);
        },
        EffectType::Damage { amount } => {
            let tlist = entity_targets(spatial, &eff.targets);
            proof {
                lemma_targets_bound_mono(eff.targets, spatial.occupancy(), cap);
            }
            damage_all(world, map, queue, eff.creator, *amount, &tlist, Ghost(cap));
            proof {
                let added = choose|added: Seq<EffectSpawner>|
                    {
                        &&& queue.pending() == base + added
                        &&& queue_potential(added, cap) <= tlist@.len()
                    };
                assert(queue_potential(added, cap) < effect_potential(eff, cap));
            }
        },
        EffectType::Healing { amount } => {
            let tlist = entity_targets(spatial, &eff.targets);
            restore_all(world, queue, *amount, &tlist, true, Ghost(cap));
        },
        EffectType::Mana { amount } => {
            let tlist = entity_targets(spatial, &eff.targets);
            restore_all(world, queue, *amount, &tlist, false, Ghost(cap));
        },
        EffectType::EntityDeath => {
            let tlist = entity_targets(spatial, &eff.targets);
            death_all(world, map, queue, spatial, rng, log, eff.creator, &tlist, Ghost(cap));
        },
        EffectType::Confusion { .. } => {
            let tlist = entity_targets(spatial, &eff.targets);
            status_all(world, &eff.effect_type, &tlist);
            proof {
                assert(queue.pending() =~= base + Seq::<EffectSpawner>::empty());
                lemma_qp_cosmetic(Seq::<EffectSpawner>::empty(), cap);
            }
        },
        EffectType::Slow { .. } => {
            let tlist = entity_targets(spatial, &eff.targets);
            status_all(world, &eff.effect_type, &tlist);
            proof {
                assert(queue.pending() =~= base + Seq::<EffectSpawner>::empty());
                lemma_qp_cosmetic(Seq::<EffectSpawner>::empty(), cap);
            }
        },
        EffectType::DamageOverTime { .. } => {
            let tlist = entity_targets(spatial, &eff.targets);
            status_all(world, &eff.effect_type, &tlist);
            proof {
                assert(queue.pending() =~= base + Seq::<EffectSpawner>::empty());
                lemma_qp_cosmetic(Seq::<EffectSpawner>::empty(), cap);
            }
        },
        EffectType::AttributeEffect { .. } => {
            let tlist = entity_targets(spatial, &eff.targets);
            status_all(world, &eff.effect_type, &tlist);
            proof {
                assert(queue.pending() =~= base + Seq::<EffectSpawner>::empty());
                lemma_qp_cosmetic(Seq::<EffectSpawner>::empty(), cap);
            }
        },
        EffectType::WellFed => {
            let tlist = entity_targets(spatial, &eff.targets);
            well_fed_all(world, &tlist);
            proof {
                assert(queue.pending() =~= base + Seq::<EffectSpawner>::empty());
                lemma_qp_cosmetic(Seq::<EffectSpawner>::empty(), cap);
            }
        },
        EffectType::TeleportTo { x, y, depth, player_only } => {
            let tlist = entity_targets(spatial, &eff.targets);
            let destination = TeleportTo { x: *x, y: *y, depth: *depth, player_only: *player_only };
            teleport_all(world, pending_teleports, destination, &tlist);
            proof {
                assert(queue.pending() =~= base + Seq::<EffectSpawner>::empty());
                lemma_qp_cosmetic(Seq::<EffectSpawner>::empty(), cap);
            }
        },
        EffectType::TriggerFire { trigger } => {
            if *trigger < world.len() {
                crate::effects::triggers::trigger(
                    world,
                    map,
                    queue,
                    log,
                    runstate,
                    eff.creator,
                    *trigger,
                    &eff.targets,
                    Ghost(cap),
                );
            } else {
                proof {
                    assert(queue.pending() =~= base + Seq::<EffectSpawner>::empty());
                    lemma_qp_cosmetic(Seq::<EffectSpawner>::empty(), cap);
                }
            }
        },
    }
}

/// Drain the queue to completion, strictly first-in-first-out: every
/// pending effect is resolved, including the effects that handlers enqueue
/// while the pass runs. When the pass ends nothing is pending; the map can
/// only have gained bloodstains, the spatial index only lost occupants,
/// and the log only gained lines.
pub fn run_effects_queue(
    world: &mut World,
    map: &mut LevelMap,
    queue: &mut EffectQueue,
    spatial: &mut SpatialIndex,
    particles: &mut Vec<ParticleRequest>,
    pending_teleports: &mut Vec<PendingTeleport>,
    rng: &mut rltk::RandomNumberGenerator,
    log: &mut crate::components::GameLog,
    runstate: &mut RunState,
)
    requires
        old(world).wf(),
        old(queue).wf(),
        old(spatial).wf(),
        old(map).wf(),
    ensures
        final(world).wf(),
        final(queue).wf(),
        final(spatial).wf(),
        final(map).wf(),
        final(queue).pending().len() == 0,
        final(world).spec_len() >= old(world).spec_len(),
        final(spatial).tile_content@.len() == old(spatial).tile_content@.len(),
        final(spatial).occupancy() <= old(spatial).occupancy(),
        *final(map) == (LevelMap { bloodstains: final(map).bloodstains, ..*old(map) }),
        final(map).bloodstains@.len() == old(map).bloodstains@.len(),
        exists|extra: Seq<String>| final(log).entries@ == old(log).entries@ + extra,
{
    let ghost cap = spatial.occupancy();
    proof {
        assert(log.entries@ =~= old(log).entries@ + Seq::<String>::empty());
    }
    loop
        invariant
            world.wf(),
            queue.wf(),
            spatial.wf(),
            map.wf(),
            spatial.occupancy() <= cap,
            cap <= old(spatial).occupancy(),
            world.spec_len() >= old(world).spec_len(),
            spatial.tile_content@.len() == old(spatial).tile_content@.len(),
            spatial.occupancy() <= old(spatial).occupancy(),
            *map == (LevelMap { bloodstains: map.bloodstains, ..*old(map) }),
            map.bloodstains@.len() == old(map).bloodstains@.len(),
            exists|extra: Seq<String>| log.entries@ == old(log).entries@ + extra,
        ensures
            queue.pending().len() == 0,
        decreases queue_potential(queue.pending(), cap), queue.pending().len(),
    {
        if queue.is_empty() {
            break ;
        }
        let ghost pend0 = queue.pending();
        let ghost prev_log = log.entries@;
        let ghost prev_extra = choose|extra: Seq<String>| prev_log == old(log).entries@ + extra;
        let eff = take_next(queue);
        proof {
            lemma_queue_potential_skip(pend0, cap);
            lemma_effect_potential_view(eff, pend0[0], cap);
        }
        process_effect(
            world,
            map,
            queue,
            spatial,
            particles,
            pending_teleports,
            rng,
            log,
            runstate,
            eff,
            Ghost(cap),
        );
        proof {
            let lseg = log.entries@.skip(prev_log.len() as int);
            assert(log.entries@ =~= prev_log + lseg);
            assert(log.entries@ =~= old(log).entries@ + (prev_extra + lseg));
            if effect_potential(pend0[0], cap) > 0 {
                let added = choose|added: Seq<EffectSpawner>|
                    {
                        &&& queue.pending() == pend0.skip(1) + added
                        &&& queue_potential(added, cap) < effect_potential(pend0[0], cap)
                    };
                lemma_queue_potential_add(pend0.skip(1), added, cap);
                assert(queue_potential(queue.pending(), cap) < queue_potential(pend0, cap));
            } else {
                assert(queue.pending() == pend0.skip(1));
                assert(queue_potential(queue.pending(), cap) <= queue_potential(pend0, cap));
                assert(queue.pending().len() < pend0.len());
            }
        }
    }
}

} // verus!
