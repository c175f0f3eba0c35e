//! Encumbrance: recompute carried weight and initiative penalty for every
//! entity whose equipment changed, and slow the overloaded.

use vstd::prelude::*;
use vstd::string::StringExecFns;
use crate::components::{EntityId, GameLog, Pools};
use crate::gamesystem::{spec_clamped};
use crate::world::World;

verus! {

/// What one entity row adds to an owner's carried weight: the weight of a
/// live item it owns, worn or in the backpack.
pub open spec fn spec_item_weight_at(w: World, owner: int, i: int) -> int {
    if 0 <= i < w.spec_len() && w.alive@[i] && w.item@[i] is Some && ((
    w.equipped@[i] matches Option::Some(eq) && eq.owner == owner) || (
    w.in_backpack@[i] matches Option::Some(b) && b.owner == owner)) {
        w.item@[i]->Some_0.weight as int
    } else {
        0
    }
}

/// What one entity row adds to an owner's initiative penalty.
pub open spec fn spec_item_penalty_at(w: World, owner: int, i: int) -> int {
    if 0 <= i < w.spec_len() && w.alive@[i] && w.item@[i] is Some && ((
    w.equipped@[i] matches Option::Some(eq) && eq.owner == owner) || (
    w.in_backpack@[i] matches Option::Some(b) && b.owner == owner)) {
        w.item@[i]->Some_0.initiative_penalty as int
    } else {
        0
    }
}

/// Total weight the first `k` rows add for an owner.
pub open spec fn spec_weight_sum(w: World, owner: int, k: int) -> int
    decreases k,
{
    if k <= 0 {
        0
    } else {
        spec_weight_sum(w, owner, k - 1) + spec_item_weight_at(w, owner, k - 1)
    }
}

/// Total initiative penalty the first `k` rows add for an owner.
pub open spec fn spec_penalty_sum(w: World, owner: int, k: int) -> int
    decreases k,
{
    if k <= 0 {
        0
    } else {
        spec_penalty_sum(w, owner, k - 1) + spec_item_penalty_at(w, owner, k - 1)
    }
}

/// The carry capacity of an entity: seven units per point of might.
pub open spec fn spec_carry_capacity(w: World, e: int) -> int {
    if w.attributes@[e] is Some {
        spec_clamped(
            (w.attributes@[e]->Some_0.might.base + w.attributes@[e]->Some_0.might.modifiers) * 7,
        )
    } else {
        0
    }
}

/// Whether the encumbrance pass recomputes this entity's totals.
pub open spec fn spec_encumbrance_applies(w: World, e: int) -> bool {
    &&& 0 <= e < w.spec_len()
    &&& w.alive@[e]
    &&& w.equipment_changed@[e]
    &&& w.pools@[e] is Some
}

/// The recomputed total weight of an entity, clamped at machine limits.
pub open spec fn spec_new_weight(w: World, e: int) -> int {
    spec_clamped(spec_weight_sum(w, e, w.spec_len()))
}

/// The recomputed initiative penalty: the items' total, plus four when the
/// entity carries more than its capacity.
pub open spec fn spec_new_penalty(w: World, e: int) -> int {
    let base = spec_clamped(spec_penalty_sum(w, e, w.spec_len()));
    if w.attributes@[e] is Some && spec_new_weight(w, e) > spec_carry_capacity(w, e) {
        spec_clamped(base + 4)
    } else {
        base
    }
}

/// The weight and penalty totals an owner's items add, exactly.
fn carried_totals(world: &World, owner: EntityId) -> (r: (i32, i32))
    requires
        world.wf(),
    ensures
        r.0 == spec_clamped(spec_weight_sum(*world, owner as int, world.spec_len())),
        r.1 == spec_clamped(spec_penalty_sum(*world, owner as int, world.spec_len())),
{
    let n = world.len();
    let mut weight: i128 = 0;
    let mut penalty: i128 = 0;
    let mut i: usize = 0;
    while i < n
        invariant
            world.wf(),
            n == world.spec_len(),
            i <= n,
            weight == spec_weight_sum(*world, owner as int, i as int),
            penalty == spec_penalty_sum(*world, owner as int, i as int),
            -(i * 0x8000_0000) <= weight <= i * 0x8000_0000,
            -(i * 0x8000_0000) <= penalty <= i * 0x8000_0000,
        decreases n - i,
    {
        let carried = world.alive[i] && world.item[i].is_some() && {
            let owned_worn = if let Option::Some(eq) = world.equipped[i] {
                eq.owner == owner
            } else {
                false
            };
            let owned_packed = if let Option::Some(b) = world.in_backpack[i] {
                b.owner == owner
            } else {
                false
            };
            owned_worn || owned_packed
        };
        if carried {
            let it = world.item[i].unwrap();
            weight = weight + (it.weight as i128);
            penalty = penalty + (it.initiative_penalty as i128);
        }
        proof {
            assert((i + 1) * 0x8000_0000int == i * 0x8000_0000 + 0x8000_0000)
                by (nonlinear_arith);
        }
        i = i + 1;
    }
    let w_out: i32 = if weight > i32::MAX as i128 {
        i32::MAX
    } else if weight < i32::MIN as i128 {
        i32::MIN
    } else {
        weight as i32
    };
    let p_out: i32 = if penalty > i32::MAX as i128 {
        i32::MAX
    } else if penalty < i32::MIN as i128 {
        i32::MIN
    } else {
        penalty as i32
    };
    (w_out, p_out)
}

/// Recompute the carried weight and initiative penalty of every entity
/// whose equipment changed, clear all change marks, and log when the
/// player becomes overloaded.
pub fn encumbrance_pass(world: &mut World, log: &mut GameLog, player: EntityId)
    requires
        old(world).wf(),
    ensures
        final(world).wf(),
        *final(world) == (World {
            pools: final(world).pools,
            equipment_changed: final(world).equipment_changed,
            ..*old(world)
        }),
        forall|e: int|
            0 <= e < old(world).spec_len() ==> !final(world).equipment_changed@[e],
        forall|e: int|
            0 <= e < old(world).spec_len() ==> #[trigger] final(world).pools@[e]
                == if spec_encumbrance_applies(*old(world), e) {
                Option::Some(
                    Pools {
                        total_weight: spec_new_weight(*old(world), e) as i32,
                        total_initiative_penalty: spec_new_penalty(*old(world), e) as i32,
                        ..old(world).pools@[e]->Some_0
                    },
                )
            } else {
                old(world).pools@[e]
            },
        exists|extra: Seq<String>| final(log).entries@ == old(log).entries@ + extra,
{
    let n = world.len();
    let ghost base_log = log.entries@;
    proof {
        assert(log.entries@ =~= base_log + Seq::<String>::empty());
    }
    let mut e: usize = 0;
    while e < n
        invariant
            world.wf(),
            n == world.spec_len(),
            e <= n,
            *world == (World {
                pools: world.pools,
                equipment_changed: world.equipment_changed,
                ..*old(world)
            }),
            forall|j: int| 0 <= j < e ==> !world.equipment_changed@[j],
            forall|j: int|
                e <= j < n ==> #[trigger] world.equipment_changed@[j] == old(
                    world,
                ).equipment_changed@[j],
            forall|j: int|
                0 <= j < e ==> #[trigger] world.pools@[j] == if spec_encumbrance_applies(
                    *old(world),
                    j,
                ) {
                    Option::Some(
                        Pools {
                            total_weight: spec_new_weight(*old(world), j) as i32,
                            total_initiative_penalty: spec_new_penalty(*old(world), j) as i32,
                            ..old(world).pools@[j]->Some_0
                        },
                    )
                } else {
                    old(world).pools@[j]
                },
            forall|j: int| e <= j < n ==> #[trigger] world.pools@[j] == old(world).pools@[j],
            exists|extra: Seq<String>| log.entries@ == base_log + extra,
        decreases n - e,
    {
        let ghost prev_log = log.entries@;
        let applies = world.alive[e] && world.equipment_changed[e] && world.pools[e].is_some();
        if applies {
            proof {
                lemma_sums_frame(*old(world), *world, e as int, n as int);
            }
            let (weight, penalty) = carried_totals(world, e);
            let pool = world.pools[e].unwrap();
            let mut new_penalty = penalty;
            if let Option::Some(attrs) = world.attributes[e] {
                let capacity = crate::gamesystem::clamped_mul(
                    crate::gamesystem::clamped_add(attrs.might.base, attrs.might.modifiers),
                    7,
                );
                proof {
                    assert(spec_clamped(
                        spec_clamped(attrs.might.base + attrs.might.modifiers) * 7,
                    ) == spec_clamped((attrs.might.base + attrs.might.modifiers) * 7)) by {
                        lemma_capacity_clamp(attrs.might.base as int, attrs.might.modifiers as int);
                    }
                }
                if weight > capacity {
                    new_penalty = crate::gamesystem::clamped_add(penalty, 4);
                    if e == player {
                        log.push(
                            String::from_str(
                                "Wieclaw jest przeciazony, przez co jest wolniejszy.",
                            ),
                        );
                    }
                }
            }
            world.pools[e] = Option::Some(
                Pools {
                    total_weight: weight,
                    total_initiative_penalty: new_penalty,
                    ..pool
                },
            );
        }
        world.equipment_changed[e] = false;
        proof {
            let lseg = log.entries@.skip(prev_log.len() as int);
            assert(log.entries@ =~= prev_log + lseg);
            let prev_extra = choose|extra: Seq<String>| prev_log == base_log + extra;
            assert(log.entries@ =~= base_log + (prev_extra + lseg));
        }
        e = e + 1;
    }
}

/// The inner clamp of a capacity does not move a value already in range.
proof fn lemma_capacity_clamp(base: int, modifiers: int)
    ensures
        spec_clamped(spec_clamped(base + modifiers) * 7) == spec_clamped((base + modifiers) * 7),
{
    assert(spec_clamped(spec_clamped(base + modifiers) * 7) == spec_clamped(
        (base + modifiers) * 7,
    )) by (nonlinear_arith);
}

/// The carried-total sums read only tables this pass never writes, so the
/// running world and the entry world agree on them.
proof fn lemma_sums_frame(w0: World, w1: World, owner: int, k: int)
    requires
        w1.alive@ == w0.alive@,
        w1.item@ == w0.item@,
        w1.equipped@ == w0.equipped@,
        w1.in_backpack@ == w0.in_backpack@,
        w1.spec_len() == w0.spec_len(),
        k <= w0.spec_len(),
    ensures
        forall|m: int|
            0 <= m <= w0.spec_len() ==> #[trigger] spec_weight_sum(w1, owner, m)
                == spec_weight_sum(w0, owner, m),
        forall|m: int|
            0 <= m <= w0.spec_len() ==> #[trigger] spec_penalty_sum(w1, owner, m)
                == spec_penalty_sum(w0, owner, m),
{
    assert forall|m: int|
        0 <= m <= w0.spec_len() implies #[trigger] spec_weight_sum(w1, owner, m)
        == spec_weight_sum(w0, owner, m) by {
        lemma_sums_frame_one(w0, w1, owner, m);
    }
    assert forall|m: int|
        0 <= m <= w0.spec_len() implies #[trigger] spec_penalty_sum(w1, owner, m)
        == spec_penalty_sum(w0, owner, m) by {
        lemma_sums_frame_one(w0, w1, owner, m);
    }
}

/// One prefix of the carried-total sums agrees across the two worlds.
proof fn lemma_sums_frame_one(w0: World, w1: World, owner: int, m: int)
    requires
        w1.alive@ == w0.alive@,
        w1.item@ == w0.item@,
        w1.equipped@ == w0.equipped@,
        w1.in_backpack@ == w0.in_backpack@,
        w1.spec_len() == w0.spec_len(),
    ensures
        spec_weight_sum(w1, owner, m) == spec_weight_sum(w0, owner, m),
        spec_penalty_sum(w1, owner, m) == spec_penalty_sum(w0, owner, m),
    decreases m,
{
    if m > 0 {
        lemma_sums_frame_one(w0, w1, owner, m - 1);
    }
}

} // verus!
