//! The hunger clock: every entity acting this tick gets hungrier, and a
//! starving one takes a point of damage through the effects queue.

use vstd::prelude::*;
use vstd::string::StringExecFns;
use crate::components::{
    EntityId, GameLog, HungerClock, HungerState, RunState,
};
use crate::effects::{
    EffectQueue, EffectSpawner, EffectType, EffectTypeV, EffectV, Targets, add_effect, effect_view,
};
use crate::gamesystem::spec_clamped;
use crate::world::World;

verus! {

/// Whether the hunger clock advances for this entity: it is alive, has a
/// clock, and acts this tick.
pub open spec fn spec_hunger_ticks(w: World, e: int) -> bool {
    &&& 0 <= e < w.spec_len()
    &&& w.alive@[e]
    &&& w.hunger@[e] is Some
    &&& w.my_turn@[e]
}

/// One step of the hunger clock: the countdown drops by one, and at the
/// bottom the state worsens one stage and the countdown resets; a starving
/// clock stays starving at the bottom.
pub open spec fn spec_hunger_step(c: HungerClock) -> HungerClock {
    let dropped = spec_clamped(c.duration - 1);
    if dropped >= 1 {
        HungerClock { state: c.state, duration: dropped as i32 }
    } else {
        match c.state {
            HungerState::WellFed => HungerClock { state: HungerState::Normal, duration: 200 },
            HungerState::Normal => HungerClock { state: HungerState::Hungry, duration: 200 },
            HungerState::Hungry => HungerClock { state: HungerState::Starving, duration: 200 },
            HungerState::Starving => HungerClock {
                state: HungerState::Starving,
                duration: dropped as i32,
            },
        }
    }
}

/// Whether this tick's step makes the entity suffer starvation damage.
pub open spec fn spec_starves(w: World, e: int) -> bool {
    &&& spec_hunger_ticks(w, e)
    &&& w.hunger@[e]->Some_0.state == HungerState::Starving
    &&& spec_clamped(w.hunger@[e]->Some_0.duration - 1) < 1
}

/// Advance every acting entity's hunger clock one step; a starving entity
/// takes one point of damage through the queue.
pub fn hunger_pass(world: &mut World, queue: &mut EffectQueue, log: &mut GameLog, player: EntityId)
    requires
        old(world).wf(),
        old(queue).wf(),
    ensures
        final(world).wf(),
        final(queue).wf(),
        final(queue).head == old(queue).head,
        *final(world) == (World { hunger: final(world).hunger, ..*old(world) }),
        forall|e: int|
            0 <= e < old(world).spec_len() ==> #[trigger] final(world).hunger@[e]
                == if spec_hunger_ticks(*old(world), e) {
                Option::Some(spec_hunger_step(old(world).hunger@[e]->Some_0))
            } else {
                old(world).hunger@[e]
            },
        exists|extra: Seq<String>| final(log).entries@ == old(log).entries@ + extra,
        exists|added: Seq<EffectSpawner>|
            {
                &&& final(queue).pending() == old(queue).pending() + added
                &&& forall|i: int| 0 <= i < added.len() ==> added[i].effect_type is Damage
                &&& forall|e: int|
                    spec_starves(*old(world), e) ==> exists|i: int|
                        0 <= i < added.len() && #[trigger] effect_view(added[i]) == (EffectV {
                            creator: Option::<EntityId>::None,
                            kind: EffectTypeV::Damage(1),
                            targets: crate::effects::TargetsV::Single(e as EntityId),
                        })
            },
{
    let n = world.len();
    let ghost base = queue.pending();
    let ghost base_log = log.entries@;
    let ghost added = Seq::<EffectSpawner>::empty();
    proof {
        assert(queue.pending() =~= base + added);
        assert(log.entries@ =~= base_log + Seq::<String>::empty());
    }
    let mut e: usize = 0;
    while e < n
        invariant
            world.wf(),
            queue.wf(),
            queue.head == old(queue).head,
            n == world.spec_len(),
            e <= n,
            *world == (World { hunger: world.hunger, ..*old(world) }),
            forall|j: int|
                0 <= j < e ==> #[trigger] world.hunger@[j] == if spec_hunger_ticks(
                    *old(world),
                    j,
                ) {
                    Option::Some(spec_hunger_step(old(world).hunger@[j]->Some_0))
                } else {
                    old(world).hunger@[j]
                },
            forall|j: int| e <= j < n ==> #[trigger] world.hunger@[j] == old(world).hunger@[j],
            exists|extra: Seq<String>| log.entries@ == base_log + extra,
            queue.pending() == base + added,
            forall|i: int| 0 <= i < added.len() ==> added[i].effect_type is Damage,
            forall|j: int|
                0 <= j < e && spec_starves(*old(world), j) ==> exists|i: int|
                    0 <= i < added.len() && #[trigger] effect_view(added[i]) == (EffectV {
                        creator: Option::<EntityId>::None,
                        kind: EffectTypeV::Damage(1),
                        targets: crate::effects::TargetsV::Single(j as EntityId),
                    }),
        decreases n - e,
    {
        let ghost prev_added = added;
        let ghost prev_log = log.entries@;
        let ticks = world.alive[e] && world.hunger[e].is_some() && world.my_turn[e];
        if ticks {
            let clock = world.hunger[e].unwrap();
            let dropped = crate::gamesystem::clamped_sub(clock.duration, 1);
            if dropped >= 1 {
                world.hunger[e] = Option::Some(
                    HungerClock { state: clock.state, duration: dropped },
                );
            } else {
                match clock.state {
                    HungerState::WellFed => {
                        world.hunger[e] = Option::Some(
                            HungerClock { state: HungerState::Normal, duration: 200 },
                        );
                        if e == player {
                            log.push(String::from_str("Wieclaw nie jest juz najedzony."));
                        }
                    },
                    HungerState::Normal => {
                        world.hunger[e] = Option::Some(
                            HungerClock { state: HungerState::Hungry, duration: 200 },
                        );
                        if e == player {
                            log.push(String::from_str("Wieclaw jest glodny."));
                        }
                    },
                    HungerState::Hungry => {
                        world.hunger[e] = Option::Some(
                            HungerClock { state: HungerState::Starving, duration: 200 },
                        );
                        if e == player {
                            log.push(String::from_str("Wieclaw umiera z glodu!"));
                        }
                    },
                    HungerState::Starving => {
                        world.hunger[e] = Option::Some(
                            HungerClock { state: HungerState::Starving, duration: dropped },
                        );
                        if e == player {
                            log.push(
                                String::from_str(
                                    "Wieclaw odczuwa bolesny skurcz zoladka i traci 1 HP!",
                                ),
                            );
                        }
                        add_effect(
                            queue,
                            Option::None,
                            EffectType::Damage { amount: 1 },
                            Targets::Single { target: e },
                        );
                        proof {
                            added = added.push(queue.pending().last());
                            assert(queue.pending() =~= base + added);
                        }
                    },
                }
            }
        }
        proof {
            let lseg = log.entries@.skip(prev_log.len() as int);
            assert(log.entries@ =~= prev_log + lseg);
            let prev_extra = choose|extra: Seq<String>| prev_log == base_log + extra;
            assert(log.entries@ =~= base_log + (prev_extra + lseg));
            assert forall|j: int|
                0 <= j < e + 1 && spec_starves(*old(world), j) implies exists|i: int|
                    0 <= i < added.len() && #[trigger] effect_view(added[i]) == (EffectV {
                        creator: Option::<EntityId>::None,
                        kind: EffectTypeV::Damage(1),
                        targets: crate::effects::TargetsV::Single(j as EntityId),
                    }) by {
                if j == e as int {
                    assert(effect_view(added[added.len() - 1]) == (EffectV {
                        creator: Option::<EntityId>::None,
                        kind: EffectTypeV::Damage(1),
                        targets: crate::effects::TargetsV::Single(j as EntityId),
                    }));
                } else {
                    let i0 = choose|i: int|
                        0 <= i < prev_added.len() && #[trigger] effect_view(prev_added[i])
                            == (EffectV {
                            creator: Option::<EntityId>::None,
                            kind: EffectTypeV::Damage(1),
                            targets: crate::effects::TargetsV::Single(j as EntityId),
                        });
                    assert(added[i0] == prev_added[i0]);
                }
            }
        }
        e = e + 1;
    }
}

} // verus!
