//! The initiative scheduler: once per tick every positioned entity's
//! countdown drops by one; entities reaching the bottom reroll it and may
//! be granted a turn, and once per round the timed status effects tick.

use vstd::prelude::*;
use crate::components::{
    Duration, EntityId, Initiative, Position, RunState,
};
use crate::effects::{
    EffectQueue, EffectSpawner, EffectType, EffectTypeV, EffectV, Targets, add_effect,
    effect_view,
};
use crate::gamesystem::{clamped_sub, spec_clamped};
use crate::geometry::{spec_within_distance, within_distance};
use crate::world::World;

verus! {

/// How far from the player an entity may act: Euclidean distance in tiles.
pub const TURN_DISTANCE: i32 = 20;

/// Whether the scheduler handles this entity at all: it is alive and has
/// both an initiative countdown and a position.
pub open spec fn spec_participates(w: World, e: int) -> bool {
    &&& 0 <= e < w.spec_len()
    &&& w.alive@[e]
    &&& w.initiative@[e] is Some
    &&& w.position@[e] is Some
}

/// Whether this tick brings the entity's countdown to the bottom, forcing
/// a reroll.
pub open spec fn spec_rerolls(w: World, e: int) -> bool {
    spec_participates(w, e) && spec_clamped(w.initiative@[e]->Some_0.current - 1) < 1
}

/// The quickness bonus the reroll subtracts, zero without attributes.
pub open spec fn spec_quickness_bonus(w: World, e: int) -> int {
    if w.attributes@[e] is Some {
        w.attributes@[e]->Some_0.quickness.bonus as int
    } else {
        0
    }
}

/// The encumbrance penalty the reroll adds, zero without pools.
pub open spec fn spec_initiative_penalty(w: World, e: int) -> int {
    if w.pools@[e] is Some {
        w.pools@[e]->Some_0.total_initiative_penalty as int
    } else {
        0
    }
}

/// The rerolled countdown for a given die roll.
pub open spec fn spec_reroll_value(w: World, e: int, roll: int) -> int {
    spec_clamped(6 + roll - spec_quickness_bonus(w, e) + spec_initiative_penalty(w, e))
}

/// Whether the entity is granted a turn this tick: its countdown bottomed
/// out, and it is the player or stands within acting distance of the
/// player.
pub open spec fn spec_turn_granted(w: World, e: int, player: EntityId, ppos: Position) -> bool {
    &&& spec_rerolls(w, e)
    &&& (e == player as int || spec_within_distance(
        w.position@[e]->Some_0.x as int,
        w.position@[e]->Some_0.y as int,
        ppos.x as int,
        ppos.y as int,
        TURN_DISTANCE as int,
    ))
}

/// The initiative table entry after one tick.
pub open spec fn spec_ticked_initiative(w: World, e: int, roll: int) -> Option<Initiative> {
    if !spec_participates(w, e) {
        w.initiative@[e]
    } else if !spec_rerolls(w, e) {
        Option::Some(
            Initiative { current: spec_clamped(w.initiative@[e]->Some_0.current - 1) as i32 },
        )
    } else {
        Option::Some(Initiative { current: spec_reroll_value(w, e, roll) as i32 })
    }
}

/// Tick every countdown: each participating entity's initiative drops by
/// one or, bottoming out, is rerolled as `6 + 1d6 - quickness bonus +
/// encumbrance penalty`; turns are granted exactly to the eligible, and
/// the pass reports whether the player's countdown bottomed out.
#[verifier::rlimit(60)]
fn tick_initiatives(
    world: &mut World,
    rng: &mut rltk::RandomNumberGenerator,
    player: EntityId,
    player_pos: Position,
) -> (player_turn: bool)
    requires
        old(world).wf(),
    ensures
        final(world).wf(),
        final(world).spec_len() == old(world).spec_len(),
        *final(world) == (World {
            initiative: final(world).initiative,
            my_turn: final(world).my_turn,
            ..*old(world)
        }),
        player_turn == spec_rerolls(*old(world), player as int),
        forall|e: int|
            0 <= e < old(world).spec_len() ==> #[trigger] final(world).my_turn@[e]
                == spec_turn_granted(*old(world), e, player, player_pos),
        exists|rolls: Seq<int>|
            {
                &&& rolls.len() == old(world).spec_len()
                &&& forall|e: int|
                    0 <= e < old(world).spec_len() ==> 1 <= #[trigger] rolls[e] <= 6
                &&& forall|e: int|
                    0 <= e < old(world).spec_len() ==> #[trigger] final(world).initiative@[e]
                        == spec_ticked_initiative(*old(world), e, rolls[e])
            },
{
    let n = world.len();
    let mut player_turn = false;
    let ghost rolls = Seq::<int>::empty();
    let mut e: usize = 0;
    while e < n
        invariant
            world.wf(),
            world.spec_len() == old(world).spec_len(),
            n == world.spec_len(),
            e <= n,
            player < n || !player_turn,
            *world == (World {
                initiative: world.initiative,
                my_turn: world.my_turn,
                ..*old(world)
            }),
            player_turn == (player < e && spec_rerolls(*old(world), player as int)),
            forall|j: int|
                0 <= j < e ==> #[trigger] world.my_turn@[j] == spec_turn_granted(
                    *old(world),
                    j,
                    player,
                    player_pos,
                ),
            rolls.len() == e,
            forall|j: int| 0 <= j < e ==> 1 <= #[trigger] rolls[j] <= 6,
            forall|j: int|
                0 <= j < e ==> #[trigger] world.initiative@[j] == spec_ticked_initiative(
                    *old(world),
                    j,
                    rolls[j],
                ),
            forall|j: int|
                e <= j < n ==> world.initiative@[j] == old(world).initiative@[j]
                    && world.my_turn@[j] == old(world).my_turn@[j],
        decreases n - e,
    {
        let participates = world.alive[e] && world.initiative[e].is_some()
            && world.position[e].is_some();
        if participates {
            let init = world.initiative[e].unwrap();
            let pos = world.position[e].unwrap();
            let dropped = clamped_sub(init.current, 1);
            if dropped < 1 {
                let roll = rng.roll_dice(1, 6);
                let qb = if let Option::Some(a) = world.attributes[e] {
                    a.quickness.bonus
                } else {
                    0
                };
                let pen = if let Option::Some(p) = world.pools[e] {
                    p.total_initiative_penalty
                } else {
                    0
                };
                let base: i64 = 6i64 + (roll as i64) - (qb as i64) + (pen as i64);
                let reroll: i32 = if base > i32::MAX as i64 {
                    i32::MAX
                } else if base < i32::MIN as i64 {
                    i32::MIN
                } else {
                    base as i32
                };
                world.initiative[e] = Option::Some(Initiative { current: reroll });
                let granted = if e == player {
                    player_turn = true;
                    true
                } else {
                    let within = within_distance(
                        pos.x,
                        pos.y,
                        player_pos.x,
                        player_pos.y,
                        TURN_DISTANCE,
                    );
                    within
                };
                world.my_turn[e] = granted;
                proof {
                    rolls = rolls.push(roll as int);
                    assert(world.initiative@[e as int] == spec_ticked_initiative(
                        *old(world),
                        e as int,
                        roll as int,
                    ));
                }
            } else {
                world.initiative[e] = Option::Some(Initiative { current: dropped });
                world.my_turn[e] = false;
                proof {
                    rolls = rolls.push(1);
                    assert(world.initiative@[e as int] == spec_ticked_initiative(
                        *old(world),
                        e as int,
                        1,
                    ));
                }
            }
        } else {
            world.my_turn[e] = false;
            proof {
                rolls = rolls.push(1);
                assert(world.initiative@[e as int] == spec_ticked_initiative(
                    *old(world),
                    e as int,
                    1,
                ));
            }
        }
        e = e + 1;
    }
    player_turn
}

/// Whether a status entity ticks this round: it is alive, carries a
/// duration and aims at a live target.
pub open spec fn spec_status_ticks(w: World, s: int) -> bool {
    &&& 0 <= s < w.spec_len()
    &&& w.alive@[s]
    &&& w.duration@[s] is Some
    &&& w.status_effect@[s] is Some
    &&& 0 <= w.status_effect@[s]->Some_0.target < w.spec_len()
    &&& w.alive@[w.status_effect@[s]->Some_0.target as int]
}

/// Whether this round's tick expires the status entity.
pub open spec fn spec_status_expires(w: World, s: int) -> bool {
    spec_status_ticks(w, s) && spec_clamped(w.duration@[s]->Some_0.turns - 1) < 1
}

/// The damage batch a status round enqueues: one damage request per
/// ticking status entity that carries a damage-over-time component, in
/// entity order, aimed at the status's target.
pub open spec fn spec_dot_batch(w: World, k: int) -> Seq<EffectV>
    decreases k,
{
    if k <= 0 {
        Seq::<EffectV>::empty()
    } else {
        let prev = spec_dot_batch(w, k - 1);
        if spec_status_ticks(w, k - 1) && w.damage_over_time@[k - 1] is Some {
            prev.push(
                EffectV {
                    creator: Option::<EntityId>::None,
                    kind: EffectTypeV::Damage(w.damage_over_time@[k - 1]->Some_0.damage as int),
                    targets: crate::effects::TargetsV::Single(
                        w.status_effect@[k - 1]->Some_0.target,
                    ),
                },
            )
        } else {
            prev
        }
    }
}

/// The damage batch reads only the status tables, so two worlds that
/// agree on them enqueue the same batch.
pub proof fn lemma_dot_batch_agree(w1: World, w2: World, k: int)
    requires
        w1.spec_len() == w2.spec_len(),
        w1.alive@ == w2.alive@,
        w1.duration@ == w2.duration@,
        w1.status_effect@ == w2.status_effect@,
        w1.damage_over_time@ == w2.damage_over_time@,
    ensures
        spec_dot_batch(w1, k) == spec_dot_batch(w2, k),
    decreases k,
{
    if k > 0 {
        lemma_dot_batch_agree(w1, w2, k - 1);
        assert(spec_status_ticks(w1, k - 1) == spec_status_ticks(w2, k - 1));
    }
}

/// Tick every live status effect once: its duration drops by one; a
/// damage-over-time status deals its damage to the target; an expired
/// status entity is deleted and its target marked for a stat recompute.
#[verifier::rlimit(60)]
fn tick_statuses(world: &mut World, queue: &mut EffectQueue)
    requires
        old(world).wf(),
        old(queue).wf(),
    ensures
        final(world).wf(),
        final(queue).wf(),
        final(queue).head == old(queue).head,
        final(world).spec_len() == old(world).spec_len(),
        *final(world) == (World {
            duration: final(world).duration,
            alive: final(world).alive,
            equipment_changed: final(world).equipment_changed,
            ..*old(world)
        }),
        forall|s: int|
            0 <= s < old(world).spec_len() ==> #[trigger] final(world).duration@[s]
                == if spec_status_ticks(*old(world), s) {
                Option::Some(
                    Duration {
                        turns: spec_clamped(old(world).duration@[s]->Some_0.turns - 1) as i32,
                    },
                )
            } else {
                old(world).duration@[s]
            },
        forall|s: int|
            0 <= s < old(world).spec_len() ==> #[trigger] final(world).alive@[s] == (old(
                world,
            ).alive@[s] && !spec_status_expires(*old(world), s)),
        forall|e: int|
            0 <= e < old(world).spec_len() ==> #[trigger] final(world).equipment_changed@[e] == (
            old(world).equipment_changed@[e] || exists|s: int|
                spec_status_expires(*old(world), s) && old(world).status_effect@[s]->Some_0.target
                    == e),
        final(queue).pending().len() == old(queue).pending().len() + spec_dot_batch(
            *old(world),
            old(world).spec_len(),
        ).len(),
        forall|i: int|
            0 <= i < old(queue).pending().len() ==> #[trigger] final(queue).pending()[i] == old(
                queue,
            ).pending()[i],
        forall|m: int|
            0 <= m < spec_dot_batch(*old(world), old(world).spec_len()).len() ==> effect_view(
                #[trigger] final(queue).pending()[old(queue).pending().len() + m],
            ) == spec_dot_batch(*old(world), old(world).spec_len())[m],
{
    let n = world.len();
    let alive_before = copy_bools(&world.alive);
    let ghost base = queue.pending();
    let ghost added = Seq::<EffectSpawner>::empty();
    proof {
        assert(queue.pending() =~= base + added);
    }
    let mut s: usize = 0;
    while s < n
        invariant
            world.wf(),
            queue.wf(),
            queue.head == old(queue).head,
            world.spec_len() == old(world).spec_len(),
            n == world.spec_len(),
            s <= n,
            *world == (World {
                duration: world.duration,
                alive: world.alive,
                equipment_changed: world.equipment_changed,
                ..*old(world)
            }),
            forall|j: int|
                0 <= j < s ==> #[trigger] world.duration@[j] == if spec_status_ticks(
                    *old(world),
                    j,
                ) {
                    Option::Some(
                        Duration {
                            turns: spec_clamped(old(world).duration@[j]->Some_0.turns - 1) as i32,
                        },
                    )
                } else {
                    old(world).duration@[j]
                },
            forall|j: int|
                0 <= j < s ==> #[trigger] world.alive@[j] == (old(world).alive@[j]
                    && !spec_status_expires(*old(world), j)),
            forall|j: int| s <= j < n ==> #[trigger] world.alive@[j] == old(world).alive@[j],
            forall|j: int| s <= j < n ==> #[trigger] world.duration@[j] == old(world).duration@[j],
            forall|e: int|
                0 <= e < n ==> #[trigger] world.equipment_changed@[e] == (old(
                    world,
                ).equipment_changed@[e] || exists|j: int|
                    0 <= j < s && spec_status_expires(*old(world), j) && old(
                        world,
                    ).status_effect@[j]->Some_0.target == e),
            alive_before@ == old(world).alive@,
            queue.pending() == base + added,
            added.len() == spec_dot_batch(*old(world), s as int).len(),
            forall|i: int|
                0 <= i < added.len() ==> effect_view(#[trigger] added[i]) == spec_dot_batch(
                    *old(world),
                    s as int,
                )[i],
        decreases n - s,
    {
        let ghost prev_added = added;
        let ticks = alive_before[s] && world.duration[s].is_some()
            && world.status_effect[s].is_some() && {
            let st = world.status_effect[s].unwrap();
            st.target < n && alive_before[st.target]
        };
        proof {
            assert(ticks == spec_status_ticks(*old(world), s as int));
        }
        if ticks {
            let st = world.status_effect[s].unwrap();
            let d = world.duration[s].unwrap();
            let dropped = clamped_sub(d.turns, 1);
            if let Option::Some(dot) = world.damage_over_time[s] {
                add_effect(
                    queue,
                    Option::None,
                    EffectType::Damage { amount: dot.damage },
                    Targets::Single { target: st.target },
                );
                proof {
                    added = added.push(queue.pending().last());
                    assert(queue.pending() =~= base + added);
                    assert(effect_view(added.last()) == (EffectV {
                        creator: Option::<EntityId>::None,
                        kind: EffectTypeV::Damage(
                            old(world).damage_over_time@[s as int]->Some_0.damage as int,
                        ),
                        targets: crate::effects::TargetsV::Single(
                            old(world).status_effect@[s as int]->Some_0.target,
                        ),
                    }));
                }
            }
            if dropped < 1 {
                world.duration[s] = Option::Some(Duration { turns: dropped });
                world.equipment_changed[st.target] = true;
                world.alive[s] = false;
                proof {
                    assert(spec_status_expires(*old(world), s as int));
                }
            } else {
                world.duration[s] = Option::Some(Duration { turns: dropped });
                proof {
                    assert(!spec_status_expires(*old(world), s as int));
                }
            }
        } else {
            proof {
                assert(!spec_status_expires(*old(world), s as int));
            }
        }
        proof {
            assert forall|e: int|
                0 <= e < n implies #[trigger] world.equipment_changed@[e] == (old(
                world,
            ).equipment_changed@[e] || exists|j: int|
                0 <= j < s + 1 && spec_status_expires(*old(world), j) && old(
                    world,
                ).status_effect@[j]->Some_0.target == e) by {
                if spec_status_expires(*old(world), s as int) && old(
                    world,
                ).status_effect@[s as int]->Some_0.target == e {
                    assert(world.equipment_changed@[e]);
                }
            }
            assert(added.len() == spec_dot_batch(*old(world), s as int + 1).len());
            assert forall|i: int|
                0 <= i < added.len() implies effect_view(#[trigger] added[i]) == spec_dot_batch(
                *old(world),
                s as int + 1,
            )[i] by {
                let prev = spec_dot_batch(*old(world), s as int);
                if i < prev.len() {
                    assert(effect_view(prev_added[i]) == prev[i]);
                    assert(added[i] == prev_added[i]);
                }
            }
        }
        s = s + 1;
    }
    proof {
        assert forall|m: int|
            0 <= m < spec_dot_batch(*old(world), old(world).spec_len()).len() implies effect_view(
            queue.pending()[old(queue).pending().len() + m],
        ) == spec_dot_batch(*old(world), old(world).spec_len())[m] by {
            assert(queue.pending()[base.len() + m] == added[m]);
        }
    }
}

/// One scheduler pass. In the ticking mode every participating entity's
/// countdown drops by one; an entity whose countdown bottoms out rerolls
/// it as `6 + 1d6 - quickness bonus + encumbrance penalty` and is granted
/// a turn exactly when it is the player or stands within acting distance
/// of the player. Turn markers never accumulate: they are recomputed fresh
/// each pass. When the player's countdown bottoms out the run mode turns
/// to awaiting input, and — once per such round — every live status
/// effect's duration drops by one, damage-over-time statuses deal their
/// damage through the queue, and expired statuses are deleted with their
/// targets marked for a stat recompute. In any other run mode nothing
/// changes.
pub fn advance_tick(
    world: &mut World,
    queue: &mut EffectQueue,
    rng: &mut rltk::RandomNumberGenerator,
    player: EntityId,
    player_pos: Position,
    runstate: &mut RunState,
)
    requires
        old(world).wf(),
        old(queue).wf(),
    ensures
        final(world).wf(),
        final(queue).wf(),
        final(queue).head == old(queue).head,
        final(world).spec_len() == old(world).spec_len(),
        *old(runstate) != RunState::Ticking ==> *final(world) == *old(world) && *final(runstate)
            == *old(runstate) && final(queue).pending() == old(queue).pending(),
        *old(runstate) == RunState::Ticking ==> {
            &&& *final(runstate) == if spec_rerolls(*old(world), player as int) {
                RunState::AwaitingInput
            } else {
                RunState::Ticking
            }
            &&& *final(world) == (World {
                initiative: final(world).initiative,
                my_turn: final(world).my_turn,
                duration: final(world).duration,
                alive: final(world).alive,
                equipment_changed: final(world).equipment_changed,
                ..*old(world)
            })
            &&& forall|e: int|
                0 <= e < old(world).spec_len() ==> #[trigger] final(world).my_turn@[e]
                    == spec_turn_granted(*old(world), e, player, player_pos)
            &&& exists|rolls: Seq<int>|
                {
                    &&& rolls.len() == old(world).spec_len()
                    &&& forall|e: int|
                        0 <= e < old(world).spec_len() ==> 1 <= #[trigger] rolls[e] <= 6
                    &&& forall|e: int|
                        0 <= e < old(world).spec_len() ==> #[trigger] final(world).initiative@[e]
                            == spec_ticked_initiative(*old(world), e, rolls[e])
                }
            &&& !spec_rerolls(*old(world), player as int) ==> {
                &&& final(world).duration@ == old(world).duration@
                &&& final(world).alive@ == old(world).alive@
                &&& final(world).equipment_changed@ == old(world).equipment_changed@
                &&& final(queue).pending() == old(queue).pending()
            }
            &&& spec_rerolls(*old(world), player as int) ==> {
                &&& forall|s: int|
                    0 <= s < old(world).spec_len() ==> #[trigger] final(world).duration@[s]
                        == if spec_status_ticks(*old(world), s) {
                        Option::Some(
                            Duration {
                                turns: spec_clamped(
                                    old(world).duration@[s]->Some_0.turns - 1,
                                ) as i32,
                            },
                        )
                    } else {
                        old(world).duration@[s]
                    }
                &&& forall|s: int|
                    0 <= s < old(world).spec_len() ==> #[trigger] final(world).alive@[s] == (old(
                        world,
                    ).alive@[s] && !spec_status_expires(*old(world), s))
                &&& forall|e: int|
                    0 <= e < old(world).spec_len()
                        ==> #[trigger] final(world).equipment_changed@[e] == (old(
                        world,
                    ).equipment_changed@[e] || exists|s: int|
                        spec_status_expires(*old(world), s) && old(
                            world,
                        ).status_effect@[s]->Some_0.target == e)
                &&& final(queue).pending().len() == old(queue).pending().len() + spec_dot_batch(
                    *old(world),
                    old(world).spec_len(),
                ).len()
                &&& forall|i: int|
                    0 <= i < old(queue).pending().len() ==> #[trigger] final(queue).pending()[i]
                        == old(queue).pending()[i]
                &&& forall|m: int|
                    0 <= m < spec_dot_batch(*old(world), old(world).spec_len()).len()
                        ==> effect_view(
                        #[trigger] final(queue).pending()[old(queue).pending().len() + m],
                    ) == spec_dot_batch(*old(world), old(world).spec_len())[m]
            }
        },
{
    if *runstate != RunState::Ticking {
        return ;
    }
    let player_turn = tick_initiatives(world, rng, player, player_pos);
    if player_turn {
        *runstate = RunState::AwaitingInput;
        let ghost mid = *world;
        tick_statuses(world, queue);
        proof {
            lemma_dot_batch_agree(mid, *old(world), old(world).spec_len());
            assert forall|s: int|
                0 <= s < old(world).spec_len() implies (spec_status_ticks(mid, s)
                == spec_status_ticks(*old(world), s) && spec_status_expires(mid, s)
                == spec_status_expires(*old(world), s)) by {}
            assert forall|e: int|
                0 <= e < old(world).spec_len() implies #[trigger] world.equipment_changed@[e] == (
            old(world).equipment_changed@[e] || exists|s: int|
                spec_status_expires(*old(world), s) && old(world).status_effect@[s]->Some_0.target
                    == e) by {
                if exists|s: int|
                    spec_status_expires(mid, s) && mid.status_effect@[s]->Some_0.target == e {
                    let s0 = choose|s: int|
                        spec_status_expires(mid, s) && mid.status_effect@[s]->Some_0.target == e;
                    assert(spec_status_expires(*old(world), s0) && old(
                        world,
                    ).status_effect@[s0]->Some_0.target == e);
                }
                if exists|s: int|
                    spec_status_expires(*old(world), s) && old(
                        world,
                    ).status_effect@[s]->Some_0.target == e {
                    let s1 = choose|s: int|
                        spec_status_expires(*old(world), s) && old(
                            world,
                        ).status_effect@[s]->Some_0.target == e;
                    assert(spec_status_expires(mid, s1) && mid.status_effect@[s1]->Some_0.target
                        == e);
                }
            }
        }
    }
}

/// A copy of a flag table.
fn copy_bools(v: &Vec<bool>) -> (r: Vec<bool>)
    ensures
        r@ == v@,
{
    let mut r: Vec<bool> = Vec::new();
    let mut i: usize = 0;
    while i < v.len()
        invariant
            i <= v@.len(),
            r@ == v@.take(i as int),
        decreases v@.len() - i,
    {
        r.push(v[i]);
        proof {
            assert(r@ =~= v@.take(i + 1));
        }
        i = i + 1;
    }
    proof {
        assert(v@.take(v@.len() as int) =~= v@);
    }
    r
}

} // verus!
