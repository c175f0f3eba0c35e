//! The simulation's stated laws, proved once and for all over the same
//! specifications the executable functions are verified against.

use vstd::prelude::*;
use crate::ai::initiative::{
    spec_initiative_penalty, spec_participates, spec_quickness_bonus, spec_reroll_value,
    spec_ticked_initiative, spec_turn_granted,
};
use crate::components::{EntityId, Position};
use crate::effects::EffectSpawner;
use crate::effects::damage::{damage_applies, death_effect};
use crate::gamesystem::spec_clamped;
use crate::world::World;

verus! {

/// How many death notices a queue segment holds.
pub open spec fn death_count(s: Seq<EffectSpawner>) -> nat
    decreases s.len(),
{
    if s.len() == 0 {
        0
    } else {
        death_count(s.drop_last()) + if s.last().effect_type is EntityDeath {
            1nat
        } else {
            0nat
        }
    }
}

/// Death counting distributes over concatenation.
pub proof fn lemma_death_count_add(a: Seq<EffectSpawner>, b: Seq<EffectSpawner>)
    ensures
        death_count(a + b) == death_count(a) + death_count(b),
    decreases b.len(),
{
    if b.len() == 0 {
        assert(a + b =~= a);
    } else {
        lemma_death_count_add(a, b.drop_last());
        assert((a + b).drop_last() =~= a + b.drop_last());
        assert((a + b).last() == b.last());
    }
}

/// A cosmetic segment holds no death notice.
pub proof fn lemma_death_count_cosmetic(s: Seq<EffectSpawner>)
    requires
        forall|i: int|
            0 <= i < s.len() ==> (s[i].effect_type is Bloodstain || s[i].effect_type is Particle),
    ensures
        death_count(s) == 0,
    decreases s.len(),
{
    if s.len() > 0 {
        lemma_death_count_cosmetic(s.drop_last());
    }
}

/// Death triggers exactly once: the batch one damage application appends
/// to the queue holds exactly one death notice when the target's hit
/// points crossed from at least 1 to below 1, and none otherwise —
/// however many cosmetic effects ride along.
pub proof fn lemma_death_triggers_once(
    cosmetic: Seq<EffectSpawner>,
    creator: Option<EntityId>,
    target: EntityId,
    crossed: bool,
)
    requires
        forall|i: int|
            0 <= i < cosmetic.len() ==> (cosmetic[i].effect_type is Bloodstain
                || cosmetic[i].effect_type is Particle),
    ensures
        death_count(
            cosmetic + if crossed {
                seq![death_effect(creator, target)]
            } else {
                Seq::<EffectSpawner>::empty()
            },
        ) == if crossed {
            1nat
        } else {
            0nat
        },
{
    let dpart = if crossed {
        seq![death_effect(creator, target)]
    } else {
        Seq::<EffectSpawner>::empty()
    };
    lemma_death_count_add(cosmetic, dpart);
    lemma_death_count_cosmetic(cosmetic);
    if crossed {
        assert(dpart.drop_last() =~= Seq::<EffectSpawner>::empty());
        assert(dpart.last() == death_effect(creator, target));
        assert(dpart.last().effect_type is EntityDeath);
        assert(death_count(dpart) == death_count(dpart.drop_last()) + 1);
        lemma_death_count_cosmetic(dpart.drop_last());
    }
}

/// Self-damage immunity: a damage request whose creator is its own target
/// never applies, so the target's pools are untouched.
pub proof fn lemma_self_damage_immune(w: World, target: EntityId)
    ensures
        !damage_applies(w, Option::Some(target), target),
{
}

/// God-mode immunity: damage never applies to a target whose pool is in
/// god mode.
pub proof fn lemma_god_mode_immune(w: World, creator: Option<EntityId>, target: EntityId)
    requires
        target < w.spec_len(),
        w.pools@[target as int] is Some,
        w.pools@[target as int]->Some_0.god_mode,
    ensures
        !damage_applies(w, creator, target),
{
}

/// Restoration never pushes a pool's current over its maximum: the value
/// a healing or mana restoration writes is bounded by the maximum
/// whenever the pool started within it.
pub proof fn lemma_restore_never_exceeds_max(current: int, max: int, amount: int)
    requires
        current <= max,
    ensures
        ({
            let raised = spec_clamped(current + amount);
            let written = if raised > max {
                max
            } else {
                raised
            };
            written <= max
        }),
{
}

/// Initiative monotonicity: one scheduler tick takes a participating
/// entity's countdown either exactly one step down, or — when it bottoms
/// out — to a rerolled value no smaller than the reroll floor of seven
/// less the quickness bonus plus the encumbrance penalty.
pub proof fn lemma_initiative_monotonicity(w: World, e: int, roll: int)
    requires
        spec_participates(w, e),
        1 <= roll <= 6,
        w.initiative@[e]->Some_0.current > i32::MIN,
    ensures
        spec_ticked_initiative(w, e, roll) matches Option::Some(t) && {
            let cur = w.initiative@[e]->Some_0.current as int;
            ||| (t.current == cur - 1 && cur - 1 >= 1)
            ||| (cur - 1 < 1 && t.current == spec_reroll_value(w, e, roll) && t.current
                >= spec_clamped(7 - spec_quickness_bonus(w, e) + spec_initiative_penalty(w, e)))
        },
{
    let cur = w.initiative@[e]->Some_0.current as int;
    if spec_clamped(cur - 1) >= 1 {
        assert(spec_clamped(cur - 1) == cur - 1);
    }
}

/// Turn eligibility determinism: two worlds that agree on who is alive
/// and on every initiative, position, attribute and pool entry grant the
/// very same turns for the same player and player position — the
/// eligibility decision depends on nothing else.
pub proof fn lemma_turn_eligibility_deterministic(
    w1: World,
    w2: World,
    e: int,
    player: EntityId,
    ppos: Position,
)
    requires
        w1.alive@ == w2.alive@,
        w1.initiative@ == w2.initiative@,
        w1.position@ == w2.position@,
        w1.attributes@ == w2.attributes@,
        w1.pools@ == w2.pools@,
    ensures
        spec_turn_granted(w1, e, player, ppos) == spec_turn_granted(w2, e, player, ppos),
        spec_ticked_initiative(w1, e, 3) == spec_ticked_initiative(w2, e, 3),
{
}

} // verus!
