//! Melee resolution: each queued attack rolls to hit against the target's
//! armour class and routes its damage through the effects queue.

use vstd::prelude::*;
use crate::components::{Attributes, EntityId, Skill, Skills, WantsToMelee, skill_bonus};
use crate::components::HungerState;
use crate::effects::{
    EffectQueue, EffectSpawner, EffectType, EffectTypeV, TargetsV, Targets, add_effect,
    effect_view,
};
use crate::gamesystem::{clamped_add, spec_clamped};
use crate::world::World;

verus! {

/// The armour class a defender presents: ten, plus the quickness bonus,
/// plus the defense skill.
pub open spec fn spec_armor_class(target_attrs: Attributes, target_skills: Skills) -> int {
    spec_clamped(
        spec_clamped(10 + target_attrs.quickness.bonus) + target_skills.defense,
    )
}

/// The outcome of one melee swing: the damage dealt, or nothing on a miss.
/// A natural one always misses; a natural twenty always hits; otherwise
/// the modified roll must beat the armour class. Damage is the damage die
/// plus the might bonus plus twice the melee skill, floored at zero.
pub open spec fn spec_melee_outcome(
    natural_roll: int,
    damage_roll: int,
    attacker_attrs: Attributes,
    attacker_skills: Skills,
    target_attrs: Attributes,
    target_skills: Skills,
    well_fed: bool,
) -> Option<int> {
    let modified = spec_clamped(
        spec_clamped(
            spec_clamped(natural_roll + attacker_attrs.might.bonus) + attacker_skills.melee,
        ) + if well_fed {
            1int
        } else {
            0int
        },
    );
    if natural_roll != 1 && (natural_roll == 20 || modified > spec_armor_class(
        target_attrs,
        target_skills,
    )) {
        let dmg = spec_clamped(
            spec_clamped(
                spec_clamped(damage_roll + attacker_attrs.might.bonus) + attacker_skills.melee,
            ) + attacker_skills.melee,
        );
        Option::Some(
            if dmg >= 0 {
                dmg
            } else {
                0int
            },
        )
    } else {
        Option::None
    }
}

/// Resolve one swing exactly as the outcome formula says.
pub fn melee_outcome(
    natural_roll: i32,
    damage_roll: i32,
    attacker_attrs: &Attributes,
    attacker_skills: &Skills,
    target_attrs: &Attributes,
    target_skills: &Skills,
    well_fed: bool,
) -> (r: Option<i32>)
    ensures
        r matches Option::Some(d) ==> spec_melee_outcome(
            natural_roll as int,
            damage_roll as int,
            *attacker_attrs,
            *attacker_skills,
            *target_attrs,
            *target_skills,
            well_fed,
        ) == Option::Some(d as int),
        r is None ==> spec_melee_outcome(
            natural_roll as int,
            damage_roll as int,
            *attacker_attrs,
            *attacker_skills,
            *target_attrs,
            *target_skills,
            well_fed,
        ) is None,
{
    let hit_bonus = skill_bonus(Skill::Melee, attacker_skills);
    let modified = clamped_add(
        clamped_add(clamped_add(natural_roll, attacker_attrs.might.bonus), hit_bonus),
        if well_fed {
            1
        } else {
            0
        },
    );
    let armor = clamped_add(
        clamped_add(10, target_attrs.quickness.bonus),
        skill_bonus(Skill::Defense, target_skills),
    );
    if natural_roll != 1 && (natural_roll == 20 || modified > armor) {
        let dmg = clamped_add(
            clamped_add(clamped_add(damage_roll, attacker_attrs.might.bonus), hit_bonus),
            hit_bonus,
        );
        if dmg >= 0 {
            Option::Some(dmg)
        } else {
            Option::Some(0)
        }
    } else {
        Option::None
    }
}

/// Whether a queued melee intent can land: attacker and target both live
/// with stats and positive hit points.
pub open spec fn spec_melee_ready(w: World, e: int) -> bool {
    &&& 0 <= e < w.spec_len()
    &&& w.wants_melee@[e] is Some
    &&& w.alive@[e]
    &&& w.attributes@[e] is Some
    &&& w.skills@[e] is Some
    &&& w.pools@[e] is Some
    &&& w.pools@[e]->Some_0.hit_points.current > 0
    &&& 0 <= w.wants_melee@[e]->Some_0.target < w.spec_len()
    &&& w.alive@[w.wants_melee@[e]->Some_0.target as int]
    &&& w.attributes@[w.wants_melee@[e]->Some_0.target as int] is Some
    &&& w.skills@[w.wants_melee@[e]->Some_0.target as int] is Some
    &&& w.pools@[w.wants_melee@[e]->Some_0.target as int] is Some
    &&& w.pools@[w.wants_melee@[e]->Some_0.target as int]->Some_0.hit_points.current > 0
}

/// Whether the attacker's hunger clock grants the well-fed swing bonus.
pub open spec fn spec_well_fed(w: World, e: int) -> bool {
    w.hunger@[e] is Some && w.hunger@[e]->Some_0.state == HungerState::WellFed
}

/// Whether one queued damage request is a lawful melee emission in the
/// given world: its creator is an entity with a ready intent, it aims at
/// that intent's target, and its amount is the outcome formula's hit
/// value for some pair of in-range dice.
pub open spec fn spec_melee_emission(w: World, a: EffectSpawner) -> bool {
    let v = effect_view(a);
    &&& v.creator is Some
    &&& spec_melee_ready(w, v.creator->Some_0 as int)
    &&& v.kind is Damage
    &&& v.targets == TargetsV::Single(w.wants_melee@[v.creator->Some_0 as int]->Some_0.target)
    &&& exists|nr: int, dr: int|
        1 <= nr <= 20 && 1 <= dr <= 4 && #[trigger] spec_melee_outcome(
            nr,
            dr,
            w.attributes@[v.creator->Some_0 as int]->Some_0,
            w.skills@[v.creator->Some_0 as int]->Some_0,
            w.attributes@[w.wants_melee@[v.creator->Some_0 as int]->Some_0.target as int]->Some_0,
            w.skills@[w.wants_melee@[v.creator->Some_0 as int]->Some_0.target as int]->Some_0,
            spec_well_fed(w, v.creator->Some_0 as int),
        ) == Option::Some(v.kind->Damage_0)
}

/// Resolve every queued melee intent: an attack happens only while both
/// sides live with positive hit points; a hit routes its damage through
/// the queue, credited to the attacker; every intent is cleared.
pub fn melee_combat_pass(
    world: &mut World,
    queue: &mut EffectQueue,
    rng: &mut rltk::RandomNumberGenerator,
)
    requires
        old(world).wf(),
        old(queue).wf(),
    ensures
        final(world).wf(),
        final(queue).wf(),
        final(queue).head == old(queue).head,
        *final(world) == (World { wants_melee: final(world).wants_melee, ..*old(world) }),
        forall|e: int| 0 <= e < old(world).spec_len() ==> final(world).wants_melee@[e] is None,
        exists|added: Seq<EffectSpawner>|
            {
                &&& final(queue).pending() == old(queue).pending() + added
                &&& forall|i: int|
                    0 <= i < added.len() ==> spec_melee_emission(*old(world), #[trigger] added[i])
            },
{
    let n = world.len();
    let ghost base = queue.pending();
    let ghost added = Seq::<EffectSpawner>::empty();
    proof {
        assert(queue.pending() =~= base + added);
    }
    let mut e: usize = 0;
    while e < n
        invariant
            world.wf(),
            queue.wf(),
            queue.head == old(queue).head,
            n == world.spec_len(),
            e <= n,
            *world == (World { wants_melee: world.wants_melee, ..*old(world) }),
            forall|j: int| 0 <= j < e ==> world.wants_melee@[j] is None,
            forall|j: int|
                e <= j < n ==> #[trigger] world.wants_melee@[j] == old(world).wants_melee@[j],
            queue.pending() == base + added,
            forall|i: int|
                0 <= i < added.len() ==> spec_melee_emission(*old(world), #[trigger] added[i]),
        decreases n - e,
    {
        let intent = world.wants_melee[e];
        if let Option::Some(wants) = intent {
            let target = wants.target;
            let attack_ready = world.alive[e] && world.attributes[e].is_some()
                && world.skills[e].is_some() && world.pools[e].is_some() && target < n
                && world.alive[target] && world.attributes[target].is_some()
                && world.skills[target].is_some() && world.pools[target].is_some();
            if attack_ready {
                let attacker_pools = world.pools[e].unwrap();
                let target_pools = world.pools[target].unwrap();
                if attacker_pools.hit_points.current > 0 && target_pools.hit_points.current > 0 {
                    let attacker_attrs = world.attributes[e].unwrap();
                    let attacker_skills = world.skills[e].unwrap();
                    let target_attrs = world.attributes[target].unwrap();
                    let target_skills = world.skills[target].unwrap();
                    let well_fed = if let Option::Some(clock) = world.hunger[e] {
                        clock.state == crate::components::HungerState::WellFed
                    } else {
                        false
                    };
                    let natural_roll = rng.roll_dice(1, 20);
                    let damage_roll = rng.roll_dice(1, 4);
                    let outcome = melee_outcome(
                        natural_roll,
                        damage_roll,
                        &attacker_attrs,
                        &attacker_skills,
                        &target_attrs,
                        &target_skills,
                        well_fed,
                    );
                    if let Option::Some(damage) = outcome {
                        add_effect(
                            queue,
                            Option::Some(e),
                            EffectType::Damage { amount: damage },
                            Targets::Single { target },
                        );
                        proof {
                            added = added.push(queue.pending().last());
                            assert(queue.pending() =~= base + added);
                            let a = added.last();
                            assert(spec_melee_ready(*old(world), e as int));
                            assert(effect_view(a).creator == Option::Some(e));
                            assert(effect_view(a).kind == EffectTypeV::Damage(damage as int));
                            assert(effect_view(a).targets == TargetsV::Single(target));
                            assert(well_fed == spec_well_fed(*old(world), e as int));
                            assert(1 <= natural_roll as int <= 20 && 1 <= damage_roll as int <= 4
                                && spec_melee_outcome(
                                natural_roll as int,
                                damage_roll as int,
                                old(world).attributes@[e as int]->Some_0,
                                old(world).skills@[e as int]->Some_0,
                                old(world).attributes@[target as int]->Some_0,
                                old(world).skills@[target as int]->Some_0,
                                spec_well_fed(*old(world), e as int),
                            ) == Option::Some(damage as int));
                            assert(spec_melee_emission(*old(world), a));
                        }
                    }
                }
            }
            world.wants_melee[e] = Option::None;
        }
        e = e + 1;
    }
}

} // verus!
