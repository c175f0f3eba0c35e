//! Handlers that apply resolved effects to one target entity.

use vstd::prelude::*;
use vstd::string::StringExecFns;
use crate::components::{
    Attribute, AttributeBonus, Attributes, Color, DamageOverTime, Duration, EntityId, Pool,
    Pools, Skills, Slow, StatusEffect,
};
use crate::effects::{EffectQueue, EffectSpawner, EffectType, Targets, add_effect, entity_position};
use crate::gamesystem::{
    clamp_range, clamped_add, clamped_mul, mana_at_level, player_hp_at_level, spec_clamp_range,
    spec_clamped, spec_mana_at_level, spec_player_hp_at_level,
};
use crate::map::LevelMap;
use crate::spatial::SpatialIndex;
use crate::world::World;

verus! {

/// The bloodstain request a damage application leaves at a tile.
pub open spec fn bloodstain_effect(tile_idx: usize) -> EffectSpawner {
    EffectSpawner {
        creator: Option::None,
        effect_type: EffectType::Bloodstain,
        targets: Targets::Tile { tile_idx },
    }
}

/// The hit-marker particle a damage application aims at its target.
pub open spec fn damage_particle_effect(target: EntityId) -> EffectSpawner {
    EffectSpawner {
        creator: Option::None,
        effect_type: EffectType::Particle {
            glyph: '!',
            fg: Color { r: 255, g: 165, b: 0 },
            bg: Color { r: 0, g: 0, b: 0 },
            lifespan: 200,
        },
        targets: Targets::Single { target },
    }
}

/// The death notice enqueued when damage brings a target down.
pub open spec fn death_effect(creator: Option<EntityId>, target: EntityId) -> EffectSpawner {
    EffectSpawner {
        creator,
        effect_type: EffectType::EntityDeath,
        targets: Targets::Single { target },
    }
}

/// The cosmetic batch one damage application leaves: a bloodstain at the
/// target's tile and a hit particle aimed at the target, when the target
/// stands on the map; nothing otherwise.
pub open spec fn spec_damage_cosmetics(w: World, map: LevelMap, target: EntityId) -> Seq<
    EffectSpawner,
> {
    if target < w.spec_len() && w.position@[target as int] is Some && 0 <= w.position@[
        target as int
    ]->Some_0.x < map.width && 0 <= w.position@[target as int]->Some_0.y < map.height {
        seq![
            bloodstain_effect(
                crate::map::spec_xy_idx(
                    map.width as int,
                    w.position@[target as int]->Some_0.x as int,
                    w.position@[target as int]->Some_0.y as int,
                ) as usize,
            ),
            damage_particle_effect(target),
        ]
    } else {
        Seq::<EffectSpawner>::empty()
    }
}

/// Whether a damage application touches the target at all: the target must
/// hold a pool, not be in god mode, and not be the effect's own creator.
pub open spec fn damage_applies(
    w: World,
    creator: Option<EntityId>,
    target: EntityId,
) -> bool {
    &&& target < w.spec_len()
    &&& w.pools@[target as int] is Some
    &&& !w.pools@[target as int]->Some_0.god_mode
    &&& creator != Option::Some(target)
}

/// Apply damage to one target: hit points drop by `amount` (clamped only
/// at the integer floor, a machine limit; they may go negative before the
/// death check reads them). God-mode targets and self-inflicted damage are
/// untouched. A bloodstain and a hit particle are enqueued when the target
/// stands on the map, and exactly one death notice is enqueued when the
/// hit points cross from at least 1 to below 1.
pub fn inflict_damage(
    world: &mut World,
    map: &LevelMap,
    queue: &mut EffectQueue,
    creator: Option<EntityId>,
    amount: i32,
    target: EntityId,
)
    requires
        old(world).wf(),
        old(queue).wf(),
        map.wf(),
    ensures
        final(world).wf(),
        final(queue).wf(),
        final(queue).head == old(queue).head,
        *final(world) == (World { pools: final(world).pools, ..*old(world) }),
        !damage_applies(*old(world), creator, target) ==> {
            &&& final(world).pools@ == old(world).pools@
            &&& final(queue).pending() == old(queue).pending()
        },
        damage_applies(*old(world), creator, target) ==> {
            let t = target as int;
            let p = old(world).pools@[t]->Some_0;
            let new_hp = spec_clamped(p.hit_points.current - amount);
            let crossed = p.hit_points.current >= 1 && new_hp < 1;
            &&& final(world).pools@ == old(world).pools@.update(
                t,
                Option::Some(
                    Pools { hit_points: Pool { max: p.hit_points.max, current: new_hp as i32 }, ..p },
                ),
            )
            &&& final(queue).pending() == old(queue).pending() + spec_damage_cosmetics(
                *old(world),
                *map,
                target,
            ) + (if crossed {
                seq![death_effect(creator, target)]
            } else {
                Seq::<EffectSpawner>::empty()
            })
        },
{
    if target >= world.len() {
        return ;
    }
    let pool_opt = world.pools[target];
    if let Option::Some(pool) = pool_opt {
        if pool.god_mode {
            proof {
                assert(final(queue).pending() == old(queue).pending());
            }
            return ;
        }
        if let Option::Some(c) = creator {
            if c == target {
                return ;
            }
        }
        let new_hp = crate::gamesystem::clamped_sub(pool.hit_points.current, amount);
        let new_pool = Pools {
            hit_points: Pool { max: pool.hit_points.max, current: new_hp },
            ..pool
        };
        world.pools[target] = Option::Some(new_pool);
        let ghost base = queue.pending();
        let ghost cosmetic_seq = Seq::<EffectSpawner>::empty();
        let pos = entity_position(world, target, map);
        proof {
            if pos is None {
                assert(spec_damage_cosmetics(*old(world), *map, target) =~= Seq::<
                    EffectSpawner,
                >::empty());
            }
        }
        if let Option::Some(tile_idx) = pos {
            add_effect(queue, Option::None, EffectType::Bloodstain, Targets::Tile { tile_idx });
            add_effect(
                queue,
                Option::None,
                EffectType::Particle {
                    glyph: '!',
                    fg: Color { r: 255, g: 165, b: 0 },
                    bg: Color { r: 0, g: 0, b: 0 },
                    lifespan: 200,
                },
                Targets::Single { target },
            );
            proof {
                cosmetic_seq = seq![
                    bloodstain_effect(tile_idx),
                    damage_particle_effect(target),
                ];
                assert(cosmetic_seq =~= spec_damage_cosmetics(*old(world), *map, target));
                assert(queue.pending() =~= base + cosmetic_seq);
            }
        } else {
            proof {
                assert(queue.pending() =~= base + cosmetic_seq);
            }
        }
        let crossed = pool.hit_points.current >= 1 && new_hp < 1;
        if crossed {
            add_effect(queue, creator, EffectType::EntityDeath, Targets::Single { target });
            proof {
                assert(queue.pending() =~= base + cosmetic_seq + seq![
                    death_effect(creator, target),
                ]);
            }
        } else {
            proof {
                assert(queue.pending() =~= base + cosmetic_seq
                    + Seq::<EffectSpawner>::empty());
            }
        }
        proof {
            assert(world.pools@ =~= old(world).pools@.update(
                target as int,
                Option::Some(new_pool),
            ));
        }
    }
}

/// The feedback particle a healing or mana restoration shows.
pub open spec fn restore_particle_effect(target: EntityId, fg: Color) -> EffectSpawner {
    EffectSpawner {
        creator: Option::None,
        effect_type: EffectType::Particle {
            glyph: '*',
            fg,
            bg: Color { r: 0, g: 0, b: 0 },
            lifespan: 200,
        },
        targets: Targets::Single { target },
    }
}

/// Heal one target: hit points climb by `amount` but never above the
/// maximum. A feedback particle is enqueued.
pub fn heal_damage(world: &mut World, queue: &mut EffectQueue, amount: i32, target: EntityId)
    requires
        old(world).wf(),
        old(queue).wf(),
    ensures
        final(world).wf(),
        final(queue).wf(),
        final(queue).head == old(queue).head,
        *final(world) == (World { pools: final(world).pools, ..*old(world) }),
        (target < old(world).spec_len() && old(world).pools@[target as int] is Some) ==> {
            let t = target as int;
            let p = old(world).pools@[t]->Some_0;
            let new_hp = if spec_clamped(p.hit_points.current + amount) > p.hit_points.max {
                p.hit_points.max as int
            } else {
                spec_clamped(p.hit_points.current + amount)
            };
            &&& final(world).pools@ == old(world).pools@.update(
                t,
                Option::Some(
                    Pools { hit_points: Pool { max: p.hit_points.max, current: new_hp as i32 }, ..p },
                ),
            )
            &&& final(queue).pending() == old(queue).pending().push(
                restore_particle_effect(target, Color { r: 0, g: 255, b: 0 }),
            )
        },
        !(target < old(world).spec_len() && old(world).pools@[target as int] is Some) ==> {
            &&& final(world).pools@ == old(world).pools@
            &&& final(queue).pending() == old(queue).pending()
        },
{
    if target >= world.len() {
        return ;
    }
    let pool_opt = world.pools[target];
    if let Option::Some(pool) = pool_opt {
        let raised = clamped_add(pool.hit_points.current, amount);
        let new_hp = if raised > pool.hit_points.max {
            pool.hit_points.max
        } else {
            raised
        };
        let new_pool = Pools {
            hit_points: Pool { max: pool.hit_points.max, current: new_hp },
            ..pool
        };
        world.pools[target] = Option::Some(new_pool);
        add_effect(
            queue,
            Option::None,
            EffectType::Particle {
                glyph: '*',
                fg: Color { r: 0, g: 255, b: 0 },
                bg: Color { r: 0, g: 0, b: 0 },
                lifespan: 200,
            },
            Targets::Single { target },
        );
        proof {
            assert(world.pools@ =~= old(world).pools@.update(
                target as int,
                Option::Some(new_pool),
            ));
        }
    }
}

/// Restore mana of one target: mana climbs by `amount` but never above the
/// maximum. A feedback particle is enqueued.
pub fn restore_mana(world: &mut World, queue: &mut EffectQueue, amount: i32, target: EntityId)
    requires
        old(world).wf(),
        old(queue).wf(),
    ensures
        final(world).wf(),
        final(queue).wf(),
        final(queue).head == old(queue).head,
        *final(world) == (World { pools: final(world).pools, ..*old(world) }),
        (target < old(world).spec_len() && old(world).pools@[target as int] is Some) ==> {
            let t = target as int;
            let p = old(world).pools@[t]->Some_0;
            let new_mana = if spec_clamped(p.mana.current + amount) > p.mana.max {
                p.mana.max as int
            } else {
                spec_clamped(p.mana.current + amount)
            };
            &&& final(world).pools@ == old(world).pools@.update(
                t,
                Option::Some(Pools { mana: Pool { max: p.mana.max, current: new_mana as i32 }, ..p }),
            )
            &&& final(queue).pending() == old(queue).pending().push(
                restore_particle_effect(target, Color { r: 0, g: 0, b: 255 }),
            )
        },
        !(target < old(world).spec_len() && old(world).pools@[target as int] is Some) ==> {
            &&& final(world).pools@ == old(world).pools@
            &&& final(queue).pending() == old(queue).pending()
        },
{
    if target >= world.len() {
        return ;
    }
    let pool_opt = world.pools[target];
    if let Option::Some(pool) = pool_opt {
        let raised = clamped_add(pool.mana.current, amount);
        let new_mana = if raised > pool.mana.max {
            pool.mana.max
        } else {
            raised
        };
        let new_pool = Pools { mana: Pool { max: pool.mana.max, current: new_mana }, ..pool };
        world.pools[target] = Option::Some(new_pool);
        add_effect(
            queue,
            Option::None,
            EffectType::Particle {
                glyph: '*',
                fg: Color { r: 0, g: 0, b: 255 },
                bg: Color { r: 0, g: 0, b: 0 },
                lifespan: 200,
            },
            Targets::Single { target },
        );
        proof {
            assert(world.pools@ =~= old(world).pools@.update(
                target as int,
                Option::Some(new_pool),
            ));
        }
    }
}

/// A name table extended by one entry whose text reads `v`.
pub open spec fn name_pushed(olds: Seq<Option<String>>, news: Seq<Option<String>>, v: Seq<
    char,
>) -> bool {
    &&& news.len() == olds.len() + 1
    &&& news.take(olds.len() as int) == olds
    &&& news.last() matches Option::Some(n) && n@ == v
}

/// Create a confusion status entity aimed at `target`, expiring after
/// `turns` rounds. The target's own components are untouched, so several
/// such effects stack and expire independently.
pub fn add_confusion(world: &mut World, turns: i32, target: EntityId)
    requires
        old(world).wf(),
        old(world).spec_len() < 1_000_000_000,
    ensures
        final(world).wf(),
        final(world).spec_len() == old(world).spec_len() + 1,
        old(world).status_core_extension(*final(world)),
        final(world).status_effect@ == old(world).status_effect@.push(
            Option::Some(StatusEffect { target }),
        ),
        final(world).duration@ == old(world).duration@.push(Option::Some(Duration { turns })),
        final(world).confusion@ == old(world).confusion@.push(true),
        final(world).slow@ == old(world).slow@.push(Option::<Slow>::None),
        final(world).damage_over_time@ == old(world).damage_over_time@.push(
            Option::<DamageOverTime>::None,
        ),
        final(world).attribute_bonus@ == old(world).attribute_bonus@.push(
            Option::<AttributeBonus>::None,
        ),
        final(world).equipment_changed@ == old(world).equipment_changed@.push(false),
        name_pushed(old(world).name@, final(world).name@, "Konfuzja"@),
{
    let e = world.create_entity();
    world.status_effect[e] = Option::Some(StatusEffect { target });
    world.duration[e] = Option::Some(Duration { turns });
    world.confusion[e] = true;
    world.name[e] = Option::Some(String::from_str("Konfuzja"));
    proof {
        lemma_status_tables(old(world).status_effect@, world.status_effect@, e as int);
        lemma_status_tables_dur(old(world).duration@, world.duration@, e as int);
        lemma_status_tables_flag(old(world).confusion@, world.confusion@, e as int);
        lemma_status_tables_name(old(world).name@, world.name@, e as int);
    }
}

/// Create a slowing (or hastening) status entity aimed at `target`,
/// expiring after five rounds.
pub fn slow(world: &mut World, initiative_penalty: i32, target: EntityId)
    requires
        old(world).wf(),
        old(world).spec_len() < 1_000_000_000,
    ensures
        final(world).wf(),
        final(world).spec_len() == old(world).spec_len() + 1,
        old(world).status_core_extension(*final(world)),
        final(world).status_effect@ == old(world).status_effect@.push(
            Option::Some(StatusEffect { target }),
        ),
        final(world).duration@ == old(world).duration@.push(
            Option::Some(Duration { turns: 5 }),
        ),
        final(world).slow@ == old(world).slow@.push(Option::Some(Slow { initiative_penalty })),
        final(world).confusion@ == old(world).confusion@.push(false),
        final(world).damage_over_time@ == old(world).damage_over_time@.push(
            Option::<DamageOverTime>::None,
        ),
        final(world).attribute_bonus@ == old(world).attribute_bonus@.push(
            Option::<AttributeBonus>::None,
        ),
        final(world).equipment_changed@ == old(world).equipment_changed@.push(false),
        initiative_penalty > 0 ==> name_pushed(
            old(world).name@,
            final(world).name@,
            "Zatwardzenie"@,
        ),
        initiative_penalty <= 0 ==> name_pushed(old(world).name@, final(world).name@, "Ulga"@),
{
    let e = world.create_entity();
    world.status_effect[e] = Option::Some(StatusEffect { target });
    world.duration[e] = Option::Some(Duration { turns: 5 });
    world.slow[e] = Option::Some(Slow { initiative_penalty });
    if initiative_penalty > 0 {
        world.name[e] = Option::Some(String::from_str("Zatwardzenie"));
    } else {
        world.name[e] = Option::Some(String::from_str("Ulga"));
    }
    proof {
        lemma_status_tables(old(world).status_effect@, world.status_effect@, e as int);
        lemma_status_tables_dur(old(world).duration@, world.duration@, e as int);
        lemma_status_tables_slow(old(world).slow@, world.slow@, e as int);
        lemma_status_tables_name(old(world).name@, world.name@, e as int);
    }
}

/// Create a damage-over-time status entity aimed at `target`, dealing
/// `damage` once per round for five rounds.
pub fn damage_over_time(world: &mut World, damage: i32, target: EntityId)
    requires
        old(world).wf(),
        old(world).spec_len() < 1_000_000_000,
    ensures
        final(world).wf(),
        final(world).spec_len() == old(world).spec_len() + 1,
        old(world).status_core_extension(*final(world)),
        final(world).status_effect@ == old(world).status_effect@.push(
            Option::Some(StatusEffect { target }),
        ),
        final(world).duration@ == old(world).duration@.push(
            Option::Some(Duration { turns: 5 }),
        ),
        final(world).damage_over_time@ == old(world).damage_over_time@.push(
            Option::Some(DamageOverTime { damage }),
        ),
        final(world).confusion@ == old(world).confusion@.push(false),
        final(world).slow@ == old(world).slow@.push(Option::<Slow>::None),
        final(world).attribute_bonus@ == old(world).attribute_bonus@.push(
            Option::<AttributeBonus>::None,
        ),
        final(world).equipment_changed@ == old(world).equipment_changed@.push(false),
        name_pushed(old(world).name@, final(world).name@, "Rozwolnienie"@),
{
    let e = world.create_entity();
    world.status_effect[e] = Option::Some(StatusEffect { target });
    world.duration[e] = Option::Some(Duration { turns: 5 });
    world.damage_over_time[e] = Option::Some(DamageOverTime { damage });
    world.name[e] = Option::Some(String::from_str("Rozwolnienie"));
    proof {
        lemma_status_tables(old(world).status_effect@, world.status_effect@, e as int);
        lemma_status_tables_dur(old(world).duration@, world.duration@, e as int);
        lemma_status_tables_dot(old(world).damage_over_time@, world.damage_over_time@, e as int);
        lemma_status_tables_name(old(world).name@, world.name@, e as int);
    }
}

/// Create a named attribute-modifier status entity aimed at `target`,
/// expiring after `duration` rounds; the target is marked for a stat
/// recompute.
pub fn attribute_effect(
    world: &mut World,
    bonus: AttributeBonus,
    name: String,
    duration: i32,
    target: EntityId,
)
    requires
        old(world).wf(),
        old(world).spec_len() < 1_000_000_000,
    ensures
        final(world).wf(),
        final(world).spec_len() == old(world).spec_len() + 1,
        old(world).status_core_extension(*final(world)),
        final(world).status_effect@ == old(world).status_effect@.push(
            Option::Some(StatusEffect { target }),
        ),
        final(world).duration@ == old(world).duration@.push(
            Option::Some(Duration { turns: duration }),
        ),
        final(world).attribute_bonus@ == old(world).attribute_bonus@.push(Option::Some(bonus)),
        final(world).name@ == old(world).name@.push(Option::Some(name)),
        final(world).confusion@ == old(world).confusion@.push(false),
        final(world).slow@ == old(world).slow@.push(Option::<Slow>::None),
        final(world).damage_over_time@ == old(world).damage_over_time@.push(
            Option::<DamageOverTime>::None,
        ),
        final(world).equipment_changed@ == if target < old(world).spec_len() {
            old(world).equipment_changed@.push(false).update(target as int, true)
        } else {
            old(world).equipment_changed@.push(false)
        },
{
    let e = world.create_entity();
    world.status_effect[e] = Option::Some(StatusEffect { target });
    world.duration[e] = Option::Some(Duration { turns: duration });
    world.attribute_bonus[e] = Option::Some(bonus);
    world.name[e] = Option::Some(name);
    if target < e {
        world.equipment_changed[target] = true;
    }
    proof {
        lemma_status_tables(old(world).status_effect@, world.status_effect@, e as int);
        lemma_status_tables_dur(old(world).duration@, world.duration@, e as int);
        lemma_status_tables_ab(old(world).attribute_bonus@, world.attribute_bonus@, e as int);
        assert(world.name@ =~= old(world).name@.push(Option::Some(name)));
        if target < e {
            assert(world.equipment_changed@ =~= old(world).equipment_changed@.push(
                false,
            ).update(target as int, true));
        }
    }
}

/// Pushing `None` then overwriting the new last slot is one push.
proof fn lemma_status_tables(olds: Seq<Option<StatusEffect>>, news: Seq<Option<StatusEffect>>, e: int)
    requires
        e == olds.len(),
        news == olds.push(Option::<StatusEffect>::None).update(e, news[e]),
    ensures
        news == olds.push(news[e]),
{
    assert(news =~= olds.push(news[e]));
}

/// Pushing `None` then overwriting the new last slot is one push.
proof fn lemma_status_tables_dur(olds: Seq<Option<Duration>>, news: Seq<Option<Duration>>, e: int)
    requires
        e == olds.len(),
        news == olds.push(Option::<Duration>::None).update(e, news[e]),
    ensures
        news == olds.push(news[e]),
{
    assert(news =~= olds.push(news[e]));
}

/// Pushing a default flag then overwriting the new last slot is one push.
proof fn lemma_status_tables_flag(olds: Seq<bool>, news: Seq<bool>, e: int)
    requires
        e == olds.len(),
        news == olds.push(false).update(e, news[e]),
    ensures
        news == olds.push(news[e]),
{
    assert(news =~= olds.push(news[e]));
}

/// Pushing `None` then overwriting the new last slot is one push.
proof fn lemma_status_tables_slow(olds: Seq<Option<Slow>>, news: Seq<Option<Slow>>, e: int)
    requires
        e == olds.len(),
        news == olds.push(Option::<Slow>::None).update(e, news[e]),
    ensures
        news == olds.push(news[e]),
{
    assert(news =~= olds.push(news[e]));
}

/// Pushing `None` then overwriting the new last slot is one push.
proof fn lemma_status_tables_dot(
    olds: Seq<Option<DamageOverTime>>,
    news: Seq<Option<DamageOverTime>>,
    e: int,
)
    requires
        e == olds.len(),
        news == olds.push(Option::<DamageOverTime>::None).update(e, news[e]),
    ensures
        news == olds.push(news[e]),
{
    assert(news =~= olds.push(news[e]));
}

/// Pushing `None` then overwriting the new last slot is one push.
proof fn lemma_status_tables_ab(
    olds: Seq<Option<AttributeBonus>>,
    news: Seq<Option<AttributeBonus>>,
    e: int,
)
    requires
        e == olds.len(),
        news == olds.push(Option::<AttributeBonus>::None).update(e, news[e]),
    ensures
        news == olds.push(news[e]),
{
    assert(news =~= olds.push(news[e]));
}

/// Pushing `None` then overwriting the new last slot gives a table whose
/// last entry is the written name.
proof fn lemma_status_tables_name(olds: Seq<Option<String>>, news: Seq<Option<String>>, e: int)
    requires
        e == olds.len(),
        news == olds.push(Option::<String>::None).update(e, news[e]),
    ensures
        news.len() == olds.len() + 1,
        news.take(olds.len() as int) == olds,
        news.last() == news[e],
{
    assert(news.take(olds.len() as int) =~= olds);
}


/// Exactly one of the four attribute bases grew by one; modifiers, bonuses
/// and the other attributes are untouched.
pub open spec fn one_attribute_boosted(a: Attributes, b: Attributes) -> bool {
    ||| b == (Attributes {
        might: Attribute { base: spec_clamped(a.might.base + 1) as i32, ..a.might },
        ..a
    })
    ||| b == (Attributes {
        fitness: Attribute { base: spec_clamped(a.fitness.base + 1) as i32, ..a.fitness },
        ..a
    })
    ||| b == (Attributes {
        quickness: Attribute { base: spec_clamped(a.quickness.base + 1) as i32, ..a.quickness },
        ..a
    })
    ||| b == (Attributes {
        intelligence: Attribute {
            base: spec_clamped(a.intelligence.base + 1) as i32,
            ..a.intelligence
        },
        ..a
    })
}

/// Whether a death under these circumstances awards experience: the kill
/// is credited to a live record of the player, and the victim carried a
/// pool worth experience or gold.
pub open spec fn death_awards_xp(w: World, creator: Option<EntityId>, target: EntityId) -> bool {
    &&& creator is Some
    &&& creator->Some_0 < w.spec_len()
    &&& w.player@[creator->Some_0 as int]
    &&& target < w.spec_len()
    &&& w.pools@[target as int] is Some
    &&& w.pools@[creator->Some_0 as int] is Some
    &&& w.attributes@[creator->Some_0 as int] is Some
    &&& (spec_clamped(w.pools@[target as int]->Some_0.level * 100) != 0
        || w.pools@[target as int]->Some_0.gold != 0)
}

/// Resolve a death: the victim leaves the spatial index and is marked
/// dead. If the kill is credited to the player, the player gains the
/// victim's level times 100 in experience and the victim's gold; on
/// crossing level times 1000 experience the player levels up: one random
/// attribute grows, every skill grows by one, equipment is marked for a
/// stat recompute, and hit points and mana are fully restored to maxima
/// recomputed from the new attributes (attribute and level inputs clamped
/// to the formula's domain, a machine limit). Only cosmetic particles are
/// enqueued, and the log only grows.
pub fn death(
    world: &mut World,
    map: &LevelMap,
    queue: &mut EffectQueue,
    spatial: &mut SpatialIndex,
    rng: &mut rltk::RandomNumberGenerator,
    log: &mut crate::components::GameLog,
    creator: Option<EntityId>,
    target: EntityId,
)
    requires
        old(world).wf(),
        old(queue).wf(),
        old(spatial).wf(),
        map.wf(),
    ensures
        final(world).wf(),
        final(queue).wf(),
        final(spatial).wf(),
        final(queue).head == old(queue).head,
        final(spatial).tile_content@.len() == old(spatial).tile_content@.len(),
        final(spatial).occupancy() <= old(spatial).occupancy(),
        forall|i: int|
            0 <= i < final(spatial).contents().len() ==> final(spatial).contents()[i].len()
                <= old(spatial).contents()[i].len(),
        final(spatial).blocked@ == old(spatial).blocked@,
        ({
            let has_pos = target < old(world).spec_len() && old(
                world,
            ).position@[target as int] is Some && 0 <= old(world).position@[target as int]->Some_0.x
                < map.width && 0 <= old(world).position@[target as int]->Some_0.y < map.height;
            let vidx = crate::map::spec_xy_idx(
                map.width as int,
                old(world).position@[target as int]->Some_0.x as int,
                old(world).position@[target as int]->Some_0.y as int,
            );
            if has_pos && vidx < old(spatial).tile_content@.len() {
                final(spatial).contents() == old(spatial).contents().update(
                    vidx,
                    crate::spatial::spec_without_entity(
                        old(spatial).contents()[vidx],
                        target,
                    ),
                )
            } else {
                final(spatial).contents() == old(spatial).contents()
            }
        }),
        *final(world) == (World {
            alive: final(world).alive,
            pools: final(world).pools,
            attributes: final(world).attributes,
            skills: final(world).skills,
            equipment_changed: final(world).equipment_changed,
            ..*old(world)
        }),
        final(world).alive@ == if target < old(world).spec_len() {
            old(world).alive@.update(target as int, false)
        } else {
            old(world).alive@
        },
        exists|cosmetic: Seq<EffectSpawner>|
            {
                &&& final(queue).pending() == old(queue).pending() + cosmetic
                &&& forall|i: int| 0 <= i < cosmetic.len() ==> cosmetic[i].effect_type is Particle
                &&& cosmetic.len() <= 10
            },
        exists|extra: Seq<String>| final(log).entries@ == old(log).entries@ + extra,
        !death_awards_xp(*old(world), creator, target) ==> {
            &&& final(world).pools@ == old(world).pools@
            &&& final(world).attributes@ == old(world).attributes@
            &&& final(world).skills@ == old(world).skills@
            &&& final(world).equipment_changed@ == old(world).equipment_changed@
        },
        death_awards_xp(*old(world), creator, target) ==> {
            let src = creator->Some_0 as int;
            let sp = old(world).pools@[src]->Some_0;
            let vp = old(world).pools@[target as int]->Some_0;
            let new_xp = spec_clamped(sp.xp + spec_clamped(vp.level * 100));
            let new_gold = spec_clamped(sp.gold + vp.gold);
            let levelled = new_xp >= spec_clamped(sp.level * 1000);
            &&& final(world).pools@[src] matches Option::Some(np)
            &&& np.xp == new_xp
            &&& np.gold == new_gold
            &&& forall|i: int|
                0 <= i < old(world).pools@.len() && i != src ==> final(world).pools@[i] == old(
                    world,
                ).pools@[i]
            &&& !levelled ==> {
                &&& final(world).pools@[src]->Some_0 == (Pools { xp: new_xp as i32, gold: new_gold as i32, ..sp })
                &&& final(world).attributes@ == old(world).attributes@
                &&& final(world).skills@ == old(world).skills@
                &&& final(world).equipment_changed@ == old(world).equipment_changed@
            }
            &&& levelled ==> {
                let np = final(world).pools@[src]->Some_0;
                let na = final(world).attributes@[src]->Some_0;
                let fit_in = spec_clamp_range(na.fitness.base + na.fitness.modifiers, -1000, 1000);
                let int_in = spec_clamp_range(
                    na.intelligence.base + na.intelligence.modifiers,
                    -1000,
                    1000,
                );
                let lvl_in = spec_clamp_range(spec_clamped(sp.level + 1), 0, 1000);
                &&& np.level == spec_clamped(sp.level + 1)
                &&& final(world).attributes@[src] is Some
                &&& one_attribute_boosted(old(world).attributes@[src]->Some_0, na)
                &&& forall|i: int|
                    0 <= i < old(world).attributes@.len() && i != src
                        ==> final(world).attributes@[i] == old(world).attributes@[i]
                &&& np.hit_points.max == spec_player_hp_at_level(fit_in, lvl_in)
                &&& np.hit_points.current == np.hit_points.max
                &&& np.mana.max == spec_mana_at_level(int_in, lvl_in)
                &&& np.mana.current == np.mana.max
                &&& final(world).equipment_changed@ == old(world).equipment_changed@.update(
                    src,
                    true,
                )
            }
        },
{
    let ghost base_pending = queue.pending();
    if let Option::Some(pos_idx) = entity_position(world, target, map) {
        if pos_idx < spatial.tile_content.len() {
            spatial.remove_entity(target, pos_idx);
        }
    }
    if target < world.len() {
        world.alive.set(target, false);
    }
    proof {
        assert(queue.pending() =~= base_pending + Seq::<EffectSpawner>::empty());
        assert(log.entries@ =~= old(log).entries@ + Seq::<String>::empty());
    }
    let awards = if let Option::Some(src) = creator {
        src < world.len() && world.player[src] && target < world.len()
            && world.pools[target].is_some() && world.pools[src].is_some()
            && world.attributes[src].is_some()
    } else {
        false
    };
    if !awards {
        return ;
    }
    let src = creator.unwrap();
    let victim_pool = world.pools[target].unwrap();
    let xp_gain = clamped_mul(victim_pool.level, 100);
    let gold_gain = victim_pool.gold;
    if xp_gain == 0 && gold_gain == 0 {
        return ;
    }
    let sp = world.pools[src].unwrap();
    let new_xp = clamped_add(sp.xp, xp_gain);
    let new_gold = clamped_add(sp.gold, gold_gain);
    let threshold = clamped_mul(sp.level, 1000);
    if new_xp < threshold {
        world.pools[src] = Option::Some(Pools { xp: new_xp, gold: new_gold, ..sp });
        proof {
            assert(world.pools@ =~= old(world).pools@.update(
                src as int,
                Option::Some(Pools { xp: new_xp, gold: new_gold, ..sp }),
            ));
        }
        return ;
    }
    // Level up: announce, boost one random attribute, raise every skill,
    // mark equipment dirty and restore the pools to their new maxima.
    let new_level = clamped_add(sp.level, 1);
    log.push(String::from_str("Wieclaw osiaga nowy poziom!"));
    let old_attrs = world.attributes[src].unwrap();
    let roll = rng.roll_dice(1, 4);
    let new_attrs = if roll == 1 {
        log.push(String::from_str("Wieclaw jest silniejszy!"));
        Attributes {
            might: Attribute { base: clamped_add(old_attrs.might.base, 1), ..old_attrs.might },
            ..old_attrs
        }
    } else if roll == 2 {
        log.push(String::from_str("Wieclaw jest zdrowszy!"));
        Attributes {
            fitness: Attribute {
                base: clamped_add(old_attrs.fitness.base, 1),
                ..old_attrs.fitness
            },
            ..old_attrs
        }
    } else if roll == 3 {
        log.push(String::from_str("Wieclaw jest zwinniejszy!"));
        Attributes {
            quickness: Attribute {
                base: clamped_add(old_attrs.quickness.base, 1),
                ..old_attrs.quickness
            },
            ..old_attrs
        }
    } else {
        log.push(String::from_str("Wieclaw jest bystrzejszy!"));
        Attributes {
            intelligence: Attribute {
                base: clamped_add(old_attrs.intelligence.base, 1),
                ..old_attrs.intelligence
            },
            ..old_attrs
        }
    };
    world.attributes[src] = Option::Some(new_attrs);
    if let Option::Some(sk) = world.skills[src] {
        world.skills[src] = Option::Some(
            Skills {
                melee: clamped_add(sk.melee, 1),
                defense: clamped_add(sk.defense, 1),
                magic: clamped_add(sk.magic, 1),
            },
        );
    }
    world.equipment_changed[src] = true;
    let fit_in = clamp_range(
        clamped_add(new_attrs.fitness.base, new_attrs.fitness.modifiers),
        -1000,
        1000,
    );
    let int_in = clamp_range(
        clamped_add(new_attrs.intelligence.base, new_attrs.intelligence.modifiers),
        -1000,
        1000,
    );
    let lvl_in = clamp_range(new_level, 0, 1000);
    let hp_max = player_hp_at_level(fit_in, lvl_in);
    let mana_max = mana_at_level(int_in, lvl_in);
    world.pools[src] = Option::Some(
        Pools {
            hit_points: Pool { max: hp_max, current: hp_max },
            mana: Pool { max: mana_max, current: mana_max },
            xp: new_xp,
            gold: new_gold,
            level: new_level,
            ..sp
        },
    );
    // A cosmetic column of sparkles above the player.
    let ghost before_particles = queue.pending();
    let ghost emitted = Seq::<EffectSpawner>::empty();
    if let Option::Some(ppos) = world.position[src] {
        if 0 <= ppos.x && ppos.x < map.width && 0 <= ppos.y && ppos.y < map.height {
        let mut i: i32 = 0;
        while i < 10
            invariant
                0 <= i <= 10,
                queue.wf(),
                queue.head == old(queue).head,
                0 <= ppos.y < map.height,
                0 <= ppos.x < map.width,
                map.wf(),
                exists|cos: Seq<EffectSpawner>|
                    {
                        &&& queue.pending() == before_particles + cos
                        &&& forall|j: int| 0 <= j < cos.len() ==> cos[j].effect_type is Particle
                        &&& cos.len() <= i
                    },
            decreases 10 - i,
        {
            if ppos.y > i {
                let ghost prev = queue.pending();
                let ghost prev_cos = choose|cos: Seq<EffectSpawner>|
                    {
                        &&& prev == before_particles + cos
                        &&& forall|j: int| 0 <= j < cos.len() ==> cos[j].effect_type is Particle
                        &&& cos.len() <= i
                    };
                let tile_idx = map.xy_idx(ppos.x, ppos.y - i);
                add_effect(
                    queue,
                    Option::None,
                    EffectType::Particle {
                        glyph: '*',
                        fg: Color { r: 255, g: 215, b: 0 },
                        bg: Color { r: 0, g: 0, b: 0 },
                        lifespan: 400,
                    },
                    Targets::Tile { tile_idx },
                );
                proof {
                    let added = queue.pending().last();
                    assert(queue.pending() =~= before_particles + prev_cos.push(added));
                }
            }
            i = i + 1;
        }
        }
    }
    proof {
        assert(world.pools@ =~= old(world).pools@.update(
            src as int,
            world.pools@[src as int],
        ));
    }
}

} // verus!
