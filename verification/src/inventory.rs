//! Inventory handling: picking items up, dropping, unequipping, the
//! equip-on-use pass, the use-item pass that fires item triggers, item
//! identification, and display-name obfuscation.

use vstd::prelude::*;
use vstd::string::StringExecFns;
use crate::components::{EntityId, EquipmentSlot, Equipped, GameLog, InBackpack, RunState};
use crate::dungeon::MasterDungeonMap;
use crate::effects::{EffectQueue, Targets};
use crate::map::LevelMap;
use crate::world::World;

verus! {

/// Move every item wished for into its collector's backpack, clearing the
/// wish and the item's position.
pub fn item_collection_pass(world: &mut World, log: &mut GameLog, player: EntityId)
    requires
        old(world).wf(),
    ensures
        final(world).wf(),
        *final(world) == (World {
            position: final(world).position,
            in_backpack: final(world).in_backpack,
            wants_pickup: final(world).wants_pickup,
            ..*old(world)
        }),
        forall|e: int| 0 <= e < old(world).spec_len() ==> final(world).wants_pickup@[e] is None,
        exists|extra: Seq<String>| final(log).entries@ == old(log).entries@ + extra,
{
    let n = world.len();
    let ghost base_log = log.entries@;
    proof {
        assert(log.entries@ =~= base_log + Seq::<String>::empty());
    }
    let mut e: usize = 0;
    while e < n
        invariant
            world.wf(),
            n == world.spec_len(),
            e <= n,
            *world == (World {
                position: world.position,
                in_backpack: world.in_backpack,
                wants_pickup: world.wants_pickup,
                ..*old(world)
            }),
            forall|j: int| 0 <= j < e ==> world.wants_pickup@[j] is None,
            exists|extra: Seq<String>| log.entries@ == base_log + extra,
        decreases n - e,
    {
        let ghost prev_log = log.entries@;
        if let Option::Some(pickup) = world.wants_pickup[e] {
            if pickup.item < n {
                world.position[pickup.item] = Option::None;
                world.in_backpack[pickup.item] = Option::Some(
                    InBackpack { owner: pickup.collected_by },
                );
                if pickup.collected_by == player {
                    log.push(String::from_str("Wieclaw podniosl przedmiot."));
                }
            }
            world.wants_pickup[e] = Option::None;
        }
        proof {
            let lseg = log.entries@.skip(prev_log.len() as int);
            assert(log.entries@ =~= prev_log + lseg);
            let prev_extra = choose|extra: Seq<String>| prev_log == base_log + extra;
            assert(log.entries@ =~= base_log + (prev_extra + lseg));
        }
        e = e + 1;
    }
}

/// Drop every item wished dropped at its dropper's feet, clearing the
/// wish and the backpack slot.
pub fn item_drop_pass(world: &mut World, log: &mut GameLog, player: EntityId)
    requires
        old(world).wf(),
    ensures
        final(world).wf(),
        *final(world) == (World {
            position: final(world).position,
            in_backpack: final(world).in_backpack,
            wants_drop: final(world).wants_drop,
            ..*old(world)
        }),
        forall|e: int| 0 <= e < old(world).spec_len() ==> final(world).wants_drop@[e] is None,
        exists|extra: Seq<String>| final(log).entries@ == old(log).entries@ + extra,
{
    let n = world.len();
    let ghost base_log = log.entries@;
    proof {
        assert(log.entries@ =~= base_log + Seq::<String>::empty());
    }
    let mut e: usize = 0;
    while e < n
        invariant
            world.wf(),
            n == world.spec_len(),
            e <= n,
            *world == (World {
                position: world.position,
                in_backpack: world.in_backpack,
                wants_drop: world.wants_drop,
                ..*old(world)
            }),
            forall|j: int| 0 <= j < e ==> world.wants_drop@[j] is None,
            exists|extra: Seq<String>| log.entries@ == base_log + extra,
        decreases n - e,
    {
        let ghost prev_log = log.entries@;
        if let Option::Some(item) = world.wants_drop[e] {
            if item < n {
                if let Option::Some(dropper_pos) = world.position[e] {
                    world.position[item] = Option::Some(dropper_pos);
                }
                world.in_backpack[item] = Option::None;
                if e == player {
                    log.push(String::from_str("Przedmiot wypada z kieszeni Wieclawa."));
                }
            }
            world.wants_drop[e] = Option::None;
        }
        proof {
            let lseg = log.entries@.skip(prev_log.len() as int);
            assert(log.entries@ =~= prev_log + lseg);
            let prev_extra = choose|extra: Seq<String>| prev_log == base_log + extra;
            assert(log.entries@ =~= base_log + (prev_extra + lseg));
        }
        e = e + 1;
    }
}

/// Unequip every item wished removed, returning it to the remover's
/// backpack and clearing the wish.
pub fn item_remove_pass(world: &mut World)
    requires
        old(world).wf(),
    ensures
        final(world).wf(),
        *final(world) == (World {
            equipped: final(world).equipped,
            in_backpack: final(world).in_backpack,
            wants_remove: final(world).wants_remove,
            ..*old(world)
        }),
        forall|e: int| 0 <= e < old(world).spec_len() ==> final(world).wants_remove@[e] is None,
{
    let n = world.len();
    let mut e: usize = 0;
    while e < n
        invariant
            world.wf(),
            n == world.spec_len(),
            e <= n,
            *world == (World {
                equipped: world.equipped,
                in_backpack: world.in_backpack,
                wants_remove: world.wants_remove,
                ..*old(world)
            }),
            forall|j: int| 0 <= j < e ==> world.wants_remove@[j] is None,
        decreases n - e,
    {
        if let Option::Some(item) = world.wants_remove[e] {
            if item < n {
                world.equipped[item] = Option::None;
                world.in_backpack[item] = Option::Some(InBackpack { owner: e });
            }
            world.wants_remove[e] = Option::None;
        }
        e = e + 1;
    }
}


/// Whether the item at `i` is worn by entity `e` in the given slot.
pub open spec fn spec_worn_in_slot(w: World, e: int, slot: EquipmentSlot, i: int) -> bool {
    &&& 0 <= i < w.spec_len()
    &&& w.equipped@[i] is Some
    &&& w.equipped@[i]->Some_0.owner == e
    &&& w.equipped@[i]->Some_0.slot == slot
}

/// Whether a cursed item worn in the slot blocks the swap.
pub open spec fn spec_equip_blocked(w: World, e: int, slot: EquipmentSlot) -> bool {
    exists|i: int| #[trigger] spec_worn_in_slot(w, e, slot, i) && w.cursed_item@[i]
}

/// How many cursed items entity `e` wears in the slot among the first `k`
/// entities: one blocked-swap message is logged for each.
pub open spec fn spec_cursed_worn_count(w: World, e: int, slot: EquipmentSlot, k: int) -> int
    decreases k,
{
    if k <= 0 {
        0
    } else {
        spec_cursed_worn_count(w, e, slot, k - 1) + if spec_worn_in_slot(w, e, slot, k - 1)
            && w.cursed_item@[k - 1] {
            1int
        } else {
            0int
        }
    }
}

/// A count of worn cursed items is never negative.
proof fn lemma_cursed_count_nonneg(w: World, e: int, slot: EquipmentSlot, k: int)
    ensures
        spec_cursed_worn_count(w, e, slot, k) >= 0,
    decreases k,
{
    if k > 0 {
        lemma_cursed_count_nonneg(w, e, slot, k - 1);
    }
}

/// With no cursed item worn in the slot, no blocked-swap message is owed.
proof fn lemma_cursed_count_zero(w: World, e: int, slot: EquipmentSlot, k: int)
    requires
        !spec_equip_blocked(w, e, slot),
    ensures
        spec_cursed_worn_count(w, e, slot, k) == 0,
    decreases k,
{
    if k > 0 {
        lemma_cursed_count_zero(w, e, slot, k - 1);
        if spec_worn_in_slot(w, e, slot, k - 1) && w.cursed_item@[k - 1] {
            assert(spec_equip_blocked(w, e, slot));
        }
    }
}

/// Equip one wished item. A cursed item already worn in the slot blocks
/// the whole swap and — for the player — logs one refusal per cursed
/// piece; otherwise everything worn in the slot moves to the backpack,
/// the item is worn, and the player learns its name. Either way the wish
/// is cleared and the wearer's equipment is marked for a stat recompute.
#[verifier::rlimit(90)]
pub fn equip_one(world: &mut World, log: &mut GameLog, player: EntityId, e: EntityId)
    requires
        old(world).wf(),
        e < old(world).spec_len(),
        old(world).wants_use_item@[e as int] is Some,
        old(world).wants_use_item@[e as int]->Some_0.item < old(world).spec_len(),
        old(world).equippable@[old(world).wants_use_item@[e as int]->Some_0.item as int] is Some,
    ensures
        final(world).wf(),
        final(world).spec_len() == old(world).spec_len(),
        *final(world) == (World {
            equipped: final(world).equipped,
            in_backpack: final(world).in_backpack,
            equipment_changed: final(world).equipment_changed,
            identified_item: final(world).identified_item,
            wants_use_item: final(world).wants_use_item,
            ..*old(world)
        }),
        final(world).wants_use_item@ == old(world).wants_use_item@.update(
            e as int,
            Option::None,
        ),
        final(world).equipment_changed@ == old(world).equipment_changed@.update(e as int, true),
        final(log).entries@.len() >= old(log).entries@.len(),
        forall|k: int|
            0 <= k < old(log).entries@.len() ==> #[trigger] final(log).entries@[k] == old(
                log,
            ).entries@[k],
        e != player ==> final(log).entries@ == old(log).entries@,
        ({
            let item = old(world).wants_use_item@[e as int]->Some_0.item as int;
            let slot = old(world).equippable@[item]->Some_0.slot;
            if spec_equip_blocked(*old(world), e as int, slot) {
                &&& final(world).equipped@ == old(world).equipped@
                &&& final(world).in_backpack@ == old(world).in_backpack@
                &&& final(world).identified_item@ == old(world).identified_item@
                &&& e == player ==> final(log).entries@.len() == old(log).entries@.len()
                    + spec_cursed_worn_count(*old(world), e as int, slot, old(world).spec_len())
                &&& forall|k: int|
                    old(log).entries@.len() <= k < final(log).entries@.len()
                        ==> (#[trigger] final(log).entries@[k])@
                        == "Wieclaw nie moze zdjac przedmiotu, albowiem ma na sobie heksa."@
            } else {
                &&& forall|j: int|
                    0 <= j < old(world).spec_len() ==> #[trigger] final(world).equipped@[j] == (
                    if j == item {
                        Option::Some(Equipped { owner: e, slot: slot })
                    } else if spec_worn_in_slot(*old(world), e as int, slot, j) {
                        Option::None
                    } else {
                        old(world).equipped@[j]
                    })
                &&& forall|j: int|
                    0 <= j < old(world).spec_len() ==> #[trigger] final(world).in_backpack@[j] == (
                    if j == item {
                        Option::None
                    } else if spec_worn_in_slot(*old(world), e as int, slot, j) {
                        Option::Some(InBackpack { owner: e })
                    } else {
                        old(world).in_backpack@[j]
                    })
                &&& e == player && old(world).name@[item] is Some ==> {
                    &&& final(world).identified_item@.len() == old(world).identified_item@.len()
                    &&& final(world).identified_item@[e as int] is Some
                    &&& final(world).identified_item@[e as int]->Some_0@ == old(
                        world,
                    ).name@[item]->Some_0@
                    &&& forall|j: int|
                        0 <= j < old(world).identified_item@.len() && j != e
                            ==> #[trigger] final(world).identified_item@[j] == old(
                            world,
                        ).identified_item@[j]
                }
                &&& !(e == player && old(world).name@[item] is Some) ==> final(world).identified_item@ == old(world).identified_item@
                &&& e == player ==> final(log).entries@.len() == old(log).entries@.len() + 1
                    && final(log).entries@.last()@ == "Wieclaw zaklada przedmiot."@
            }
        }),
{
    let n = world.len();
    let use_wish = world.wants_use_item[e].unwrap();
    let item = use_wish.item;
    let can_equip = world.equippable[item].unwrap();
    let target_slot = can_equip.slot;
    let mut blocked = false;
    let mut to_unequip: Vec<EntityId> = Vec::new();
    let mut i: usize = 0;
    while i < n
        invariant
            world.wf(),
            *world == *old(world),
            n == world.spec_len(),
            e < n,
            item < n,
            item == old(world).wants_use_item@[e as int]->Some_0.item,
            target_slot == old(world).equippable@[item as int]->Some_0.slot,
            i <= n,
            blocked == exists|k: int|
                0 <= k < i && #[trigger] spec_worn_in_slot(*old(world), e as int, target_slot, k)
                    && old(world).cursed_item@[k],
            forall|k: int|
                0 <= k < to_unequip@.len() ==> spec_worn_in_slot(
                    *old(world),
                    e as int,
                    target_slot,
                    (#[trigger] to_unequip@[k]) as int,
                ) && !old(world).cursed_item@[to_unequip@[k] as int],
            forall|j: int|
                0 <= j < i && spec_worn_in_slot(*old(world), e as int, target_slot, j) && !old(
                    world,
                ).cursed_item@[j] ==> exists|k: int|
                    0 <= k < to_unequip@.len() && (#[trigger] to_unequip@[k]) as int == j,
            forall|k: int| 0 <= k < to_unequip@.len() ==> (#[trigger] to_unequip@[k]) < i,
            forall|k1: int, k2: int|
                0 <= k1 < k2 < to_unequip@.len() ==> #[trigger] to_unequip@[k1]
                    < #[trigger] to_unequip@[k2],
            log.entries@.len() >= old(log).entries@.len(),
            e != player ==> log.entries@ == old(log).entries@,
            e == player ==> log.entries@.len() == old(log).entries@.len()
                + spec_cursed_worn_count(*old(world), e as int, target_slot, i as int),
            forall|k: int|
                0 <= k < old(log).entries@.len() ==> #[trigger] log.entries@[k] == old(
                    log,
                ).entries@[k],
            forall|k: int|
                old(log).entries@.len() <= k < log.entries@.len() ==> (#[trigger] log.entries@[k])@
                    == "Wieclaw nie moze zdjac przedmiotu, albowiem ma na sobie heksa."@,
        decreases n - i,
    {
        let ghost lprev = log.entries@;
        let ghost uprev = to_unequip@;
        if let Option::Some(already) = world.equipped[i] {
            if already.owner == e && already.slot == target_slot {
                if world.cursed_item[i] {
                    blocked = true;
                    proof {
                        assert(spec_worn_in_slot(*old(world), e as int, target_slot, i as int));
                    }
                    if e == player {
                        log.push(
                            String::from_str(
                                "Wieclaw nie moze zdjac przedmiotu, albowiem ma na sobie heksa.",
                            ),
                        );
                        proof {
                            assert(log.entries@ == lprev.push(log.entries@.last()));
                        }
                    }
                } else {
                    to_unequip.push(i);
                    proof {
                        assert(spec_worn_in_slot(*old(world), e as int, target_slot, i as int));
                        assert(to_unequip@ == uprev.push(i));
                        assert(to_unequip@.last() == i);
                    }
                }
            } else {
                proof {
                    assert(!spec_worn_in_slot(*old(world), e as int, target_slot, i as int));
                }
            }
        } else {
            proof {
                assert(!spec_worn_in_slot(*old(world), e as int, target_slot, i as int));
            }
        }
        proof {
            assert forall|k: int|
                0 <= k < old(log).entries@.len() implies #[trigger] log.entries@[k] == old(
                log,
            ).entries@[k] by {
                assert(log.entries@[k] == lprev[k]);
            }
            assert forall|j: int|
                0 <= j < i + 1 && spec_worn_in_slot(*old(world), e as int, target_slot, j) && !old(
                    world,
                ).cursed_item@[j] implies exists|k: int|
                    0 <= k < to_unequip@.len() && (#[trigger] to_unequip@[k]) as int == j by {
                if j < i {
                    let k0 = choose|k: int|
                        0 <= k < uprev.len() && (#[trigger] uprev[k]) as int == j;
                    assert(to_unequip@[k0] as int == j);
                } else {
                    assert(to_unequip@[to_unequip@.len() - 1] as int == j);
                }
            }
        }
        proof {
            assert(spec_cursed_worn_count(*old(world), e as int, target_slot, i as int + 1)
                == spec_cursed_worn_count(*old(world), e as int, target_slot, i as int)
                + if spec_worn_in_slot(*old(world), e as int, target_slot, i as int) && old(
                world,
            ).cursed_item@[i as int] {
                1int
            } else {
                0int
            });
        }
        i = i + 1;
    }
    proof {
        if spec_equip_blocked(*old(world), e as int, target_slot) {
            let k0 = choose|k: int|
                #[trigger] spec_worn_in_slot(*old(world), e as int, target_slot, k) && old(
                    world,
                ).cursed_item@[k];
            assert(0 <= k0 < n);
            assert(blocked);
        }
        assert(blocked == spec_equip_blocked(*old(world), e as int, target_slot));
        lemma_cursed_count_nonneg(*old(world), e as int, target_slot, n as int);
    }
    if !blocked {
        proof {
            lemma_cursed_count_zero(*old(world), e as int, target_slot, n as int);
        }
        if e == player {
            if let Option::Some(item_name) = &world.name[item] {
                let named = item_name.clone();
                world.identified_item[e] = Option::Some(named);
            }
        }
        let ghost id_after = world.identified_item@;
        let mut u: usize = 0;
        while u < to_unequip.len()
            invariant
                world.wf(),
                n == world.spec_len(),
                e < n,
                item < n,
                u <= to_unequip@.len(),
                *world == (World {
                    equipped: world.equipped,
                    in_backpack: world.in_backpack,
                    identified_item: world.identified_item,
                    ..*old(world)
                }),
                world.identified_item@ == id_after,
                forall|k: int|
                    0 <= k < to_unequip@.len() ==> spec_worn_in_slot(
                        *old(world),
                        e as int,
                        target_slot,
                        (#[trigger] to_unequip@[k]) as int,
                    ),
                forall|k: int| 0 <= k < to_unequip@.len() ==> (#[trigger] to_unequip@[k]) < n,
                forall|k1: int, k2: int|
                    0 <= k1 < k2 < to_unequip@.len() ==> #[trigger] to_unequip@[k1]
                        < #[trigger] to_unequip@[k2],
                forall|j: int|
                    0 <= j < n && !spec_worn_in_slot(*old(world), e as int, target_slot, j)
                        ==> #[trigger] world.equipped@[j] == old(world).equipped@[j]
                        && world.in_backpack@[j] == old(world).in_backpack@[j],
                forall|k: int|
                    0 <= k < u ==> #[trigger] world.equipped@[to_unequip@[k] as int] is None
                        && world.in_backpack@[to_unequip@[k] as int] == Option::Some(
                        InBackpack { owner: e },
                    ),
                forall|k: int|
                    u <= k < to_unequip@.len() ==> #[trigger] world.equipped@[to_unequip@[k] as int]
                        == old(world).equipped@[to_unequip@[k] as int]
                        && world.in_backpack@[to_unequip@[k] as int] == old(
                        world,
                    ).in_backpack@[to_unequip@[k] as int],
            decreases to_unequip@.len() - u,
        {
            let worn = to_unequip[u];
            world.equipped[worn] = Option::None;
            world.in_backpack[worn] = Option::Some(InBackpack { owner: e });
            u = u + 1;
        }
        world.equipped[item] = Option::Some(Equipped { owner: e, slot: target_slot });
        world.in_backpack[item] = Option::None;
        if e == player {
            log.push(String::from_str("Wieclaw zaklada przedmiot."));
        }
        proof {
            assert forall|j: int|
                0 <= j < n && j != item && spec_worn_in_slot(
                    *old(world),
                    e as int,
                    target_slot,
                    j,
                ) implies #[trigger] world.equipped@[j] is None && world.in_backpack@[j]
                == Option::Some(InBackpack { owner: e }) by {
                assert(!old(world).cursed_item@[j]) by {
                    if old(world).cursed_item@[j] {
                        assert(spec_equip_blocked(*old(world), e as int, target_slot));
                    }
                }
                let k0 = choose|k: int|
                    0 <= k < to_unequip@.len() && (#[trigger] to_unequip@[k]) as int == j;
                assert(world.equipped@[to_unequip@[k0] as int] is None);
                assert(world.in_backpack@[to_unequip@[k0] as int] == Option::Some(
                    InBackpack { owner: e },
                ));
            }
            assert forall|j: int|
                0 <= j < n implies #[trigger] world.equipped@[j] == (if j == item as int {
                Option::Some(Equipped { owner: e, slot: target_slot })
            } else if spec_worn_in_slot(*old(world), e as int, target_slot, j) {
                Option::None
            } else {
                old(world).equipped@[j]
            }) by {}
            assert forall|j: int|
                0 <= j < n implies #[trigger] world.in_backpack@[j] == (if j == item as int {
                Option::None
            } else if spec_worn_in_slot(*old(world), e as int, target_slot, j) {
                Option::Some(InBackpack { owner: e })
            } else {
                old(world).in_backpack@[j]
            }) by {
                if j != item as int && !spec_worn_in_slot(*old(world), e as int, target_slot, j) {
                    assert(world.equipped@[j] == old(world).equipped@[j]);
                }
            }
        }
    }
    world.equipment_changed[e] = true;
    world.wants_use_item[e] = Option::None;
    proof {
        assert(world.wants_use_item@ =~= old(world).wants_use_item@.update(
            e as int,
            Option::None,
        ));
        assert(world.equipment_changed@ =~= old(world).equipment_changed@.update(e as int, true));
        if !spec_equip_blocked(
            *old(world),
            e as int,
            old(world).equippable@[item as int]->Some_0.slot,
        ) && !(e == player && old(world).name@[item as int] is Some) {
            assert(world.identified_item@ =~= old(world).identified_item@);
        }
    }
}

/// Equip every equippable item wished used: each qualifying wish goes
/// through the single-entity swap exactly as its contract states; the
/// user's equipment is marked for a stat recompute and the wish cleared.
pub fn item_equip_pass(world: &mut World, log: &mut GameLog, player: EntityId)
    requires
        old(world).wf(),
    ensures
        final(world).wf(),
        final(world).spec_len() == old(world).spec_len(),
        *final(world) == (World {
            equipped: final(world).equipped,
            in_backpack: final(world).in_backpack,
            equipment_changed: final(world).equipment_changed,
            identified_item: final(world).identified_item,
            wants_use_item: final(world).wants_use_item,
            ..*old(world)
        }),
        forall|e: int|
            0 <= e < old(world).spec_len() && old(world).wants_use_item@[e] is Some && old(
                world,
            ).wants_use_item@[e]->Some_0.item < old(world).spec_len() && old(
                world,
            ).equippable@[old(world).wants_use_item@[e]->Some_0.item as int] is Some
                ==> #[trigger] final(world).wants_use_item@[e] is None,
        exists|extra: Seq<String>| final(log).entries@ == old(log).entries@ + extra,
{
    let n = world.len();
    let ghost base_log = log.entries@;
    proof {
        assert(log.entries@ =~= base_log + Seq::<String>::empty());
    }
    let mut e: usize = 0;
    while e < n
        invariant
            world.wf(),
            n == world.spec_len(),
            e <= n,
            *world == (World {
                equipped: world.equipped,
                in_backpack: world.in_backpack,
                equipment_changed: world.equipment_changed,
                identified_item: world.identified_item,
                wants_use_item: world.wants_use_item,
                ..*old(world)
            }),
            forall|j: int|
                0 <= j < e && old(world).wants_use_item@[j] is Some && old(
                    world,
                ).wants_use_item@[j]->Some_0.item < n && old(
                    world,
                ).equippable@[old(world).wants_use_item@[j]->Some_0.item as int] is Some
                    ==> #[trigger] world.wants_use_item@[j] is None,
            forall|j: int|
                e <= j < n ==> #[trigger] world.wants_use_item@[j] == old(
                    world,
                ).wants_use_item@[j],
            exists|extra: Seq<String>| log.entries@ == base_log + extra,
        decreases n - e,
    {
        let ghost prev_log = log.entries@;
        if let Option::Some(use_wish) = world.wants_use_item[e] {
            if use_wish.item < n {
                if world.equippable[use_wish.item].is_some() {
                    let ghost pre = *world;
                    equip_one(world, log, player, e);
                    proof {
                        assert(*world == (World {
                            equipped: world.equipped,
                            in_backpack: world.in_backpack,
                            equipment_changed: world.equipment_changed,
                            identified_item: world.identified_item,
                            wants_use_item: world.wants_use_item,
                            ..*old(world)
                        }));
                        assert(log.entries@ =~= prev_log + log.entries@.subrange(
                            prev_log.len() as int,
                            log.entries@.len() as int,
                        ));
                    }
                }
            }
        }
        proof {
            if log.entries@ == prev_log {
                assert(log.entries@ =~= prev_log + Seq::<String>::empty());
            }
            let call_extra = choose|extra: Seq<String>| log.entries@ == prev_log + extra;
            let prev_extra = choose|extra: Seq<String>| prev_log == base_log + extra;
            assert(log.entries@ =~= base_log + (prev_extra + call_extra));
        }
        e = e + 1;
    }
}

/// Fire every remaining use-item wish as an item trigger aimed at the
/// user, or at the wished tile, and clear the wish. Area expansion around
/// a targeted tile is the caller's business: the wish carries the tile,
/// and the effects pipeline expands it over the spatial index.
pub fn item_use_pass(
    world: &mut World,
    map: &LevelMap,
    queue: &mut EffectQueue,
    log: &mut GameLog,
    runstate: &mut RunState,
)
    requires
        old(world).wf(),
        old(queue).wf(),
        map.wf(),
    ensures
        final(world).wf(),
        final(queue).wf(),
        final(queue).head == old(queue).head,
        final(world).spec_len() >= old(world).spec_len(),
        forall|e: int| 0 <= e < old(world).spec_len() ==> final(world).wants_use_item@[e] is None,
        exists|extra: Seq<String>| final(log).entries@ == old(log).entries@ + extra,
{
    let n = world.len();
    let ghost base_log = log.entries@;
    proof {
        assert(log.entries@ =~= base_log + Seq::<String>::empty());
    }
    let mut e: usize = 0;
    while e < n
        invariant
            world.wf(),
            queue.wf(),
            queue.head == old(queue).head,
            map.wf(),
            n <= world.spec_len(),
            world.spec_len() >= old(world).spec_len(),
            e <= n,
            forall|j: int| 0 <= j < e ==> world.wants_use_item@[j] is None,
            forall|j: int|
                e <= j < n ==> #[trigger] world.wants_use_item@[j] is Some ==> j
                    < world.wants_use_item@.len(),
            exists|extra: Seq<String>| log.entries@ == base_log + extra,
        decreases n - e,
    {
        let ghost prev_log = log.entries@;
        let wish = world.wants_use_item[e];
        world.wants_use_item[e] = Option::None;
        if let Option::Some(use_wish) = wish {
            if use_wish.item < world.len() {
                let targets = match use_wish.target {
                    Option::None => Targets::Single { target: e },
                    Option::Some(point) => {
                        if 0 <= point.x && point.x < map.width && 0 <= point.y && point.y
                            < map.height {
                            Targets::Tile { tile_idx: map.xy_idx(point.x, point.y) }
                        } else {
                            Targets::Single { target: e }
                        }
                    },
                };
                crate::effects::triggers::item_trigger(
                    world,
                    map,
                    queue,
                    log,
                    runstate,
                    Option::Some(e),
                    use_wish.item,
                    &targets,
                );
            }
        }
        proof {
            if log.entries@ == prev_log {
                assert(log.entries@ =~= prev_log + Seq::<String>::empty());
            }
            let call_extra = choose|extra: Seq<String>| log.entries@ == prev_log + extra;
            let prev_extra = choose|extra: Seq<String>| prev_log == base_log + extra;
            assert(log.entries@ =~= base_log + (prev_extra + call_extra));
        }
        e = e + 1;
    }
}

/// Record every newly identified item of the player in the registry and
/// clear the marks.
pub fn item_identification_pass(
    world: &mut World,
    dm: &mut MasterDungeonMap,
    player: EntityId,
)
    requires
        old(world).wf(),
        old(dm).wf(),
    ensures
        final(world).wf(),
        final(dm).wf(),
        *final(world) == (World {
            identified_item: final(world).identified_item,
            obfuscated_name: final(world).obfuscated_name,
            ..*old(world)
        }),
        *final(dm) == (MasterDungeonMap {
            identified_items: final(dm).identified_items,
            ..*old(dm)
        }),
        forall|e: int|
            0 <= e < old(world).spec_len() ==> final(world).identified_item@[e] is None,
{
    let n = world.len();
    let mut e: usize = 0;
    while e < n
        invariant
            world.wf(),
            dm.wf(),
            n == world.spec_len(),
            e <= n,
            *world == (World {
                identified_item: world.identified_item,
                obfuscated_name: world.obfuscated_name,
                ..*old(world)
            }),
            *dm == (MasterDungeonMap { identified_items: dm.identified_items, ..*old(dm) }),
            forall|j: int| 0 <= j < e ==> world.identified_item@[j] is None,
        decreases n - e,
    {
        if world.identified_item[e].is_some() {
            if e == player {
                if let Option::Some(found_name) = &world.identified_item[e] {
                    let named = found_name.clone();
                    dm.identified_items.push(named);
                }
            }
            world.identified_item[e] = Option::None;
        }
        e = e + 1;
    }
}

/// Whether the registry lists a name as identified.
pub open spec fn spec_identified(dm: MasterDungeonMap, name: Seq<char>) -> bool {
    exists|i: int|
        0 <= i < dm.identified_items@.len() && (#[trigger] dm.identified_items@[i])@ == name
}

/// The name an item shows: a nameless item shows the placeholder; a
/// mundane or identified item shows its own name; an unidentified magic
/// item shows its obfuscated name, or the unknown-item placeholder when
/// it has none.
pub fn obfuscate_name(world: &World, item: EntityId, dm: &MasterDungeonMap) -> (r: String)
    requires
        world.wf(),
    ensures
        !(item < world.spec_len() && world.name@[item as int] is Some) ==> r@
            == "Bezimienny przedmiot"@,
        item < world.spec_len() && world.name@[item as int] is Some ==> {
            let true_name = world.name@[item as int]->Some_0@;
            if !world.magic_item@[item as int] || spec_identified(*dm, true_name) {
                r@ == true_name
            } else if world.obfuscated_name@[item as int] is Some {
                r@ == world.obfuscated_name@[item as int]->Some_0@
            } else {
                r@ == "Niezidentyfikowany przedmiot"@
            }
        },
{
    if item >= world.len() {
        return String::from_str("Bezimienny przedmiot");
    }
    let true_name = match &world.name[item] {
        Option::Some(name) => name.clone(),
        Option::None => {
            return String::from_str("Bezimienny przedmiot");
        },
    };
    if !world.magic_item[item] {
        return true_name;
    }
    // Identified magic items show their true name.
    let mut i: usize = 0;
    while i < dm.identified_items.len()
        invariant
            true_name@ == world.name@[item as int]->Some_0@,
            item < world.spec_len(),
            world.name@[item as int] is Some,
            forall|k: int|
                0 <= k < i ==> (#[trigger] dm.identified_items@[k])@ != true_name@,
        decreases dm.identified_items@.len() - i,
    {
        if dm.identified_items[i] == true_name {
            return true_name;
        }
        i = i + 1;
    }
    match &world.obfuscated_name[item] {
        Option::Some(masked) => masked.clone(),
        Option::None => String::from_str("Niezidentyfikowany przedmiot"),
    }
}

} // verus!
