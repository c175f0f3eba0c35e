//! Turn denial for confused actors: an entity targeted by a live
//! confusion status loses the turn it was granted this tick.

use vstd::prelude::*;
use crate::components::{Color, EntityId, RunState};
use crate::effects::{EffectQueue, EffectSpawner, EffectType, Targets, add_effect};
use crate::world::World;

verus! {

/// Whether a live confusion status aims at the entity.
pub open spec fn spec_confused(w: World, e: int) -> bool {
    exists|s: int|
        0 <= s < w.spec_len() && w.alive@[s] && #[trigger] w.status_effect@[s] is Some
            && w.status_effect@[s]->Some_0.target == e && w.confusion@[s]
}

/// Deny this tick's turn to every entity a live confusion status aims at,
/// leaving a feedback particle for each denied turn. Runs only in the
/// ticking mode.
pub fn turn_status_pass(world: &mut World, queue: &mut EffectQueue, runstate: &RunState)
    requires
        old(world).wf(),
        old(queue).wf(),
    ensures
        final(world).wf(),
        final(queue).wf(),
        final(queue).head == old(queue).head,
        *runstate != RunState::Ticking ==> *final(world) == *old(world) && final(queue).pending()
            == old(queue).pending(),
        *runstate == RunState::Ticking ==> {
            &&& *final(world) == (World { my_turn: final(world).my_turn, ..*old(world) })
            &&& forall|e: int|
                0 <= e < old(world).spec_len() ==> #[trigger] final(world).my_turn@[e] == (old(
                    world,
                ).my_turn@[e] && !spec_confused(*old(world), e))
            &&& exists|added: Seq<EffectSpawner>|
                {
                    &&& final(queue).pending() == old(queue).pending() + added
                    &&& forall|i: int| 0 <= i < added.len() ==> added[i].effect_type is Particle
                }
        },
{
    if *runstate != RunState::Ticking {
        return ;
    }
    let n = world.len();
    let ghost base = queue.pending();
    let ghost added = Seq::<EffectSpawner>::empty();
    proof {
        assert(queue.pending() =~= base + added);
    }
    let mut s: usize = 0;
    while s < n
        invariant
            world.wf(),
            queue.wf(),
            queue.head == old(queue).head,
            n == world.spec_len(),
            s <= n,
            *world == (World { my_turn: world.my_turn, ..*old(world) }),
            queue.pending() == base + added,
            forall|i: int| 0 <= i < added.len() ==> added[i].effect_type is Particle,
            forall|e: int|
                0 <= e < n ==> #[trigger] world.my_turn@[e] == (old(world).my_turn@[e] && !(
                exists|j: int|
                    0 <= j < s && old(world).alive@[j] && #[trigger] old(
                        world,
                    ).status_effect@[j] is Some && old(world).status_effect@[j]->Some_0.target == e
                        && old(world).confusion@[j])),
        decreases n - s,
    {
        let ghost prev_added = added;
        let confuses = world.alive[s] && world.confusion[s] && world.status_effect[s].is_some();
        if confuses {
            let st = world.status_effect[s].unwrap();
            if st.target < n {
                if world.my_turn[st.target] {
                    add_effect(
                        queue,
                        Option::None,
                        EffectType::Particle {
                            glyph: '?',
                            fg: Color { r: 255, g: 0, b: 255 },
                            bg: Color { r: 0, g: 0, b: 0 },
                            lifespan: 200,
                        },
                        Targets::Single { target: st.target },
                    );
                    proof {
                        added = added.push(queue.pending().last());
                        assert(queue.pending() =~= base + added);
                    }
                }
                world.my_turn[st.target] = false;
            }
        }
        proof {
            assert forall|e: int|
                0 <= e < n implies #[trigger] world.my_turn@[e] == (old(world).my_turn@[e] && !(
            exists|j: int|
                0 <= j < s + 1 && old(world).alive@[j] && #[trigger] old(
                    world,
                ).status_effect@[j] is Some && old(world).status_effect@[j]->Some_0.target == e
                    && old(world).confusion@[j])) by {
                if confuses && old(world).status_effect@[s as int]->Some_0.target == e
                    && old(world).status_effect@[s as int]->Some_0.target < n {
                    assert(!world.my_turn@[e]);
                }
            }
        }
        s = s + 1;
    }
    proof {
        assert forall|e: int|
            0 <= e < n implies #[trigger] world.my_turn@[e] == (old(world).my_turn@[e]
            && !spec_confused(*old(world), e)) by {}
    }
}

} // verus!
