//! The tick orchestrator: classification first, then every role
//! behavior in a fixed, deterministic order, collecting the batch of
//! intents that is the tick's sole output.

use vstd::prelude::*;
use crate::world::{
    World, lemma_same_but_healths_refl, lemma_same_but_healths_trans, same_but_healths,
};
use crate::roles::{BotMemory, BotState, organize_units};
use crate::behaviors::{
    attackers_attack, defenders_defend, extractors_extract, factories_spawn_units, haulers_haul,
    is_attacker_intent, is_turret_intent, phased_batch, scouts_scout, spawn_units, turrets_shoot,
};
use crate::intents::Intents;

verus! {

/// Runs one tick over the world snapshot: classifies owned units into
/// role buckets, runs each role behavior in order (scout, attacker,
/// defender, extractor, hauler, turret, factory), and returns the
/// collected intents. Only current health is speculatively changed in
/// the world view; cross-tick memory is read but never altered here.
/// The batch comes out in phase order: first the attackers' intents,
/// then the turrets', then one spawn intent per owned factory.
pub fn tick(world: &mut World, memory: &mut BotMemory) -> (intents: Intents)
    requires
        old(world).wf(),
    ensures
        final(world).wf(),
        final(world).me == old(world).me,
        same_but_healths(old(world).entities@, final(world).entities@),
        *final(memory) == *old(memory),
        exists|a: int, t: int| #[trigger] phased_batch(
            intents.list@,
            final(world).entities@,
            old(world).me,
            a,
            t,
        ),
{
    let mut intents = Intents::new();
    let mut bot_state = BotState::new();

    organize_units(world, &mut bot_state);

    scouts_scout(world, memory);
    let ghost pre_attack = world.entities@;
    attackers_attack(world, &bot_state, &mut intents);
    let ghost attackers_done = intents.list@.len() as int;
    let ghost list_a = intents.list@;
    defenders_defend(world, memory);
    extractors_extract(world, memory);
    haulers_haul(world, memory);
    let ghost pre_turrets = world.entities@;
    turrets_shoot(world, &mut intents);
    proof {
        lemma_same_but_healths_trans(pre_attack, pre_turrets, world.entities@);
    }
    let ghost turrets_done = intents.list@.len() as int;
    let ghost list_t = intents.list@;
    factories_spawn_units(world, &mut intents);
    spawn_units(world, memory);

    proof {
        let full = intents.list@;
        assert(list_t =~= full.subrange(0, turrets_done));
        assert(list_a =~= list_t.subrange(0, attackers_done));
        assert forall|k: int| 0 <= k < attackers_done implies is_attacker_intent(
            #[trigger] full[k],
        ) by {
            assert(full[k] == list_t.subrange(0, attackers_done)[k]);
            assert(list_a[k] == list_t.subrange(0, attackers_done)[k]);
        }
        assert forall|k: int| attackers_done <= k < turrets_done implies is_turret_intent(
            #[trigger] full[k],
        ) by {
            assert(full[k] == full.subrange(0, turrets_done)[k]);
        }
        assert(phased_batch(
            intents.list@,
            world.entities@,
            old(world).me,
            attackers_done,
            turrets_done,
        ));
    }
    intents
}

} // verus!
