//! Combat resolution: speculative damage/repair applied to the local
//! world view, paired with the intent that asks the external engine
//! to resolve the same action authoritatively.

use vstd::prelude::*;
use crate::hex::Hex;
use crate::components::Health;
use crate::world::{
    Entity, EntityData, ObjectKind, World, entities_wf, find_at, lemma_find_at_bounds,
    lemma_wf_update, same_but_health, same_but_healths, with_health,
};
use crate::intents::{Intent, Intents};

verus! {

/// The health value after `damage` is subtracted with clamping at 0.
pub open spec fn damaged_health(h: Health, damage: u32) -> Health {
    (Health { current: if damage > h.current { 0u32 } else { (h.current - damage) as u32 }, maximum: h.maximum })
}

/// What both resolvers do to the world: the occupant of
/// (`target_hex`, `target_kind`) loses `damage` current health,
/// clamped at zero; everything else is untouched.
pub open spec fn resolves_damage(
    pre: World,
    post: World,
    target_hex: Hex,
    target_kind: ObjectKind,
    damage: u32,
) -> bool {
    let i = find_at(pre.entities@, target_hex, target_kind)->0;
    &&& post.entities@ == pre.entities@.update(
        i,
        with_health(pre.entities@[i], damaged_health(pre.entities@[i].spec_health(), damage)),
    )
    &&& post.me == pre.me
}

/// Subtracts `damage` (clamped at 0) from the health of the occupant
/// of (`target_hex`, `target_kind`). The caller has just located the
/// target, so its absence is a hard precondition failure, not a
/// recoverable error.
fn apply_clamped_damage(world: &mut World, target_hex: Hex, target_kind: ObjectKind, damage: u32)
    requires
        old(world).wf(),
        find_at(old(world).entities@, target_hex, target_kind) is Some,
        target_kind != ObjectKind::Terrain,
    ensures
        resolves_damage(*old(world), *final(world), target_hex, target_kind, damage),
        final(world).wf(),
        same_but_healths(old(world).entities@, final(world).entities@),
{
    let ghost pre = *world;
    let i = match world.entity_at(target_hex, target_kind) {
        Some(i) => i,
        None => {
            proof {
                assert(false);
            }
            0
        },
    };
    proof {
        lemma_find_at_bounds(world.entities@, target_hex, target_kind, 0);
    }
    let e = world.entities.remove(i);
    let data = match e.data {
        EntityData::Unit(mut u) => {
            u.health.current = if damage > u.health.current { 0 } else { u.health.current - damage };
            EntityData::Unit(u)
        },
        EntityData::Turret(mut t) => {
            t.health.current = if damage > t.health.current { 0 } else { t.health.current - damage };
            EntityData::Turret(t)
        },
        EntityData::Factory(mut f) => {
            f.health.current = if damage > f.health.current { 0 } else { f.health.current - damage };
            EntityData::Factory(f)
        },
        EntityData::Terrain(t) => {
            proof {
                assert(false);
            }
            EntityData::Terrain(t)
        },
    };
    let new_e = Entity { hex: e.hex, data };
    world.entities.insert(i, new_e);
    proof {
        let s = pre.entities@;
        let ii = i as int;
        let target = with_health(s[ii], damaged_health(s[ii].spec_health(), damage));
        assert(world.entities@ =~= s.update(ii, target));
        lemma_wf_update(s, ii, target);
        assert forall|j: int| 0 <= j < s.len() implies same_but_health(
            #[trigger] s[j],
            #[trigger] world.entities@[j],
        ) by {}
    }
}

/// Resolves a unit's attack: applies clamped speculative damage to
/// the located target and emits the matching unit-attack intent.
pub fn attack_enemy(
    world: &mut World,
    unit_hex: Hex,
    enemy_hex: Hex,
    target_kind: ObjectKind,
    damage: u32,
    intents: &mut Intents,
)
    requires
        old(world).wf(),
        find_at(old(world).entities@, enemy_hex, target_kind) is Some,
        target_kind != ObjectKind::Terrain,
    ensures
        resolves_damage(*old(world), *final(world), enemy_hex, target_kind, damage),
        final(world).wf(),
        same_but_healths(old(world).entities@, final(world).entities@),
        final(intents).list@ == old(intents).list@.push(
            Intent::UnitAttack { attacker_hex: unit_hex, target_hex: enemy_hex, target_kind },
        ),
{
    apply_clamped_damage(world, enemy_hex, target_kind, damage);
    intents.push(Intent::UnitAttack { attacker_hex: unit_hex, target_hex: enemy_hex, target_kind });
}

/// Resolves a turret's attack: same damage application as a unit
/// attack, with a turret-attack intent.
pub fn turret_attack(
    world: &mut World,
    turret_hex: Hex,
    enemy_hex: Hex,
    target_kind: ObjectKind,
    damage: u32,
    intents: &mut Intents,
)
    requires
        old(world).wf(),
        find_at(old(world).entities@, enemy_hex, target_kind) is Some,
        target_kind != ObjectKind::Terrain,
    ensures
        resolves_damage(*old(world), *final(world), enemy_hex, target_kind, damage),
        final(world).wf(),
        same_but_healths(old(world).entities@, final(world).entities@),
        final(intents).list@ == old(intents).list@.push(
            Intent::TurretAttack { turret_hex, target_hex: enemy_hex, target_kind },
        ),
{
    apply_clamped_damage(world, enemy_hex, target_kind, damage);
    intents.push(Intent::TurretAttack { turret_hex, target_hex: enemy_hex, target_kind });
}

/// Resolves a turret's repair of a friendly target. The current
/// policy subtracts from the target's health with the same arithmetic
/// as an attack — preserved as observed behavior, flagged rather than
/// silently corrected — and emits a turret-repair intent.
pub fn turret_repair(
    world: &mut World,
    turret_hex: Hex,
    friendly_hex: Hex,
    target_kind: ObjectKind,
    damage: u32,
    intents: &mut Intents,
)
    requires
        old(world).wf(),
        find_at(old(world).entities@, friendly_hex, target_kind) is Some,
        target_kind != ObjectKind::Terrain,
    ensures
        resolves_damage(*old(world), *final(world), friendly_hex, target_kind, damage),
        final(world).wf(),
        same_but_healths(old(world).entities@, final(world).entities@),
        final(intents).list@ == old(intents).list@.push(
            Intent::TurretRepair { turret_hex, target_hex: friendly_hex, target_kind },
        ),
{
    apply_clamped_damage(world, friendly_hex, target_kind, damage);
    intents.push(Intent::TurretRepair { turret_hex, target_hex: friendly_hex, target_kind });
}

/// Speculative damage is clamped: after resolution the target's
/// current health is still within `[0, maximum]`, and it never rises.
pub proof fn lemma_resolved_health_clamped(
    pre: World,
    post: World,
    target_hex: Hex,
    target_kind: ObjectKind,
    damage: u32,
)
    requires
        pre.wf(),
        find_at(pre.entities@, target_hex, target_kind) is Some,
        target_kind != ObjectKind::Terrain,
        resolves_damage(pre, post, target_hex, target_kind, damage),
    ensures
        ({
            let i = find_at(pre.entities@, target_hex, target_kind)->0;
            let before = pre.entities@[i].spec_health();
            let after = post.entities@[i].spec_health();
            &&& 0 <= after.current <= after.maximum
            &&& after.maximum == before.maximum
            &&& after.current <= before.current
        }),
{
    lemma_find_at_bounds(pre.entities@, target_hex, target_kind, 0);
}

} // verus!
