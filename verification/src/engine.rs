//! Per-tick engine sweeps over the world store: the low-level attack
//! primitive, unit aging, energy generation, economic refill and the
//! zero-health lifecycle cleanup.

use vstd::prelude::*;
use crate::hex::{Hex, hex_calc_ok, hex_dist, hex_distance};
use crate::components::{Energy, Health, ResourceKind, Storage, UnitBody, energy_ok, health_ok};
use crate::combat::damaged_health;
use crate::world::{
    Entity, EntityData, ObjectKind, Unit, World, entities_wf, entity_ok, lemma_wf_update,
};

verus! {

/// A validated attack action, as the engine receives it.
#[derive(Clone, Copy, PartialEq, Eq, Structural, Debug)]
pub struct UnitAttackAction {
    pub attacker_hex: Hex,
    pub target_hex: Hex,
    pub target_kind: ObjectKind,
    pub cost: u32,
    pub damage: u32,
}

/// The general attack rules: before any effect, the attacker must
/// afford the energy cost, must not share the target's hex, and must
/// have the target within range. Any violated precondition makes the
/// whole attack a no-op; on success the energy cost is deducted and
/// clamped damage is applied, all-or-nothing.
pub fn attack(
    attacker_hex: Hex,
    attacker_body: &UnitBody,
    attacker_energy: &mut Energy,
    target_hex: Hex,
    target_health: &mut Health,
)
    requires
        hex_calc_ok(attacker_hex),
        hex_calc_ok(target_hex),
        energy_ok(*attacker_energy),
        health_ok(*target_health),
    ensures
        ({
            let refused = old(attacker_energy).current < attacker_body.spec_attack_cost()
                || attacker_hex == target_hex
                || hex_dist(attacker_hex, target_hex) > attacker_body.spec_range();
            if refused {
                *final(attacker_energy) == *old(attacker_energy) && *final(target_health) == *old(
                    target_health,
                )
            } else {
                *final(target_health) == damaged_health(
                    *old(target_health),
                    attacker_body.spec_damage(),
                ) && *final(attacker_energy) == (Energy {
                    current: (old(attacker_energy).current - attacker_body.spec_attack_cost()) as u32,
                    capacity: old(attacker_energy).capacity,
                })
            }
        }),
        energy_ok(*final(attacker_energy)),
        health_ok(*final(target_health)),
{
    let cost = attacker_body.attack_cost();
    if attacker_energy.current < cost {
        return ;
    }
    if attacker_hex == target_hex {
        return ;
    }
    let distance = hex_distance(attacker_hex, target_hex);
    if distance > attacker_body.range() {
        return ;
    }
    let damage = attacker_body.damage();
    if damage > target_health.current {
        target_health.current = 0;
    } else {
        target_health.current = target_health.current - damage;
    }
    attacker_energy.current = attacker_energy.current - cost;
}

/// Whether the engine would accept the attack; the current rules
/// accept everything here and validate inside `attack` itself.
pub fn can_attack(world: &World, intent: &UnitAttackAction) -> (r: bool)
    ensures
        r == true,
{
    true
}

/// Applies a batch of validated attack actions. The application sweep
/// is not implemented yet: the world is left untouched.
pub fn attack_intents(world: &mut World, actions: &Vec<UnitAttackAction>)
    ensures
        final(world).entities@ == old(world).entities@,
        final(world).me == old(world).me,
{
}

/// The age an entity reaches this tick: units age by one, plus one
/// per hundred units of uranium carried; others are untouched.
pub open spec fn aged_entity(e: Entity) -> Entity {
    match e.data {
        EntityData::Unit(u) => {
            let grown = u.body.age + 1 + u.storage.uranium as int / 100;
            let new_age: u32 = if grown > u32::MAX { u32::MAX } else { grown as u32 };
            Entity {
                hex: e.hex,
                data: EntityData::Unit(Unit { body: UnitBody { age: new_age, ..u.body }, ..u }),
            }
        },
        _ => e,
    }
}

/// Ages every unit: one tick plus one per hundred uranium carried
/// (saturating at the counter's ceiling).
pub fn age_units(world: &mut World)
    requires
        old(world).wf(),
    ensures
        final(world).entities@.len() == old(world).entities@.len(),
        forall|i: int| 0 <= i < old(world).entities@.len() ==> final(world).entities@[i]
            == aged_entity(#[trigger] old(world).entities@[i]),
        final(world).me == old(world).me,
        final(world).wf(),
{
    let ghost orig = world.entities@;
    let n = world.entities.len();
    let mut i: usize = 0;
    while i < n
        invariant
            world.wf(),
            n == world.entities@.len(),
            n == orig.len(),
            world.me == old(world).me,
            0 <= i <= n,
            forall|k: int| 0 <= k < i ==> world.entities@[k] == aged_entity(#[trigger] orig[k]),
            forall|k: int| i <= k < n ==> world.entities@[k] == #[trigger] orig[k],
        decreases n - i,
    {
        let ghost pre = world.entities@;
        let is_unit = match &world.entities[i].data {
            EntityData::Unit(_) => true,
            _ => false,
        };
        if is_unit {
            let e = world.entities.remove(i);
            let data = match e.data {
                EntityData::Unit(mut u) => {
                    let inc: u32 = 1 + u.storage.uranium / 100;
                    u.body.age = if u.body.age > u32::MAX - inc {
                        u32::MAX
                    } else {
                        u.body.age + inc
                    };
                    EntityData::Unit(u)
                },
                other => other,
            };
            let new_e = Entity { hex: e.hex, data };
            world.entities.insert(i, new_e);
            proof {
                assert(world.entities@ =~= pre.update(i as int, aged_entity(orig[i as int])));
                lemma_wf_update(pre, i as int, aged_entity(orig[i as int]));
            }
        }
        i = i + 1;
    }
}

/// The energy an entity holds after generation: units gain their
/// body's energy income, clamped to the body's energy capacity;
/// others are untouched.
pub open spec fn energized_entity(e: Entity) -> Entity {
    match e.data {
        EntityData::Unit(u) => {
            let gained = u.energy.current + u.body.spec_energy_income();
            let cap = u.body.spec_energy_capacity();
            let new_cur: u32 = if gained > cap { cap as u32 } else { gained as u32 };
            Entity {
                hex: e.hex,
                data: EntityData::Unit(Unit { energy: Energy { current: new_cur, ..u.energy }, ..u }),
            }
        },
        _ => e,
    }
}

/// Adds each unit's per-tick energy income to its current energy,
/// clamped to the capacity its body derives.
pub fn units_generate_energy(world: &mut World)
    requires
        old(world).wf(),
    ensures
        final(world).entities@.len() == old(world).entities@.len(),
        forall|i: int| 0 <= i < old(world).entities@.len() ==> final(world).entities@[i]
            == energized_entity(#[trigger] old(world).entities@[i]),
        final(world).me == old(world).me,
        final(world).wf(),
{
    let ghost orig = world.entities@;
    let n = world.entities.len();
    let mut i: usize = 0;
    while i < n
        invariant
            world.wf(),
            n == world.entities@.len(),
            n == orig.len(),
            world.me == old(world).me,
            0 <= i <= n,
            forall|k: int| 0 <= k < i ==> world.entities@[k] == energized_entity(#[trigger] orig[k]),
            forall|k: int| i <= k < n ==> world.entities@[k] == #[trigger] orig[k],
        decreases n - i,
    {
        let ghost pre = world.entities@;
        let is_unit = match &world.entities[i].data {
            EntityData::Unit(_) => true,
            _ => false,
        };
        if is_unit {
            proof {
                assert(entity_ok(orig[i as int]));
            }
            let e = world.entities.remove(i);
            let data = match e.data {
                EntityData::Unit(mut u) => {
                    let cap = u.body.energy_capacity();
                    let gained: u64 = u.energy.current as u64 + u.body.energy_income() as u64;
                    u.energy.current = if gained > cap as u64 { cap } else { gained as u32 };
                    EntityData::Unit(u)
                },
                other => other,
            };
            let new_e = Entity { hex: e.hex, data };
            world.entities.insert(i, new_e);
            proof {
                assert(world.entities@ =~= pre.update(i as int, energized_entity(orig[i as int])));
                lemma_wf_update(pre, i as int, energized_entity(orig[i as int]));
            }
        }
        i = i + 1;
    }
}

/// Aging-based removal is not active: the sweep inspects unit bodies
/// and removes nothing.
pub fn delete_old_units(world: &mut World)
    ensures
        final(world).entities@ == old(world).entities@,
        final(world).me == old(world).me,
{
}

/// An entity survives the lifecycle cleanup: either it has no health
/// component, or its current health is positive.
pub open spec fn survives_cleanup(e: Entity) -> bool {
    !(e.spec_has_health() && e.spec_health().current == 0)
}

/// Removes every entity whose current health has reached zero; an
/// entity is removed if and only if its health is zero when the sweep
/// runs, and each removal fires exactly once (the survivors appear
/// unchanged, in order, once each).
pub fn delete_0_health(world: &mut World)
    requires
        old(world).wf(),
    ensures
        final(world).entities@ == cleaned(old(world).entities@),
        final(world).me == old(world).me,
        final(world).wf(),
{
    let ghost orig = world.entities@;
    let ghost pred = |e: Entity| survives_cleanup(e);
    let mut i: usize = 0;
    let ghost j: int = 0;
    while i < world.entities.len()
        invariant
            world.me == old(world).me,
            0 <= j <= orig.len(),
            i as int == orig.take(j).filter(pred).len(),
            world.entities@ == orig.take(j).filter(pred) + orig.skip(j),
            pred == (|e: Entity| survives_cleanup(e)),
            entities_wf(orig),
        decreases orig.len() - j,
    {
        proof {
            broadcast use vstd::seq_lib::group_seq_properties;
            assert(orig.take(j).filter(pred).len() <= orig.take(j).len()) by {
                orig.take(j).lemma_filter_len(pred);
            }
            assert(world.entities@.len() == i + orig.len() - j);
            assert(world.entities@[i as int] == orig.skip(j)[0]);
            assert(orig.skip(j)[0] == orig[j]);
        }
        let remove = match &world.entities[i].data {
            EntityData::Unit(u) => u.health.current == 0,
            EntityData::Turret(t) => t.health.current == 0,
            EntityData::Factory(f) => f.health.current == 0,
            EntityData::Terrain(_) => false,
        };
        proof {
            assert(remove == !pred(orig[j]));
            assert(orig.take(j + 1).drop_last() =~= orig.take(j));
            assert(orig.take(j + 1).last() == orig[j]);
            reveal_with_fuel(Seq::filter, 2);
            assert(orig.take(j + 1).filter(pred) == (if pred(orig[j]) {
                orig.take(j).filter(pred).push(orig[j])
            } else {
                orig.take(j).filter(pred)
            }));
        }
        if remove {
            let ghost pre = world.entities@;
            world.entities.remove(i);
            proof {
                assert(world.entities@ =~= orig.take(j + 1).filter(pred) + orig.skip(j + 1));
            }
        } else {
            proof {
                assert(world.entities@ =~= orig.take(j + 1).filter(pred) + orig.skip(j + 1));
            }
            i = i + 1;
        }
        proof {
            j = j + 1;
        }
    }
    proof {
        assert(orig.skip(orig.len() as int) =~= Seq::<Entity>::empty());
        assert(orig.take(orig.len() as int) =~= orig);
        assert(world.entities@ =~= orig.filter(pred));
        lemma_wf_filter(orig, pred);
    }
}

/// The store after the lifecycle cleanup: exactly the survivors, in
/// order.
pub open spec fn cleaned(s: Seq<Entity>) -> Seq<Entity> {
    s.filter(|e: Entity| survives_cleanup(e))
}

/// Cleanup removes an entity exactly when its current health is zero:
/// no zero-health entity survives the sweep, every other entity does,
/// and a removal cannot fire twice because survivors appear once
/// each, unchanged and in order (the result is exactly the filtered
/// store).
pub proof fn lemma_cleanup_iff(s: Seq<Entity>)
    ensures
        forall|j: int| 0 <= j < cleaned(s).len()
            ==> survives_cleanup(#[trigger] cleaned(s)[j]),
        forall|i: int| 0 <= i < s.len() && survives_cleanup(#[trigger] s[i])
            ==> cleaned(s).contains(s[i]),
{
    let pred = |e: Entity| survives_cleanup(e);
    assert forall|j: int| 0 <= j < s.filter(pred).len() implies survives_cleanup(
        #[trigger] s.filter(pred)[j],
    ) by {
        s.lemma_filter_pred(pred, j);
    }
    assert forall|i: int| 0 <= i < s.len() && survives_cleanup(#[trigger] s[i]) implies s.filter(
        pred,
    ).contains(s[i]) by {
        s.lemma_filter_contains(pred, i);
    }
}

/// Every element a filter keeps is one of the source elements.
proof fn lemma_filter_elem_src(s: Seq<Entity>, pred: spec_fn(Entity) -> bool, k: int)
    requires
        0 <= k < s.filter(pred).len(),
    ensures
        exists|a: int| 0 <= a < s.len() && #[trigger] s[a] == s.filter(pred)[k],
    decreases s.len(),
{
    reveal_with_fuel(Seq::filter, 2);
    if s.len() > 0 {
        let t = s.drop_last();
        if pred(s.last()) && k == s.filter(pred).len() - 1 {
            assert(s[s.len() - 1] == s.filter(pred)[k]);
        } else {
            lemma_filter_elem_src(t, pred, k);
            let a = choose|a: int| 0 <= a < t.len() && #[trigger] t[a] == t.filter(pred)[k];
            assert(s[a] == s.filter(pred)[k]);
        }
    }
}

/// Filtering a well-formed store keeps it well formed: survivors are
/// unchanged entities, and dropping rows cannot make two occupants
/// share a hex.
pub proof fn lemma_wf_filter(s: Seq<Entity>, pred: spec_fn(Entity) -> bool)
    requires
        entities_wf(s),
    ensures
        entities_wf(s.filter(pred)),
    decreases s.len(),
{
    reveal_with_fuel(Seq::filter, 2);
    if s.len() > 0 {
        let t = s.drop_last();
        assert(forall|a: int| 0 <= a < t.len() ==> t[a] == #[trigger] s[a]);
        assert(entities_wf(t));
        lemma_wf_filter(t, pred);
        if pred(s.last()) {
            let f = t.filter(pred);
            assert forall|a: int| 0 <= a < f.len() implies !(#[trigger] f[a].hex == s.last().hex
                && f[a].spec_kind() == s.last().spec_kind()) by {
                lemma_filter_elem_src(t, pred, a);
                let b = choose|b: int| 0 <= b < t.len() && #[trigger] t[b] == f[a];
                assert(!(s[b].hex == s[s.len() - 1].hex
                    && s[b].spec_kind() == s[s.len() - 1].spec_kind()));
            }
            assert(s.filter(pred) == f.push(s.last()));
            assert forall|a: int| 0 <= a < s.filter(pred).len() implies entity_ok(
                #[trigger] s.filter(pred)[a],
            ) by {
                if a < f.len() {
                    lemma_filter_elem_src(t, pred, a);
                    let b = choose|b: int| 0 <= b < t.len() && #[trigger] t[b] == f[a];
                } else {
                    assert(s.filter(pred)[a] == s[s.len() - 1]);
                }
            }
        }
    }
}

/// The factory storage after the economic refill: a thousand metal is
/// added when it fits, and nothing happens when it would not.
pub open spec fn refilled_entity(e: Entity) -> Entity {
    match e.data {
        EntityData::Factory(f) => {
            if f.storage.metal + f.storage.uranium + 1000 <= f.storage.capacity {
                Entity {
                    hex: e.hex,
                    data: EntityData::Factory(
                        crate::world::Factory {
                            storage: Storage { metal: (f.storage.metal + 1000) as u32, ..f.storage },
                            ..f
                        },
                    ),
                }
            } else {
                e
            }
        },
        _ => e,
    }
}

/// The per-tick economic refill: every factory tries to add a
/// thousand metal to its storage, and a full storage is simply left
/// as it is.
pub fn update(world: &mut World)
    requires
        old(world).wf(),
    ensures
        final(world).entities@.len() == old(world).entities@.len(),
        forall|i: int| 0 <= i < old(world).entities@.len() ==> final(world).entities@[i]
            == refilled_entity(#[trigger] old(world).entities@[i]),
        final(world).me == old(world).me,
        final(world).wf(),
{
    let ghost orig = world.entities@;
    let n = world.entities.len();
    let mut i: usize = 0;
    while i < n
        invariant
            world.wf(),
            n == world.entities@.len(),
            n == orig.len(),
            world.me == old(world).me,
            0 <= i <= n,
            forall|k: int| 0 <= k < i ==> world.entities@[k] == refilled_entity(#[trigger] orig[k]),
            forall|k: int| i <= k < n ==> world.entities@[k] == #[trigger] orig[k],
        decreases n - i,
    {
        let ghost pre = world.entities@;
        let is_factory = match &world.entities[i].data {
            EntityData::Factory(_) => true,
            _ => false,
        };
        if is_factory {
            proof {
                assert(entity_ok(orig[i as int]));
            }
            let e = world.entities.remove(i);
            let data = match e.data {
                EntityData::Factory(mut f) => {
                    let ghost olds = f.storage;
                    let added = f.storage.add_checked(ResourceKind::Metal, 1000);
                    proof {
                        if added is Ok {
                            assert(f.storage.spec_amount(ResourceKind::Metal)
                                == olds.spec_amount(ResourceKind::Metal) + 1000);
                            assert(f.storage.spec_amount(ResourceKind::Uranium)
                                == olds.spec_amount(ResourceKind::Uranium));
                        }
                    }
                    EntityData::Factory(f)
                },
                other => other,
            };
            let new_e = Entity { hex: e.hex, data };
            world.entities.insert(i, new_e);
            proof {
                assert(world.entities@ =~= pre.update(i as int, refilled_entity(orig[i as int])));
                lemma_wf_update(pre, i as int, refilled_entity(orig[i as int]));
            }
        }
        i = i + 1;
    }
}

} // verus!
