//! Per-role tick logic: attackers engage and chase enemies, turrets
//! shoot or repair, factories spawn freshly composed units, and the
//! remaining roles are explicit no-op placeholders.

use vstd::prelude::*;
use crate::hex::{Hex, hex_ok, hex_dist};
use crate::components::{UnitBody, MAX_PARTS};
use crate::world::{
    Entity, EntityData, ObjectKind, PlayerId, TURRET_DAMAGE, TURRET_RANGE, World, entity_ok, find_at,
    with_health,
    lemma_find_at_bounds, lemma_find_at_same_but_health, lemma_find_at_unique,
    lemma_same_but_healths_refl, lemma_same_but_healths_trans, same_but_health, same_but_healths,
};
use crate::roles::{BotMemory, BotState, unit_of};
use crate::targeting::{
    attack_targets, enemy_unit_hexes, find_closest_enemy_hex, find_enemy_hexes_in_range,
    find_friendly_hexes_in_range, in_range_target, is_enemy_unit, closest_scan,
    lemma_closest_scan_exact, lemma_enemy_hexes_empty,
};
use crate::pathing::{move_added, move_unit};
use crate::combat::{attack_enemy, damaged_health, turret_attack, turret_repair};
use crate::intents::{Intent, Intents};

verus! {

/// Relies on rand::random: a pseudo-random value; nothing is assumed
/// about which value comes back.
#[verifier::external_body]
fn random_u32() -> u32 {
    rand::random()
}

/// The intents an attacker behavior may emit.
pub open spec fn is_attacker_intent(x: Intent) -> bool {
    x is UnitAttack || x is UnitMove
}

/// The intents a turret behavior may emit.
pub open spec fn is_turret_intent(x: Intent) -> bool {
    x is TurretAttack || x is TurretRepair
}

/// The exact effect of one attacker acting from `hex` over the store
/// `pre`: the store afterwards and the intents appended. It is a
/// function of the pre-state alone, because the path search's result
/// is named: with no owned-category unit at `hex` nothing happens;
/// with a target in range the first candidate takes clamped damage,
/// one unit-attack intent is emitted and the movement phase follows
/// over the damaged store; with none, the unit moves toward the
/// closest enemy, or idles when there is none.
pub open spec fn attacker_effect(pre: Seq<Entity>, me: PlayerId, hex: Hex) -> (Seq<Entity>, Seq<
    Intent,
>) {
    match find_at(pre, hex, ObjectKind::Unit) {
        None => (pre, Seq::<Intent>::empty()),
        Some(j) => {
            let range = unit_of(pre[j]).body.spec_range();
            let damage = unit_of(pre[j]).body.spec_damage();
            let targets = attack_targets(pre, me, hex, range);
            if targets.len() > 0 {
                let i = find_at(pre, targets[0], ObjectKind::Unit)->0;
                let post = pre.update(
                    i,
                    with_health(pre[i], damaged_health(pre[i].spec_health(), damage)),
                );
                let atk = Intent::UnitAttack {
                    attacker_hex: hex,
                    target_hex: targets[0],
                    target_kind: ObjectKind::Unit,
                };
                (post, seq![atk] + move_added(post, me, hex, targets[0], range))
            } else {
                match closest_scan(pre, me, hex).0 {
                    None => (pre, Seq::<Intent>::empty()),
                    Some(c) => (pre, move_added(pre, me, hex, c, range)),
                }
            }
        },
    }
}

/// The attacker behavior folded over a list of bucket hexes, in
/// order: each element acts on the store the previous ones left.
pub open spec fn attackers_run(pre: Seq<Entity>, me: PlayerId, hexes: Seq<Hex>) -> (Seq<Entity>, Seq<
    Intent,
>)
    decreases hexes.len(),
{
    if hexes.len() == 0 {
        (pre, Seq::<Intent>::empty())
    } else {
        let prior = attackers_run(pre, me, hexes.drop_last());
        let step = attacker_effect(prior.0, me, hexes.last());
        (step.0, prior.1 + step.1)
    }
}

/// What one attacker does, stated exactly over the pre-state: with
/// no owned unit at `hex`, nothing happens. With a unit there whose
/// body gives its damage and range, the first candidate of the
/// in-range target list takes clamped speculative damage and a
/// unit-attack intent is emitted, followed (only when the target is
/// out of range, and only when the path search finds a way) by one
/// admitted single-step move intent. With no candidate in range the
/// world is untouched and the unit moves one admitted step toward the
/// closest enemy on the map, or idles when there is none.
pub fn attacker_act(world: &mut World, hex: Hex, intents: &mut Intents)
    requires
        old(world).wf(),
    ensures
        final(world).wf(),
        final(world).me == old(world).me,
        same_but_healths(old(world).entities@, final(world).entities@),
        old(intents).list@.is_prefix_of(final(intents).list@),
        forall|k: int| old(intents).list@.len() <= k < final(intents).list@.len()
            ==> is_attacker_intent(#[trigger] final(intents).list@[k]),
        final(world).entities@ == attacker_effect(
            old(world).entities@,
            old(world).me,
            hex,
        ).0,
        final(intents).list@ == old(intents).list@ + attacker_effect(
            old(world).entities@,
            old(world).me,
            hex,
        ).1,
{
    let ghost loop_entities = world.entities@;
    proof {
        lemma_same_but_healths_refl(old(world).entities@);
    }
    if let Some(j) = world.entity_at(hex, ObjectKind::Unit) {
        proof {
            lemma_find_at_bounds(world.entities@, hex, ObjectKind::Unit, 0);
            assert(entity_ok(world.entities@[j as int]));
        }
        let unit_hex = world.entities[j].hex;
        let (damage, range) = match &world.entities[j].data {
            EntityData::Unit(u) => (u.body.damage(), u.body.range()),
            _ => {
                proof {
                    assert(false);
                }
                (0, 0)
            },
        };
        proof {
            assert(range <= MAX_PARTS);
        }
        let nearby = find_enemy_hexes_in_range(world, hex, range);
        if nearby.len() > 0 {
            let enemy_hex = nearby[0];
            proof {
                hexagon_target_facts(world, hex, range, nearby@, 0);
                lemma_nonempty_enemies(*world, *old(world), enemy_hex, range, hex);
            }
            attack_enemy(world, unit_hex, enemy_hex, ObjectKind::Unit, damage, intents);
            proof {
                lemma_same_but_healths_trans(old(world).entities@, loop_entities, world.entities@);
            }
            move_unit(world, hex, enemy_hex, range, intents);
            proof {
                let eff = attacker_effect(old(world).entities@, old(world).me, hex);
                assert(world.entities@ == eff.0);
                assert(intents.list@ =~= old(intents).list@ + eff.1);
            }
        } else {
            match find_closest_enemy_hex(world, hex) {
                Some(enemy_hex) => {
                    proof {
                        lemma_closest_scan_exact(world.entities@, world.me, hex);
                        let s = world.entities@;
                        let ii = choose|ii: int| 0 <= ii < s.len()
                            && is_enemy_unit(#[trigger] s[ii], world.me)
                            && s[ii].hex == enemy_hex
                            && hex_dist(hex, enemy_hex) == closest_scan(s, world.me, hex).1
                            && (forall|jj: int| 0 <= jj < ii
                                && is_enemy_unit(#[trigger] s[jj], world.me)
                                ==> hex_dist(hex, s[jj].hex) > closest_scan(s, world.me, hex).1);
                        assert(entity_ok(s[ii]));
                    }
                    move_unit(world, hex, enemy_hex, range, intents);
                    proof {
                        let eff = attacker_effect(old(world).entities@, old(world).me, hex);
                        assert(world.entities@ == eff.0);
                        assert(intents.list@ =~= old(intents).list@ + eff.1);
                    }
                },
                None => {
                    proof {
                        let eff = attacker_effect(old(world).entities@, old(world).me, hex);
                        assert(intents.list@ =~= old(intents).list@ + eff.1);
                    }
                },
            }
        }
    } else {
        proof {
            let eff = attacker_effect(old(world).entities@, old(world).me, hex);
            assert(intents.list@ =~= old(intents).list@ + eff.1);
        }
    }
}

/// For each hex in the attacker bucket, runs the attacker behavior:
/// engage the first live hostile in range (resolving speculative
/// damage and still closing distance), otherwise move toward the
/// closest enemy on the map, otherwise idle. Only current health
/// changes in the world, and only unit-attack and unit-move intents
/// are emitted; with no enemy unit anywhere, nothing happens at all.
pub fn attackers_attack(world: &mut World, bot_state: &BotState, intents: &mut Intents)
    requires
        old(world).wf(),
    ensures
        final(world).wf(),
        final(world).me == old(world).me,
        same_but_healths(old(world).entities@, final(world).entities@),
        old(intents).list@.is_prefix_of(final(intents).list@),
        forall|k: int| old(intents).list@.len() <= k < final(intents).list@.len()
            ==> is_attacker_intent(#[trigger] final(intents).list@[k]),
        enemy_unit_hexes(old(world).entities@, old(world).me).len() == 0
            ==> final(world).entities@ == old(world).entities@
            && final(intents).list@ == old(intents).list@,
        ({
            let r = attackers_run(old(world).entities@, old(world).me, bot_state.attacker_hexes@);
            final(world).entities@ == r.0 && final(intents).list@ == old(intents).list@ + r.1
        }),
{
    proof {
        lemma_same_but_healths_refl(old(world).entities@);
        assert(old(intents).list@ + attackers_run(
            old(world).entities@,
            old(world).me,
            bot_state.attacker_hexes@.take(0),
        ).1 =~= old(intents).list@);
    }
    let n = bot_state.attacker_hexes.len();
    let mut i: usize = 0;
    while i < n
        invariant
            n == bot_state.attacker_hexes@.len(),
            0 <= i <= n,
            world.wf(),
            world.me == old(world).me,
            same_but_healths(old(world).entities@, world.entities@),
            old(intents).list@.is_prefix_of(intents.list@),
            forall|k: int| old(intents).list@.len() <= k < intents.list@.len()
                ==> is_attacker_intent(#[trigger] intents.list@[k]),
            enemy_unit_hexes(old(world).entities@, old(world).me).len() == 0
                ==> world.entities@ == old(world).entities@
                && intents.list@ == old(intents).list@,
            ({
                let r = attackers_run(
                    old(world).entities@,
                    old(world).me,
                    bot_state.attacker_hexes@.take(i as int),
                );
                world.entities@ == r.0 && intents.list@ == old(intents).list@ + r.1
            }),
        decreases n - i,
    {
        let ghost loop_entities = world.entities@;
        let ghost loop_intents = intents.list@;
        let hex = bot_state.attacker_hexes[i];
        attacker_act(world, hex, intents);
        proof {
            lemma_same_but_healths_trans(old(world).entities@, loop_entities, world.entities@);
            let hexes = bot_state.attacker_hexes@;
            assert(hexes.take(i + 1 as int).drop_last() =~= hexes.take(i as int));
            assert(hexes.take(i + 1 as int).last() == hexes[i as int]);
            let prior = attackers_run(old(world).entities@, old(world).me, hexes.take(i as int));
            let step = attacker_effect(prior.0, old(world).me, hex);
            assert(world.entities@ == step.0);
            assert(intents.list@ =~= old(intents).list@ + (prior.1 + step.1));
            if enemy_unit_hexes(old(world).entities@, old(world).me).len() == 0 {
                lemma_enemy_hexes_empty(loop_entities, old(world).me);
                lemma_no_enemy_no_action(loop_entities, old(world).me, hex);
                assert(intents.list@ =~= loop_intents + Seq::<Intent>::empty());
            }
        }
        i = i + 1;
    }
    proof {
        assert(bot_state.attacker_hexes@.take(n as int) =~= bot_state.attacker_hexes@);
    }
}

/// With no enemy unit anywhere, the attacker behavior has no target
/// in range and no closest enemy, so its exact contract collapses to
/// a no-op.
proof fn lemma_no_enemy_no_action(s: Seq<Entity>, me: PlayerId, hex: Hex)
    requires
        forall|i: int| 0 <= i < s.len() ==> !is_enemy_unit(#[trigger] s[i], me),
    ensures
        forall|range: u32| #[trigger] attack_targets(s, me, hex, range).len() == 0,
        closest_scan(s, me, hex).0 is None,
{
    assert forall|range: u32| #[trigger] attack_targets(s, me, hex, range).len() == 0 by {
        let targets = attack_targets(s, me, hex, range);
        if targets.len() > 0 {
            crate::hexgrid::hexagon_seq(hex, range as int).lemma_filter_pred(
                |h: Hex| in_range_target(s, me, hex, range, h),
                0,
            );
            lemma_find_at_bounds(s, targets[0], ObjectKind::Unit, 0);
            let i = find_at(s, targets[0], ObjectKind::Unit)->0;
            assert(is_enemy_unit(s[i], me));
            assert(false);
        }
    }
    lemma_closest_scan_exact(s, me, hex);
    if closest_scan(s, me, hex).0 is Some {
        let h = closest_scan(s, me, hex).0->0;
        let i = choose|i: int| 0 <= i < s.len() && is_enemy_unit(#[trigger] s[i], me)
            && s[i].hex == h && hex_dist(hex, h) == closest_scan(s, me, hex).1
            && (forall|j: int| 0 <= j < i && is_enemy_unit(#[trigger] s[j], me)
                ==> hex_dist(hex, s[j].hex) > closest_scan(s, me, hex).1);
        assert(false);
    }
}

/// In-range candidates exist only when an enemy unit exists: ties the
/// filter element back to a live hostile occupant and to the
/// non-emptiness of the enemy set in the pre-state.
proof fn lemma_nonempty_enemies(w: World, w0: World, enemy_hex: Hex, range: u32, around: Hex)
    requires
        w.wf(),
        same_but_healths(w0.entities@, w.entities@),
        w.me == w0.me,
        in_range_target(w.entities@, w.me, around, range, enemy_hex),
    ensures
        find_at(w.entities@, enemy_hex, ObjectKind::Unit) is Some,
        hex_ok(enemy_hex),
        enemy_unit_hexes(w0.entities@, w0.me).len() > 0,
{
    lemma_find_at_bounds(w.entities@, enemy_hex, ObjectKind::Unit, 0);
    let i = find_at(w.entities@, enemy_hex, ObjectKind::Unit)->0;
    assert(entity_ok(w.entities@[i]));
    assert(is_enemy_unit(w.entities@[i], w.me));
    assert(same_but_health(w0.entities@[i], w.entities@[i])) by {
        assert(same_but_healths(w0.entities@, w.entities@));
    }
    assert(is_enemy_unit(w0.entities@[i], w0.me));
    lemma_enemy_hexes_empty(w0.entities@, w0.me);
}

/// The first element of an in-range search result is a qualifying
/// target.
proof fn hexagon_target_facts(w: &World, around: Hex, range: u32, r: Seq<Hex>, k: int)
    requires
        r == attack_targets(w.entities@, w.me, around, range),
        0 <= k < r.len(),
    ensures
        in_range_target(w.entities@, w.me, around, range, r[k]),
{
    crate::hexgrid::hexagon_seq(around, range as int).lemma_filter_pred(
        |h: Hex| in_range_target(w.entities@, w.me, around, range, h),
        k,
    );
}

/// The turret payload of a turret entity.
pub open spec fn turret_of(e: Entity) -> crate::world::Turret {
    match e.data {
        EntityData::Turret(t) => t,
        _ => arbitrary(),
    }
}

/// The exact effect of one turret at `hex` over the store `pre`: a
/// turret of another player (or an absent one) contributes nothing;
/// an owned turret deals its fixed damage to the first candidate of
/// its in-range target list with one turret-attack intent, and idles
/// when the list is empty (the support search filters identically, so
/// it finds nothing either).
pub open spec fn turret_effect(pre: Seq<Entity>, me: PlayerId, hex: Hex) -> (Seq<Entity>, Seq<
    Intent,
>) {
    match find_at(pre, hex, ObjectKind::Turret) {
        None => (pre, Seq::<Intent>::empty()),
        Some(j) => {
            if turret_of(pre[j]).owner != me {
                (pre, Seq::<Intent>::empty())
            } else {
                let targets = attack_targets(pre, me, hex, TURRET_RANGE);
                if targets.len() > 0 {
                    let i = find_at(pre, targets[0], ObjectKind::Unit)->0;
                    let post = pre.update(
                        i,
                        with_health(pre[i], damaged_health(pre[i].spec_health(), TURRET_DAMAGE)),
                    );
                    let atk = Intent::TurretAttack {
                        turret_hex: hex,
                        target_hex: targets[0],
                        target_kind: ObjectKind::Unit,
                    };
                    (post, seq![atk])
                } else {
                    (pre, Seq::<Intent>::empty())
                }
            }
        },
    }
}

/// The hexes of all turret entities, in world-store order.
pub open spec fn turret_hexes_of(s: Seq<Entity>) -> Seq<Hex>
    decreases s.len(),
{
    if s.len() == 0 {
        Seq::empty()
    } else {
        let prefix = turret_hexes_of(s.drop_last());
        if s.last().spec_kind() == ObjectKind::Turret {
            prefix.push(s.last().hex)
        } else {
            prefix
        }
    }
}

/// The turret behavior folded over a list of turret hexes, in order:
/// each turret acts on the store the previous ones left.
pub open spec fn turrets_run(pre: Seq<Entity>, me: PlayerId, hexes: Seq<Hex>) -> (Seq<Entity>, Seq<
    Intent,
>)
    decreases hexes.len(),
{
    if hexes.len() == 0 {
        (pre, Seq::<Intent>::empty())
    } else {
        let prior = turrets_run(pre, me, hexes.drop_last());
        let step = turret_effect(prior.0, me, hexes.last());
        (step.0, prior.1 + step.1)
    }
}

/// What one turret does, stated exactly over the pre-state: a turret
/// of another player does nothing. An owned turret attacks the first
/// candidate of its in-range target list with its fixed damage; with
/// no candidate it falls back to the support search, which filters
/// identically to the enemy search and therefore also finds nothing,
/// so the turret idles.
pub fn turret_act(world: &mut World, hex: Hex, intents: &mut Intents)
    requires
        old(world).wf(),
        find_at(old(world).entities@, hex, ObjectKind::Turret) is Some,
    ensures
        final(world).wf(),
        final(world).me == old(world).me,
        same_but_healths(old(world).entities@, final(world).entities@),
        old(intents).list@.is_prefix_of(final(intents).list@),
        forall|k: int| old(intents).list@.len() <= k < final(intents).list@.len()
            ==> is_turret_intent(#[trigger] final(intents).list@[k]),
        final(world).entities@ == turret_effect(old(world).entities@, old(world).me, hex).0,
        final(intents).list@ == old(intents).list@ + turret_effect(
            old(world).entities@,
            old(world).me,
            hex,
        ).1,
{
    proof {
        lemma_same_but_healths_refl(old(world).entities@);
        lemma_find_at_bounds(world.entities@, hex, ObjectKind::Turret, 0);
    }
    let j = match world.entity_at(hex, ObjectKind::Turret) {
        Some(j) => j,
        None => {
            proof {
                assert(false);
            }
            0
        },
    };
    proof {
        assert(entity_ok(world.entities@[j as int]));
    }
    let turret_hex = world.entities[j].hex;
    let (owner, damage, range) = match &world.entities[j].data {
        EntityData::Turret(tu) => (tu.owner, tu.damage(), tu.range()),
        _ => {
            proof {
                assert(false);
            }
            (0, 0, 0)
        },
    };
    if owner == world.me {
        let enemy_hexes = find_enemy_hexes_in_range(world, turret_hex, range);
        if enemy_hexes.len() > 0 {
            let enemy_hex = enemy_hexes[0];
            proof {
                hexagon_target_facts(world, turret_hex, range, enemy_hexes@, 0);
                lemma_find_at_bounds(world.entities@, enemy_hex, ObjectKind::Unit, 0);
            }
            turret_attack(world, turret_hex, enemy_hex, ObjectKind::Unit, damage, intents);
            proof {
                let eff = turret_effect(old(world).entities@, old(world).me, hex);
                assert(world.entities@ == eff.0);
                assert(intents.list@ =~= old(intents).list@ + eff.1);
            }
        } else {
            let friendly_hexes = find_friendly_hexes_in_range(world, turret_hex, range);
            if friendly_hexes.len() > 0 {
                let friendly_hex = friendly_hexes[0];
                proof {
                    hexagon_target_facts(world, turret_hex, range, friendly_hexes@, 0);
                    lemma_find_at_bounds(world.entities@, friendly_hex, ObjectKind::Unit, 0);
                }
                turret_repair(world, turret_hex, friendly_hex, ObjectKind::Unit, damage, intents);
            }
            proof {
                let eff = turret_effect(old(world).entities@, old(world).me, hex);
                assert(intents.list@ =~= old(intents).list@ + eff.1);
            }
        }
    } else {
        proof {
            let eff = turret_effect(old(world).entities@, old(world).me, hex);
            assert(intents.list@ =~= old(intents).list@ + eff.1);
        }
    }
}

/// For each turret on the map, runs the turret behavior for the
/// acting player: attack the first live hostile in range, otherwise
/// consult the (identically filtered) support search, otherwise idle.
/// Turrets never move; only unit health changes, and only
/// turret-attack and turret-repair intents are emitted.
pub fn turrets_shoot(world: &mut World, intents: &mut Intents)
    requires
        old(world).wf(),
    ensures
        final(world).wf(),
        final(world).me == old(world).me,
        same_but_healths(old(world).entities@, final(world).entities@),
        old(intents).list@.is_prefix_of(final(intents).list@),
        forall|k: int| old(intents).list@.len() <= k < final(intents).list@.len()
            ==> is_turret_intent(#[trigger] final(intents).list@[k]),
        ({
            let r = turrets_run(
                old(world).entities@,
                old(world).me,
                turret_hexes_of(old(world).entities@),
            );
            final(world).entities@ == r.0 && final(intents).list@ == old(intents).list@ + r.1
        }),
{
    proof {
        lemma_same_but_healths_refl(old(world).entities@);
    }
    let ghost orig = world.entities@;
    let mut turret_hexes: Vec<Hex> = Vec::new();
    let ghost mut sources: Seq<int> = Seq::empty();
    let n = world.entities.len();
    let mut i: usize = 0;
    while i < n
        invariant
            n == world.entities@.len(),
            0 <= i <= n,
            world.wf(),
            orig == world.entities@,
            sources.len() == turret_hexes@.len(),
            forall|k: int| 0 <= k < turret_hexes@.len() ==> 0 <= #[trigger] sources[k] < orig.len()
                && orig[sources[k]].hex == turret_hexes@[k]
                && orig[sources[k]].spec_kind() == ObjectKind::Turret,
            turret_hexes@ == turret_hexes_of(orig.take(i as int)),
        decreases n - i,
    {
        let is_turret = match &world.entities[i].data {
            EntityData::Turret(_) => true,
            _ => false,
        };
        if is_turret {
            let h = world.entities[i].hex;
            turret_hexes.push(h);
            proof {
                sources = sources.push(i as int);
                assert(orig[i as int].hex == h && orig[i as int].spec_kind()
                    == ObjectKind::Turret);
            }
        }
        proof {
            assert(orig.take(i + 1 as int).drop_last() =~= orig.take(i as int));
            assert(orig.take(i + 1 as int).last() == orig[i as int]);
        }
        i = i + 1;
    }
    proof {
        assert(orig.take(n as int) =~= orig);
        assert(old(intents).list@ + turrets_run(
            orig,
            old(world).me,
            turret_hexes_of(orig).take(0),
        ).1 =~= old(intents).list@);
    }
    let m = turret_hexes.len();
    let mut t: usize = 0;
    while t < m
        invariant
            m == turret_hexes@.len(),
            0 <= t <= m,
            world.wf(),
            world.me == old(world).me,
            orig == old(world).entities@,
            same_but_healths(orig, world.entities@),
            crate::world::entities_wf(orig),
            sources.len() == turret_hexes@.len(),
            forall|k: int| 0 <= k < turret_hexes@.len() ==> 0 <= #[trigger] sources[k] < orig.len()
                && orig[sources[k]].hex == turret_hexes@[k]
                && orig[sources[k]].spec_kind() == ObjectKind::Turret,
            old(intents).list@.is_prefix_of(intents.list@),
            forall|k: int| old(intents).list@.len() <= k < intents.list@.len()
                ==> is_turret_intent(#[trigger] intents.list@[k]),
            turret_hexes@ == turret_hexes_of(orig),
            ({
                let r = turrets_run(orig, old(world).me, turret_hexes@.take(t as int));
                world.entities@ == r.0 && intents.list@ == old(intents).list@ + r.1
            }),
        decreases m - t,
    {
        let ghost loop_entities = world.entities@;
        let hex = turret_hexes[t];
        proof {
            let j = sources[t as int];
            lemma_find_at_unique(
                World { entities: old(world).entities, me: old(world).me },
                hex,
                ObjectKind::Turret,
                j,
            );
            lemma_find_at_same_but_health(orig, world.entities@, hex, ObjectKind::Turret, 0);
        }
        turret_act(world, hex, intents);
        proof {
            lemma_same_but_healths_trans(orig, loop_entities, world.entities@);
            let hexes = turret_hexes@;
            assert(hexes.take(t + 1 as int).drop_last() =~= hexes.take(t as int));
            assert(hexes.take(t + 1 as int).last() == hexes[t as int]);
            let prior = turrets_run(orig, old(world).me, hexes.take(t as int));
            let step = turret_effect(prior.0, old(world).me, hex);
            assert(world.entities@ == step.0);
            assert(intents.list@ =~= old(intents).list@ + (prior.1 + step.1));
        }
        t = t + 1;
    }
    proof {
        assert(turret_hexes@.take(m as int) =~= turret_hexes@);
    }
}

/// The tick's batch in phase order: the first `a` intents come from
/// attackers, the next ones up to `t` from turrets, and the rest is
/// one spawn intent per owned factory of `s`, in store order.
pub open spec fn phased_batch(list: Seq<Intent>, s: Seq<Entity>, me: PlayerId, a: int, t: int) -> bool {
    &&& 0 <= a <= t <= list.len()
    &&& forall|k: int| 0 <= k < a ==> is_attacker_intent(#[trigger] list[k])
    &&& forall|k: int| a <= k < t ==> is_turret_intent(#[trigger] list[k])
    &&& spawn_intents_ok(s, me, list.skip(t))
}

/// The entity is a factory belonging to the acting player.
pub open spec fn is_owned_factory(e: Entity, me: PlayerId) -> bool {
    e.data matches EntityData::Factory(f) && f.owner == me
}

/// The intent a factory at `e.hex` owned by `me` emits: one spawn of
/// a unit declared "attacker", with no output hex, whose composition
/// lies within the documented base-plus-jitter bounds.
pub open spec fn is_spawn_intent_for(x: Intent, e: Entity, me: PlayerId) -> bool {
    x matches Intent::FactorySpawnUnit { factory_hex, out, name, body, owner } && {
        &&& factory_hex == e.hex
        &&& out is None
        &&& name@ == "attacker"@
        &&& owner == me
        &&& 10 <= body.generate <= 17
        &&& 3 <= body.ranged <= 8
        &&& body.shield == 1
        &&& body.age == 0
    }
}

/// The owned factories of a store prefix, in order, correspond one to
/// one with the added intents.
pub open spec fn spawn_intents_ok(s: Seq<Entity>, me: PlayerId, added: Seq<Intent>) -> bool
    decreases s.len(),
{
    if s.len() == 0 {
        added.len() == 0
    } else if is_owned_factory(s.last(), me) {
        added.len() >= 1 && spawn_intents_ok(s.drop_last(), me, added.drop_last())
            && is_spawn_intent_for(added.last(), s.last(), me)
    } else {
        spawn_intents_ok(s.drop_last(), me, added)
    }
}

/// For each factory owned by the acting player, emits exactly one
/// factory-spawn intent naming a fresh "attacker" unit whose
/// composition mixes a randomized jitter over fixed bases: ten to
/// seventeen economic parts, three to eight offensive parts, one
/// defensive part.
pub fn factories_spawn_units(world: &World, intents: &mut Intents)
    ensures
        old(intents).list@.is_prefix_of(final(intents).list@),
        spawn_intents_ok(
            world.entities@,
            world.me,
            final(intents).list@.skip(old(intents).list@.len() as int),
        ),
{
    let ghost base = intents.list@.len() as int;
    let n = world.entities.len();
    let mut i: usize = 0;
    while i < n
        invariant
            n == world.entities@.len(),
            0 <= i <= n,
            base == old(intents).list@.len(),
            old(intents).list@.is_prefix_of(intents.list@),
            spawn_intents_ok(
                world.entities@.take(i as int),
                world.me,
                intents.list@.skip(base),
            ),
        decreases n - i,
    {
        let ghost pre = intents.list@;
        let e = &world.entities[i];
        let owner = match &e.data {
            EntityData::Factory(f) => Some(f.owner),
            _ => None,
        };
        match owner {
            Some(owner) => {
                if owner == world.me {
                    let bonus_generate = random_u32() % 8;
                    let bonus_ranged = random_u32() % 6;
                    let body = UnitBody::from_counts(3 + bonus_ranged, 10 + bonus_generate, 1);
                    intents.push(
                        Intent::FactorySpawnUnit {
                            factory_hex: e.hex,
                            out: None,
                            name: String::from_str("attacker"),
                            body,
                            owner,
                        },
                    );
                }
            },
            None => {},
        }
        proof {
            let s = world.entities@;
            assert(s.take(i + 1 as int).drop_last() =~= s.take(i as int));
            assert(s.take(i + 1 as int).last() == s[i as int]);
            if is_owned_factory(s[i as int], world.me) {
                assert(intents.list@.skip(base).drop_last() =~= pre.skip(base));
                assert(intents.list@.skip(base).last() == intents.list@.last());
            } else {
                assert(intents.list@.skip(base) == pre.skip(base));
            }
        }
        i = i + 1;
    }
    proof {
        assert(world.entities@.take(n as int) =~= world.entities@);
    }
}

/// Placeholder factory-need planning: reserved for choosing unit
/// types by demand; currently takes no action.
pub fn spawn_units(world: &World, memory: &mut BotMemory)
    ensures
        *final(memory) == *old(memory),
{
}

/// Scout behavior placeholder: consumes the scout bucket with no side
/// effects.
pub fn scouts_scout(world: &World, memory: &mut BotMemory)
    ensures
        *final(memory) == *old(memory),
{
    let n = memory.scouts.len();
    let mut i: usize = 0;
    while i < n
        invariant
            0 <= i <= n,
        decreases n - i,
    {
        i = i + 1;
    }
}

/// Defender behavior placeholder: consumes the defender bucket with
/// no side effects.
pub fn defenders_defend(world: &World, memory: &mut BotMemory)
    ensures
        *final(memory) == *old(memory),
{
    let n = memory.defenders.len();
    let mut i: usize = 0;
    while i < n
        invariant
            0 <= i <= n,
        decreases n - i,
    {
        i = i + 1;
    }
}

/// Extractor behavior placeholder: consumes the extractor bucket with
/// no side effects.
pub fn extractors_extract(world: &World, memory: &mut BotMemory)
    ensures
        *final(memory) == *old(memory),
{
    let n = memory.extractors.len();
    let mut i: usize = 0;
    while i < n
        invariant
            0 <= i <= n,
        decreases n - i,
    {
        i = i + 1;
    }
}

/// Hauler behavior placeholder: consumes the hauler bucket with no
/// side effects.
pub fn haulers_haul(world: &World, memory: &mut BotMemory)
    ensures
        *final(memory) == *old(memory),
{
    let n = memory.haulers.len();
    let mut i: usize = 0;
    while i < n
        invariant
            0 <= i <= n,
        decreases n - i,
    {
        i = i + 1;
    }
}

} // verus!
