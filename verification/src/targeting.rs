//! Target acquisition: range queries for live units around a hex and
//! the whole-map closest-enemy scan. These are pure reads; they never
//! mutate world state.

use vstd::prelude::*;
use crate::hex::{Hex, hex_ok, hex_calc_ok, hex_dist};
use crate::hexgrid::{MAX_RANGE, hexagon_seq, hexagon_hexes, lemma_hexagon_rows_elems};
use crate::world::{
    Entity, EntityData, ObjectKind, PlayerId, World, entity_ok, find_at, lemma_find_at_bounds,
};
use crate::roles::unit_of;

verus! {

/// The entity is a unit not belonging to the acting player.
pub open spec fn is_enemy_unit(e: Entity, me: PlayerId) -> bool {
    e.data matches EntityData::Unit(u) && u.owner != me
}

/// The hexes of all enemy units, in world-store order.
pub open spec fn enemy_unit_hexes(s: Seq<Entity>, me: PlayerId) -> Seq<Hex>
    decreases s.len(),
{
    if s.len() == 0 {
        Seq::empty()
    } else {
        let prefix = enemy_unit_hexes(s.drop_last(), me);
        if is_enemy_unit(s.last(), me) {
            prefix.push(s.last().hex)
        } else {
            prefix
        }
    }
}

/// Collects the hexes occupied by units of other players, used as the
/// discouraged-cost set for pathfinding.
pub fn find_enemy_hexes(world: &World) -> (r: Vec<Hex>)
    ensures
        r@ == enemy_unit_hexes(world.entities@, world.me),
{
    let mut r: Vec<Hex> = Vec::new();
    let n = world.entities.len();
    let mut i: usize = 0;
    while i < n
        invariant
            n == world.entities@.len(),
            0 <= i <= n,
            r@ == enemy_unit_hexes(world.entities@.take(i as int), world.me),
        decreases n - i,
    {
        let e = &world.entities[i];
        match &e.data {
            EntityData::Unit(u) => {
                if u.owner != world.me {
                    r.push(e.hex);
                }
            },
            _ => {},
        }
        proof {
            let s = world.entities@;
            assert(s.take(i + 1 as int).drop_last() =~= s.take(i as int));
            assert(s.take(i + 1 as int).last() == s[i as int]);
        }
        i = i + 1;
    }
    proof {
        assert(world.entities@.take(n as int) =~= world.entities@);
    }
    r
}

/// There are no enemy-unit hexes exactly when no entity is an enemy
/// unit.
pub proof fn lemma_enemy_hexes_empty(s: Seq<Entity>, me: PlayerId)
    ensures
        enemy_unit_hexes(s, me).len() == 0 <==> forall|i: int|
            0 <= i < s.len() ==> !is_enemy_unit(#[trigger] s[i], me),
    decreases s.len(),
{
    if s.len() > 0 {
        let t = s.drop_last();
        lemma_enemy_hexes_empty(t, me);
        assert forall|i: int| 0 <= i < s.len() - 1 implies #[trigger] s[i] == t[i] by {}
        if enemy_unit_hexes(s, me).len() == 0 {
            assert(!is_enemy_unit(s.last(), me));
            assert(enemy_unit_hexes(t, me).len() == 0);
            assert forall|i: int| 0 <= i < s.len() implies !is_enemy_unit(
                #[trigger] s[i],
                me,
            ) by {
                if i < s.len() - 1 {
                    assert(!is_enemy_unit(t[i], me));
                } else {
                    assert(s[i] == s.last());
                }
            }
        }
        if forall|i: int| 0 <= i < s.len() ==> !is_enemy_unit(#[trigger] s[i], me) {
            assert forall|i: int| 0 <= i < t.len() implies !is_enemy_unit(
                #[trigger] t[i],
                me,
            ) by {
                assert(t[i] == s[i]);
            }
            assert(!is_enemy_unit(s[s.len() - 1], me));
            assert(enemy_unit_hexes(t, me).len() == 0);
        }
    }
}

/// The running best of the closest-enemy scan over a store prefix:
/// the hex of the first enemy unit strictly closer than everything
/// before it, together with its distance (which starts at `u32::MAX`,
/// so any enemy in a bounded world beats it).
pub open spec fn closest_scan(s: Seq<Entity>, me: PlayerId, around: Hex) -> (Option<Hex>, int)
    decreases s.len(),
{
    if s.len() == 0 {
        (None, u32::MAX as int)
    } else {
        let (best, lowest) = closest_scan(s.drop_last(), me, around);
        let e = s.last();
        if is_enemy_unit(e, me) && hex_dist(around, e.hex) < lowest {
            (Some(e.hex), hex_dist(around, e.hex))
        } else {
            (best, lowest)
        }
    }
}

/// Full scan of all enemy units, keeping the first one found at the
/// minimum hex distance (strict improvement only, so ties keep the
/// earliest).
pub fn find_closest_enemy_hex(world: &World, around: Hex) -> (r: Option<Hex>)
    requires
        world.wf(),
        hex_ok(around),
    ensures
        r == closest_scan(world.entities@, world.me, around).0,
{
    let mut best: Option<Hex> = None;
    let mut lowest: u32 = u32::MAX;
    let n = world.entities.len();
    let mut i: usize = 0;
    while i < n
        invariant
            world.wf(),
            hex_ok(around),
            n == world.entities@.len(),
            0 <= i <= n,
            (best, lowest as int) == closest_scan(world.entities@.take(i as int), world.me, around),
        decreases n - i,
    {
        let e = &world.entities[i];
        proof {
            let s = world.entities@;
            assert(s.take(i + 1 as int).drop_last() =~= s.take(i as int));
            assert(s.take(i + 1 as int).last() == s[i as int]);
            assert(entity_ok(world.entities@[i as int]));
        }
        match &e.data {
            EntityData::Unit(u) => {
                if u.owner != world.me {
                    let d = crate::hex::hex_distance(around, e.hex);
                    if d < lowest {
                        best = Some(e.hex);
                        lowest = d;
                    }
                }
            },
            _ => {},
        }
        i = i + 1;
    }
    proof {
        assert(world.entities@.take(n as int) =~= world.entities@);
    }
    best
}

/// The closest-enemy scan is exact: when it returns a hex, that hex
/// belongs to an enemy unit at the minimum distance, no enemy is
/// strictly closer, and among enemies at the minimum distance the
/// earliest in store order is the one returned. When it returns
/// nothing, there is no enemy unit at all.
pub proof fn lemma_closest_scan_exact(s: Seq<Entity>, me: PlayerId, around: Hex)
    ensures
        ({
            let (best, lowest) = closest_scan(s, me, around);
            match best {
                Some(h) => {
                    &&& exists|i: int| 0 <= i < s.len() && is_enemy_unit(#[trigger] s[i], me)
                        && s[i].hex == h && hex_dist(around, h) == lowest
                        && (forall|j: int| 0 <= j < i && is_enemy_unit(#[trigger] s[j], me)
                            ==> hex_dist(around, s[j].hex) > lowest)
                    &&& forall|j: int| 0 <= j < s.len() && is_enemy_unit(#[trigger] s[j], me)
                        ==> hex_dist(around, s[j].hex) >= lowest
                    &&& lowest < u32::MAX as int
                },
                None => {
                    &&& forall|j: int| 0 <= j < s.len() && is_enemy_unit(#[trigger] s[j], me)
                        ==> hex_dist(around, s[j].hex) >= u32::MAX as int
                    &&& lowest == u32::MAX as int
                },
            }
        }),
    decreases s.len(),
{
    if s.len() > 0 {
        let t = s.drop_last();
        lemma_closest_scan_exact(t, me, around);
        let (pb, pl) = closest_scan(t, me, around);
        let (best, lowest) = closest_scan(s, me, around);
        assert forall|j: int| 0 <= j < s.len() - 1 implies s[j] == #[trigger] t[j] by {}
        assert forall|j: int| 0 <= j < s.len() && is_enemy_unit(#[trigger] s[j], me)
            implies hex_dist(around, s[j].hex) >= lowest by {
            if j < s.len() - 1 {
                assert(is_enemy_unit(t[j], me));
            }
        }
        let e = s.last();
        if is_enemy_unit(e, me) && hex_dist(around, e.hex) < pl {
            let i = s.len() - 1;
            assert forall|j: int| 0 <= j < i && is_enemy_unit(#[trigger] s[j], me)
                implies hex_dist(around, s[j].hex) > lowest by {
                assert(is_enemy_unit(t[j], me));
            }
            assert(0 <= i < s.len() && is_enemy_unit(s[i], me) && s[i].hex == best->0
                && hex_dist(around, best->0) == lowest
                && (forall|j: int| 0 <= j < i && is_enemy_unit(#[trigger] s[j], me)
                    ==> hex_dist(around, s[j].hex) > lowest));
        } else {
            match pb {
                Some(h) => {
                    let i = choose|i: int| 0 <= i < t.len()
                        && is_enemy_unit(#[trigger] t[i], me)
                        && t[i].hex == h && hex_dist(around, h) == pl
                        && (forall|j: int| 0 <= j < i
                            && is_enemy_unit(#[trigger] t[j], me)
                            ==> hex_dist(around, t[j].hex) > pl);
                    assert forall|j: int| 0 <= j < i && is_enemy_unit(#[trigger] s[j], me)
                        implies hex_dist(around, s[j].hex) > lowest by {
                        assert(is_enemy_unit(t[j], me));
                    }
                    assert(0 <= i < s.len() && is_enemy_unit(s[i], me) && s[i].hex == h
                        && hex_dist(around, h) == lowest
                        && (forall|j: int| 0 <= j < i && is_enemy_unit(#[trigger] s[j], me)
                            ==> hex_dist(around, s[j].hex) > lowest));
                },
                None => {},
            }
        }
    }
}

/// A hex qualifies as a live hostile target around `around`: it is
/// within `range`, and the unit occupying it (if any) has positive
/// health and belongs to another player.
pub open spec fn in_range_target(
    s: Seq<Entity>,
    me: PlayerId,
    around: Hex,
    range: u32,
    h: Hex,
) -> bool {
    &&& hex_dist(around, h) <= range
    &&& match find_at(s, h, ObjectKind::Unit) {
        Some(i) => unit_of(s[i]).health.current > 0 && unit_of(s[i]).owner != me,
        None => false,
    }
}

/// The candidate targets around `around`: the filled hexagon of
/// radius `range`, kept to the hexes holding a live unit of another
/// player, in enumeration order.
pub open spec fn attack_targets(s: Seq<Entity>, me: PlayerId, around: Hex, range: u32) -> Seq<
    Hex,
> {
    hexagon_seq(around, range as int).filter(|h: Hex| in_range_target(s, me, around, range, h))
}

/// Enumerates the filled hexagon of radius `range` around `around`
/// (re-validated by exact distance) and keeps each hex occupied by a
/// live unit of another player, in enumeration order.
pub fn find_enemy_hexes_in_range(world: &World, around: Hex, range: u32) -> (r: Vec<Hex>)
    requires
        world.wf(),
        hex_ok(around),
        range <= MAX_RANGE,
    ensures
        r@ == attack_targets(world.entities@, world.me, around, range),
{
    hostile_hexes_in_range(world, around, range)
}

/// Same enumeration and filter as the enemy search; the current
/// policy treats non-owned units as the qualifying set here too, kept
/// for symmetry with the enemy search.
pub fn find_friendly_hexes_in_range(world: &World, around: Hex, range: u32) -> (r: Vec<Hex>)
    requires
        world.wf(),
        hex_ok(around),
        range <= MAX_RANGE,
    ensures
        r@ == attack_targets(world.entities@, world.me, around, range),
{
    hostile_hexes_in_range(world, around, range)
}

fn hostile_hexes_in_range(world: &World, around: Hex, range: u32) -> (r: Vec<Hex>)
    requires
        world.wf(),
        hex_ok(around),
        range <= MAX_RANGE,
    ensures
        r@ == hexagon_seq(around, range as int).filter(
            |h: Hex| in_range_target(world.entities@, world.me, around, range, h),
        ),
{
    let ghost pred = |h: Hex| in_range_target(world.entities@, world.me, around, range, h);
    let candidates = hexagon_hexes(around, range);
    proof {
        lemma_hexagon_rows_elems(around, range as int, range as int);
    }
    let mut r: Vec<Hex> = Vec::new();
    let n = candidates.len();
    let mut i: usize = 0;
    while i < n
        invariant
            world.wf(),
            hex_ok(around),
            range <= MAX_RANGE,
            n == candidates@.len(),
            0 <= i <= n,
            candidates@ == hexagon_seq(around, range as int),
            forall|k: int| 0 <= k < n ==> hex_calc_ok(#[trigger] candidates@[k]),
            pred == (|h: Hex| in_range_target(world.entities@, world.me, around, range, h)),
            r@ == candidates@.take(i as int).filter(pred),
        decreases n - i,
    {
        let h = candidates[i];
        let d = crate::hex::hex_distance(around, h);
        let mut keep = false;
        if d <= range {
            match world.entity_at(h, ObjectKind::Unit) {
                Some(j) => {
                    proof {
                        lemma_find_at_bounds(world.entities@, h, ObjectKind::Unit, 0);
                    }
                    let e = &world.entities[j];
                    match &e.data {
                        EntityData::Unit(u) => {
                            if u.health.current > 0 && u.owner != world.me {
                                keep = true;
                            }
                        },
                        _ => {
                            proof {
                                assert(false);
                            }
                        },
                    }
                },
                None => {},
            }
        }
        if keep {
            r.push(h);
        }
        proof {
            let s = candidates@;
            assert(s.take(i + 1 as int).drop_last() =~= s.take(i as int));
            assert(s.take(i + 1 as int).last() == s[i as int]);
            reveal_with_fuel(Seq::filter, 2);
            assert(keep == pred(s[i as int]));
            assert(s.take(i + 1 as int).filter(pred) == (if pred(s[i as int]) {
                s.take(i as int).filter(pred).push(s[i as int])
            } else {
                s.take(i as int).filter(pred)
            }));
        }
        i = i + 1;
    }
    proof {
        assert(candidates@.take(n as int) =~= candidates@);
    }
    r
}

/// The in-range search is sound and complete: a hex is among the
/// candidates exactly when it is within range and occupied by a live
/// unit of another player. In particular an entity with zero current
/// health is never among them, and none within range is missed.
pub proof fn lemma_attack_targets_exact(
    s: Seq<Entity>,
    me: PlayerId,
    around: Hex,
    range: u32,
    h: Hex,
)
    requires
        hex_ok(around),
        range <= MAX_RANGE,
    ensures
        attack_targets(s, me, around, range).contains(h) <==> in_range_target(
            s,
            me,
            around,
            range,
            h,
        ),
{
    let hs = crate::hexgrid::hexagon_seq(around, range as int);
    let pred = |x: Hex| in_range_target(s, me, around, range, x);
    let targets = attack_targets(s, me, around, range);
    if targets.contains(h) {
        let k = choose|k: int| 0 <= k < targets.len() && targets[k] == h;
        hs.lemma_filter_pred(pred, k);
    }
    if in_range_target(s, me, around, range, h) {
        crate::hexgrid::lemma_hexagon_seq_complete(around, range as int, h);
        let k = choose|k: int| 0 <= k < hs.len() && hs[k] == h;
        hs.lemma_filter_contains(pred, k);
    }
}

/// A hex kept by the in-range search always carries a unit with
/// positive health: dead units are never targets.
pub proof fn lemma_in_range_target_live(s: Seq<Entity>, me: PlayerId, around: Hex, range: u32, h: Hex)
    requires
        in_range_target(s, me, around, range, h),
    ensures
        ({
            let i = find_at(s, h, ObjectKind::Unit)->0;
            0 <= i < s.len() && unit_of(s[i]).health.current > 0 && unit_of(s[i]).owner != me
                && hex_dist(around, h) <= range
        }),
{
    lemma_find_at_bounds(s, h, ObjectKind::Unit, 0);
}

} // verus!
