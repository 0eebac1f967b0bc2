//! Role classification: owned units are partitioned into behavioral
//! roles by an exact match on their declared type name, and the hexes
//! they occupy are collected into per-role buckets for this tick.

use vstd::prelude::*;
use crate::hex::Hex;
use crate::world::{Entity, EntityData, PlayerId, Unit, World};

verus! {

/// The closed set of behavioral roles; unmatched names map to
/// `Unknown`, which is not an error.
#[derive(Clone, Copy, PartialEq, Eq, Structural, Debug)]
pub enum UnitRole {
    Leader,
    Attacker,
    Scout,
    Defender,
    Extractor,
    Hauler,
    Unknown,
}

/// The role a unit type name maps to.
pub open spec fn spec_role(name: Seq<char>) -> UnitRole {
    if name == "leader"@ {
        UnitRole::Leader
    } else if name == "attacker"@ {
        UnitRole::Attacker
    } else if name == "scout"@ {
        UnitRole::Scout
    } else if name == "defender"@ {
        UnitRole::Defender
    } else if name == "extractor"@ {
        UnitRole::Extractor
    } else if name == "hauler"@ {
        UnitRole::Hauler
    } else {
        UnitRole::Unknown
    }
}

/// Classifies a unit type name into exactly one role.
pub fn classify_role(name: &String) -> (r: UnitRole)
    ensures
        r == spec_role(name@),
{
    if name.eq(&String::from_str("leader")) {
        UnitRole::Leader
    } else if name.eq(&String::from_str("attacker")) {
        UnitRole::Attacker
    } else if name.eq(&String::from_str("scout")) {
        UnitRole::Scout
    } else if name.eq(&String::from_str("defender")) {
        UnitRole::Defender
    } else if name.eq(&String::from_str("extractor")) {
        UnitRole::Extractor
    } else if name.eq(&String::from_str("hauler")) {
        UnitRole::Hauler
    } else {
        UnitRole::Unknown
    }
}

/// Cross-tick bot memory: unit identifiers grouped by role, owned by
/// the bot process and handed in by the host each tick.
pub struct BotMemory {
    pub scouts: Vec<u64>,
    pub defenders: Vec<u64>,
    pub extractors: Vec<u64>,
    pub haulers: Vec<u64>,
}

impl BotMemory {
    pub fn new() -> (r: BotMemory)
        ensures
            r.scouts@ == Seq::<u64>::empty(),
            r.defenders@ == Seq::<u64>::empty(),
            r.extractors@ == Seq::<u64>::empty(),
            r.haulers@ == Seq::<u64>::empty(),
    {
        BotMemory { scouts: Vec::new(), defenders: Vec::new(), extractors: Vec::new(), haulers: Vec::new() }
    }
}

/// Per-tick scratch state: for each role, the hexes occupied by the
/// acting player's units of that role.
pub struct BotState {
    pub leader_hexes: Vec<Hex>,
    pub attacker_hexes: Vec<Hex>,
    pub scout_hexes: Vec<Hex>,
    pub defender_hexes: Vec<Hex>,
    pub extractor_hexes: Vec<Hex>,
    pub hauler_hexes: Vec<Hex>,
    pub unknown_hexes: Vec<Hex>,
}

/// The entity is a unit belonging to the acting player.
pub open spec fn is_owned_unit(e: Entity, me: PlayerId) -> bool {
    e.data matches EntityData::Unit(u) && u.owner == me
}

/// The unit payload of a unit entity.
pub open spec fn unit_of(e: Entity) -> Unit {
    match e.data {
        EntityData::Unit(u) => u,
        _ => arbitrary(),
    }
}

/// The hexes of the acting player's units whose name classifies to
/// role `r`, in world-store order.
pub open spec fn role_hexes(s: Seq<Entity>, me: PlayerId, r: UnitRole) -> Seq<Hex>
    decreases s.len(),
{
    if s.len() == 0 {
        Seq::empty()
    } else {
        let prefix = role_hexes(s.drop_last(), me, r);
        let e = s.last();
        if is_owned_unit(e, me) && spec_role(unit_of(e).name@) == r {
            prefix.push(e.hex)
        } else {
            prefix
        }
    }
}

impl BotState {
    pub open spec fn spec_bucket(self, r: UnitRole) -> Seq<Hex> {
        match r {
            UnitRole::Leader => self.leader_hexes@,
            UnitRole::Attacker => self.attacker_hexes@,
            UnitRole::Scout => self.scout_hexes@,
            UnitRole::Defender => self.defender_hexes@,
            UnitRole::Extractor => self.extractor_hexes@,
            UnitRole::Hauler => self.hauler_hexes@,
            UnitRole::Unknown => self.unknown_hexes@,
        }
    }

    pub fn new() -> (r: BotState)
        ensures
            forall|role: UnitRole| r.spec_bucket(role) == Seq::<Hex>::empty(),
    {
        BotState {
            leader_hexes: Vec::new(),
            attacker_hexes: Vec::new(),
            scout_hexes: Vec::new(),
            defender_hexes: Vec::new(),
            extractor_hexes: Vec::new(),
            hauler_hexes: Vec::new(),
            unknown_hexes: Vec::new(),
        }
    }

    /// Records one occupied hex in the bucket of `role`, leaving the
    /// other buckets unchanged.
    pub fn record_hex(&mut self, role: UnitRole, h: Hex)
        ensures
            final(self).spec_bucket(role) == old(self).spec_bucket(role).push(h),
            forall|r: UnitRole| r != role ==> final(self).spec_bucket(r) == old(self).spec_bucket(r),
    {
        match role {
            UnitRole::Leader => self.leader_hexes.push(h),
            UnitRole::Attacker => self.attacker_hexes.push(h),
            UnitRole::Scout => self.scout_hexes.push(h),
            UnitRole::Defender => self.defender_hexes.push(h),
            UnitRole::Extractor => self.extractor_hexes.push(h),
            UnitRole::Hauler => self.hauler_hexes.push(h),
            UnitRole::Unknown => self.unknown_hexes.push(h),
        }
    }
}

/// Scans the acting player's units and appends each one's hex to the
/// bucket of the single role its name classifies to.
pub fn organize_units(world: &World, bot_state: &mut BotState)
    ensures
        forall|r: UnitRole| final(bot_state).spec_bucket(r) == old(bot_state).spec_bucket(r)
            + role_hexes(world.entities@, world.me, r),
{
    let n = world.entities.len();
    let mut i: usize = 0;
    while i < n
        invariant
            n == world.entities@.len(),
            0 <= i <= n,
            forall|r: UnitRole| bot_state.spec_bucket(r) == old(bot_state).spec_bucket(r)
                + role_hexes(world.entities@.take(i as int), world.me, r),
        decreases n - i,
    {
        let ghost pre = *bot_state;
        let e = &world.entities[i];
        match &e.data {
            EntityData::Unit(u) => {
                if u.owner == world.me {
                    let role = classify_role(&u.name);
                    bot_state.record_hex(role, e.hex);
                }
            },
            _ => {},
        }
        proof {
            let s = world.entities@;
            assert(s.take(i + 1 as int).drop_last() =~= s.take(i as int));
            assert(s.take(i + 1 as int).last() == s[i as int]);
            assert forall|r: UnitRole| bot_state.spec_bucket(r) == old(bot_state).spec_bucket(r)
                + role_hexes(s.take(i + 1 as int), world.me, r) by {
                assert(role_hexes(s.take(i + 1 as int), world.me, r) == (
                    if is_owned_unit(s[i as int], world.me)
                        && spec_role(unit_of(s[i as int]).name@) == r {
                    role_hexes(s.take(i as int), world.me, r).push(s[i as int].hex)
                } else {
                    role_hexes(s.take(i as int), world.me, r)
                }));
            }
        }
        i = i + 1;
    }
    proof {
        assert(world.entities@.take(n as int) =~= world.entities@);
    }
}

/// An owned unit's hex is recorded in the bucket of its role.
pub proof fn lemma_role_hexes_contains(s: Seq<Entity>, me: PlayerId, i: int)
    requires
        0 <= i < s.len(),
        is_owned_unit(s[i], me),
    ensures
        role_hexes(s, me, spec_role(unit_of(s[i]).name@)).contains(s[i].hex),
    decreases s.len(),
{
    let r0 = spec_role(unit_of(s[i]).name@);
    let b = role_hexes(s, me, r0);
    if i == s.len() - 1 {
        assert(b.last() == s[i].hex);
        assert(b[b.len() - 1] == s[i].hex);
    } else {
        lemma_role_hexes_contains(s.drop_last(), me, i);
        assert(s.drop_last()[i] == s[i]);
        let p = role_hexes(s.drop_last(), me, r0);
        let j = choose|j: int| 0 <= j < p.len() && p[j] == s[i].hex;
        assert(b[j] == s[i].hex);
    }
}

/// A unit stands in no bucket other than that of its own role: under
/// the world invariant, classification is a partition of the owned
/// units' hexes.
pub proof fn lemma_role_buckets_exclusive(w: World, i: int, r: UnitRole)
    requires
        w.wf(),
        0 <= i < w.entities@.len(),
        is_owned_unit(w.entities@[i], w.me),
        r != spec_role(unit_of(w.entities@[i]).name@),
    ensures
        !role_hexes(w.entities@, w.me, r).contains(w.entities@[i].hex),
{
    let s = w.entities@;
    let h = s[i].hex;
    let b = role_hexes(s, w.me, r);
    if b.contains(h) {
        let j = choose|j: int| 0 <= j < b.len() && b[j] == h;
        lemma_role_hexes_source(s, w.me, r, j);
        let k = choose|k: int| 0 <= k < s.len() && is_owned_unit(#[trigger] s[k], w.me)
            && spec_role(unit_of(s[k]).name@) == r && s[k].hex == b[j];
        assert(s[k].spec_kind() == s[i].spec_kind());
        assert(k == i);
        assert(false);
    }
}

/// Each recorded hex comes from some owned unit of that role.
proof fn lemma_role_hexes_source(s: Seq<Entity>, me: PlayerId, r: UnitRole, j: int)
    requires
        0 <= j < role_hexes(s, me, r).len(),
    ensures
        exists|k: int| 0 <= k < s.len() && is_owned_unit(#[trigger] s[k], me)
            && spec_role(unit_of(s[k]).name@) == r && s[k].hex == role_hexes(s, me, r)[j],
    decreases s.len(),
{
    let e = s.last();
    if is_owned_unit(e, me) && spec_role(unit_of(e).name@) == r
        && j == role_hexes(s, me, r).len() - 1 {
        assert(role_hexes(s, me, r)[j] == e.hex);
        assert(s[s.len() - 1] == e);
    } else {
        lemma_role_hexes_source(s.drop_last(), me, r, j);
        let k = choose|k: int| 0 <= k < s.drop_last().len()
            && is_owned_unit(#[trigger] s.drop_last()[k], me)
            && spec_role(unit_of(s.drop_last()[k]).name@) == r
            && s.drop_last()[k].hex == role_hexes(s.drop_last(), me, r)[j];
        assert(s.drop_last()[k] == s[k]);
    }
}

} // verus!
