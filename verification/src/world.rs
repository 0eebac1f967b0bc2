//! The bot's view of the shared world store: entities with a hex
//! position and kind-specific components, plus the spatial lookup
//! used by search and pathfinding.

use vstd::prelude::*;
use crate::hex::{Hex, hex_ok};
use crate::components::{
    Health, Energy, UnitBody, Storage, health_ok, energy_ok, body_ok, storage_ok,
};

verus! {

/// A player identifier, as handed in by the host.
pub type PlayerId = u128;

/// The object categories that can occupy a hex. At most one entity of
/// a given kind stands on any hex.
#[derive(Clone, Copy, PartialEq, Eq, Structural, Debug)]
pub enum ObjectKind {
    Unit,
    Turret,
    Factory,
    Terrain,
}

/// Terrain variants; walls and lava are impassable for pathfinding.
#[derive(Clone, Copy, PartialEq, Eq, Structural, Debug)]
pub enum TerrainKind {
    Plain,
    Wall,
    Lava,
}

/// A mobile unit: a named body of parts with health, energy and cargo.
#[derive(Clone, Debug)]
pub struct Unit {
    pub name: String,
    pub owner: PlayerId,
    pub health: Health,
    pub energy: Energy,
    pub body: UnitBody,
    pub storage: Storage,
}

/// A stationary turret with fixed combat stats.
#[derive(Clone, Copy, PartialEq, Eq, Structural, Debug)]
pub struct Turret {
    pub owner: PlayerId,
    pub health: Health,
    pub energy: Energy,
}

/// Damage a turret deals per shot.
pub const TURRET_DAMAGE: u32 = 1;

/// A turret's attack range in hexes.
pub const TURRET_RANGE: u32 = 1;

impl Turret {
    pub fn damage(&self) -> (d: u32)
        ensures
            d == TURRET_DAMAGE,
    {
        TURRET_DAMAGE
    }

    pub fn range(&self) -> (r: u32)
        ensures
            r == TURRET_RANGE,
    {
        TURRET_RANGE
    }
}

/// A structure that spawns units and stores resources.
#[derive(Clone, Copy, PartialEq, Eq, Structural, Debug)]
pub struct Factory {
    pub owner: PlayerId,
    pub health: Health,
    pub storage: Storage,
}

/// The kind-specific payload of an entity.
#[derive(Clone, Debug)]
pub enum EntityData {
    Unit(Unit),
    Turret(Turret),
    Factory(Factory),
    Terrain(TerrainKind),
}

/// One row of the world store: a position plus its components.
#[derive(Clone, Debug)]
pub struct Entity {
    pub hex: Hex,
    pub data: EntityData,
}

impl Entity {
    pub open spec fn spec_kind(self) -> ObjectKind {
        match self.data {
            EntityData::Unit(_) => ObjectKind::Unit,
            EntityData::Turret(_) => ObjectKind::Turret,
            EntityData::Factory(_) => ObjectKind::Factory,
            EntityData::Terrain(_) => ObjectKind::Terrain,
        }
    }

    pub fn kind(&self) -> (k: ObjectKind)
        ensures
            k == self.spec_kind(),
    {
        match &self.data {
            EntityData::Unit(_) => ObjectKind::Unit,
            EntityData::Turret(_) => ObjectKind::Turret,
            EntityData::Factory(_) => ObjectKind::Factory,
            EntityData::Terrain(_) => ObjectKind::Terrain,
        }
    }

    /// Whether this entity carries a health component.
    pub open spec fn spec_has_health(self) -> bool {
        !(self.data is Terrain)
    }

    /// The health component of a non-terrain entity.
    pub open spec fn spec_health(self) -> Health {
        match self.data {
            EntityData::Unit(u) => u.health,
            EntityData::Turret(t) => t.health,
            EntityData::Factory(f) => f.health,
            EntityData::Terrain(_) => arbitrary(),
        }
    }
}

/// An entity is internally consistent: position in bounds, health and
/// energy clamped, storage within capacity.
pub open spec fn entity_ok(e: Entity) -> bool {
    &&& hex_ok(e.hex)
    &&& match e.data {
        EntityData::Unit(u) => health_ok(u.health) && energy_ok(u.energy) && body_ok(u.body)
            && storage_ok(u.storage) && u.energy.capacity == u.body.spec_energy_capacity(),
        EntityData::Turret(t) => health_ok(t.health) && energy_ok(t.energy),
        EntityData::Factory(f) => health_ok(f.health) && storage_ok(f.storage),
        EntityData::Terrain(_) => true,
    }
}

/// First entity index at `h` of kind `k`, scanning from index `i`.
pub open spec fn find_at_from(s: Seq<Entity>, h: Hex, k: ObjectKind, i: int) -> Option<int>
    decreases s.len() - i,
{
    if i < 0 || i >= s.len() {
        None
    } else if s[i].hex == h && s[i].spec_kind() == k {
        Some(i)
    } else {
        find_at_from(s, h, k, i + 1)
    }
}

/// First entity index at `h` of kind `k`, if any.
pub open spec fn find_at(s: Seq<Entity>, h: Hex, k: ObjectKind) -> Option<int> {
    find_at_from(s, h, k, 0)
}

/// The world snapshot held for one tick, together with the acting
/// player's identity.
pub struct World {
    pub entities: Vec<Entity>,
    pub me: PlayerId,
}

/// Every entity is consistent and no two entities of the same kind
/// share a hex: the spatial index has at most one occupant per
/// (hex, kind).
pub open spec fn entities_wf(s: Seq<Entity>) -> bool {
    &&& forall|i: int| 0 <= i < s.len() ==> entity_ok(#[trigger] s[i])
    &&& forall|i: int, j: int|
        0 <= i < j < s.len() ==> !(#[trigger] s[i].hex == #[trigger] s[j].hex
            && s[i].spec_kind() == s[j].spec_kind())
}

impl World {
    /// Every entity is consistent and no two entities of the same
    /// kind share a hex.
    pub open spec fn wf(self) -> bool {
        entities_wf(self.entities@)
    }

    /// Resolves "who occupies this hex" for one object category:
    /// returns the index of the occupant, if there is one.
    pub fn entity_at(&self, h: Hex, k: ObjectKind) -> (r: Option<usize>)
        ensures
            match r {
                Some(u) => find_at(self.entities@, h, k) == Some(u as int),
                None => find_at(self.entities@, h, k) is None,
            },
    {
        let n = self.entities.len();
        let mut i: usize = 0;
        while i < n
            invariant
                n == self.entities@.len(),
                0 <= i <= n,
                forall|j: int| 0 <= j < i ==> !(#[trigger] self.entities@[j].hex == h
                    && self.entities@[j].spec_kind() == k),
            decreases n - i,
        {
            let e = &self.entities[i];
            if e.hex == h && e.kind() == k {
                proof {
                    lemma_find_at_skip(self.entities@, h, k, i as int);
                }
                return Some(i);
            }
            i = i + 1;
        }
        proof {
            lemma_find_at_skip(self.entities@, h, k, n as int);
        }
        None
    }
}

/// If nothing matches before `i`, the scan from the start agrees with
/// the scan from `i`.
pub proof fn lemma_find_at_skip(s: Seq<Entity>, h: Hex, k: ObjectKind, i: int)
    requires
        0 <= i <= s.len(),
        forall|j: int| 0 <= j < i ==> !(#[trigger] s[j].hex == h && s[j].spec_kind() == k),
    ensures
        find_at(s, h, k) == find_at_from(s, h, k, i),
    decreases i,
{
    if i > 0 {
        lemma_find_at_skip_step(s, h, k, i - 1);
        lemma_find_at_skip(s, h, k, i - 1);
    }
}

proof fn lemma_find_at_skip_step(s: Seq<Entity>, h: Hex, k: ObjectKind, i: int)
    requires
        0 <= i < s.len(),
        !(s[i].hex == h && s[i].spec_kind() == k),
    ensures
        find_at_from(s, h, k, i) == find_at_from(s, h, k, i + 1),
{
}

/// In a well-formed world the found occupant is the only one: any
/// index holding an entity of that kind at that hex is the result.
pub proof fn lemma_find_at_unique(w: World, h: Hex, k: ObjectKind, j: int)
    requires
        w.wf(),
        0 <= j < w.entities@.len(),
        w.entities@[j].hex == h,
        w.entities@[j].spec_kind() == k,
    ensures
        find_at(w.entities@, h, k) == Some(j),
{
    lemma_find_at_bounds(w.entities@, h, k, 0);
    let r = find_at(w.entities@, h, k);
    match r {
        Some(i) => {
            if i != j {
                assert(w.entities@[i].hex == w.entities@[j].hex
                    && w.entities@[i].spec_kind() == w.entities@[j].spec_kind());
                assert(false);
            }
        },
        None => {
            lemma_find_at_none(w.entities@, h, k, 0, j);
        },
    }
}

/// A successful scan returns an in-range index that matches.
pub proof fn lemma_find_at_bounds(s: Seq<Entity>, h: Hex, k: ObjectKind, i: int)
    requires
        0 <= i,
    ensures
        match find_at_from(s, h, k, i) {
            Some(j) => i <= j < s.len() && s[j].hex == h && s[j].spec_kind() == k,
            None => true,
        },
    decreases s.len() - i,
{
    if i < s.len() && !(s[i].hex == h && s[i].spec_kind() == k) {
        lemma_find_at_bounds(s, h, k, i + 1);
    }
}

/// A failed scan means no index at or after `i` matches.
pub proof fn lemma_find_at_none(s: Seq<Entity>, h: Hex, k: ObjectKind, i: int, j: int)
    requires
        0 <= i <= j < s.len(),
        find_at_from(s, h, k, i) is None,
    ensures
        !(s[j].hex == h && s[j].spec_kind() == k),
    decreases j - i,
{
    if i < j {
        lemma_find_at_none(s, h, k, i + 1, j);
    }
}

/// The entity with its health component replaced; terrain (which has
/// no health) is returned unchanged.
pub open spec fn with_health(e: Entity, h: Health) -> Entity {
    Entity {
        hex: e.hex,
        data: match e.data {
            EntityData::Unit(u) => EntityData::Unit(Unit { health: h, ..u }),
            EntityData::Turret(t) => EntityData::Turret(Turret { health: h, ..t }),
            EntityData::Factory(f) => EntityData::Factory(Factory { health: h, ..f }),
            EntityData::Terrain(t) => EntityData::Terrain(t),
        },
    }
}

/// Two entities agree on everything but the amount of current health:
/// position, kind, ownership, name, body, energy, storage and maximum
/// health are identical.
pub open spec fn same_but_health(a: Entity, b: Entity) -> bool {
    &&& a.hex == b.hex
    &&& b.spec_health().maximum == a.spec_health().maximum || !a.spec_has_health()
    &&& match (a.data, b.data) {
        (EntityData::Unit(u), EntityData::Unit(v)) => u.name == v.name && u.owner == v.owner
            && u.energy == v.energy && u.body == v.body && u.storage == v.storage,
        (EntityData::Turret(t), EntityData::Turret(s)) => t.owner == s.owner
            && t.energy == s.energy,
        (EntityData::Factory(f), EntityData::Factory(g)) => f.owner == g.owner
            && f.storage == g.storage,
        (EntityData::Terrain(t), EntityData::Terrain(s)) => t == s,
        _ => false,
    }
}

/// Two stores agree pointwise up to current health.
pub open spec fn same_but_healths(a: Seq<Entity>, b: Seq<Entity>) -> bool {
    &&& a.len() == b.len()
    &&& forall|i: int| 0 <= i < a.len() ==> same_but_health(#[trigger] a[i], #[trigger] b[i])
}

/// Agreement up to health is transitive.
pub proof fn lemma_same_but_healths_trans(a: Seq<Entity>, b: Seq<Entity>, c: Seq<Entity>)
    requires
        same_but_healths(a, b),
        same_but_healths(b, c),
    ensures
        same_but_healths(a, c),
{
    assert forall|i: int| 0 <= i < a.len() implies same_but_health(
        #[trigger] a[i],
        #[trigger] c[i],
    ) by {
        assert(same_but_health(a[i], b[i]));
        assert(same_but_health(b[i], c[i]));
    }
}

/// A store agrees with itself up to health.
pub proof fn lemma_same_but_healths_refl(a: Seq<Entity>)
    ensures
        same_but_healths(a, a),
{
}

/// Spatial lookups are insensitive to health changes: stores that
/// agree up to health resolve every (hex, kind) query alike.
pub proof fn lemma_find_at_same_but_health(a: Seq<Entity>, b: Seq<Entity>, h: Hex, k: ObjectKind, i: int)
    requires
        same_but_healths(a, b),
        0 <= i,
    ensures
        find_at_from(a, h, k, i) == find_at_from(b, h, k, i),
    decreases a.len() - i,
{
    if i < a.len() {
        assert(a[i].spec_kind() == b[i].spec_kind());
        lemma_find_at_same_but_health(a, b, h, k, i + 1);
    }
}

/// Replacing an entity with one of the same hex and kind keeps the
/// store well formed, as long as the replacement is itself
/// consistent.
pub proof fn lemma_wf_update(s: Seq<Entity>, i: int, e: Entity)
    requires
        entities_wf(s),
        0 <= i < s.len(),
        e.hex == s[i].hex,
        e.spec_kind() == s[i].spec_kind(),
        entity_ok(e),
    ensures
        entities_wf(s.update(i, e)),
{
}

impl World {
    /// Swaps the entity at `i` for `e`.
    pub fn replace_at(&mut self, i: usize, e: Entity)
        requires
            i < old(self).entities@.len(),
        ensures
            final(self).entities@ == old(self).entities@.update(i as int, e),
            final(self).me == old(self).me,
    {
        let old_e = self.entities.remove(i);
        self.entities.insert(i, e);
        proof {
            assert(self.entities@ =~= old(self).entities@.update(i as int, e));
        }
    }
}

} // verus!
