//! Core components attached to world entities: health, energy, unit
//! bodies (part compositions) and resource storage.

use vstd::prelude::*;

verus! {

/// Integer hit points; `current` is always within `[0, maximum]`.
#[derive(Clone, Copy, PartialEq, Eq, Structural, Debug)]
pub struct Health {
    pub current: u32,
    pub maximum: u32,
}

pub open spec fn health_ok(h: Health) -> bool {
    h.current <= h.maximum
}

/// Action-fueling resource; `current` is always within `[0, capacity]`.
#[derive(Clone, Copy, PartialEq, Eq, Structural, Debug)]
pub struct Energy {
    pub current: u32,
    pub capacity: u32,
}

pub open spec fn energy_ok(e: Energy) -> bool {
    e.current <= e.capacity
}

/// The functional part kinds a unit body is composed of.
#[derive(Clone, Copy, PartialEq, Eq, Structural, Debug)]
pub enum UnitPart {
    /// Offensive part: adds damage, attack range and attack cost.
    Ranged,
    /// Economic part: adds energy income.
    Generate,
    /// Defensive part.
    Shield,
}

/// A unit's or turret's composition: a count per part kind, plus an
/// age counter. All derived combat and economic stats are functions
/// of the part counts.
#[derive(Clone, Copy, PartialEq, Eq, Structural, Debug)]
pub struct UnitBody {
    pub ranged: u32,
    pub generate: u32,
    pub shield: u32,
    pub age: u32,
}

/// Part counts are bounded so that derived stats stay within the
/// supported query range (whose own ceiling the range-query bound
/// sets) and their sums fit comfortably in `u32` arithmetic.
pub const MAX_PARTS: u32 = 30_000;

pub open spec fn body_ok(b: UnitBody) -> bool {
    &&& b.ranged <= MAX_PARTS
    &&& b.generate <= MAX_PARTS
    &&& b.shield <= MAX_PARTS
}

/// Energy capacity granted per economic part.
pub const ENERGY_PER_GENERATE: u32 = 10;

impl UnitBody {
    pub open spec fn spec_damage(self) -> u32 {
        self.ranged
    }

    /// Damage dealt per attack: one per offensive part.
    pub fn damage(&self) -> (d: u32)
        ensures
            d == self.spec_damage(),
    {
        self.ranged
    }

    pub open spec fn spec_range(self) -> u32 {
        self.ranged
    }

    /// Attack range in hexes: one per offensive part.
    pub fn range(&self) -> (r: u32)
        ensures
            r == self.spec_range(),
    {
        self.ranged
    }

    pub open spec fn spec_attack_cost(self) -> u32 {
        self.ranged
    }

    /// Energy spent per attack: one per offensive part.
    pub fn attack_cost(&self) -> (c: u32)
        ensures
            c == self.spec_attack_cost(),
    {
        self.ranged
    }

    pub open spec fn spec_energy_income(self) -> u32 {
        self.generate
    }

    /// Energy gained per tick: one per economic part.
    pub fn energy_income(&self) -> (g: u32)
        ensures
            g == self.spec_energy_income(),
    {
        self.generate
    }

    pub open spec fn spec_energy_capacity(self) -> int {
        self.generate * ENERGY_PER_GENERATE
    }

    /// Energy storage ceiling: a fixed amount per economic part.
    pub fn energy_capacity(&self) -> (c: u32)
        requires
            body_ok(*self),
        ensures
            c == self.spec_energy_capacity(),
    {
        self.generate * ENERGY_PER_GENERATE
    }

    /// Builds a body from per-kind counts, starting at age zero.
    pub fn from_counts(ranged: u32, generate: u32, shield: u32) -> (b: UnitBody)
        ensures
            b == (UnitBody { ranged, generate, shield, age: 0 }),
    {
        UnitBody { ranged, generate, shield, age: 0 }
    }
}

/// The resource kinds a storage can hold.
#[derive(Clone, Copy, PartialEq, Eq, Structural, Debug)]
pub enum ResourceKind {
    Metal,
    Uranium,
}

/// Per-kind stored quantities plus a shared capacity; the sum of the
/// stored quantities never exceeds the capacity.
#[derive(Clone, Copy, PartialEq, Eq, Structural, Debug)]
pub struct Storage {
    pub metal: u32,
    pub uranium: u32,
    pub capacity: u32,
}

pub open spec fn storage_ok(s: Storage) -> bool {
    s.metal + s.uranium <= s.capacity
}

/// Adding to a full storage is rejected rather than clamped.
#[derive(Clone, Copy, PartialEq, Eq, Structural, Debug)]
pub struct StorageFull;

impl Storage {
    pub open spec fn spec_amount(self, kind: ResourceKind) -> u32 {
        match kind {
            ResourceKind::Metal => self.metal,
            ResourceKind::Uranium => self.uranium,
        }
    }

    pub fn amount(&self, kind: ResourceKind) -> (a: u32)
        ensures
            a == self.spec_amount(kind),
    {
        match kind {
            ResourceKind::Metal => self.metal,
            ResourceKind::Uranium => self.uranium,
        }
    }

    /// Adds `amount` of `kind`, failing without any effect when the
    /// total stored quantity would exceed the capacity.
    pub fn add_checked(&mut self, kind: ResourceKind, amount: u32) -> (r: Result<(), StorageFull>)
        requires
            storage_ok(*old(self)),
        ensures
            storage_ok(*final(self)),
            r is Ok <==> old(self).metal + old(self).uranium + amount <= old(self).capacity,
            r is Ok ==> final(self).spec_amount(kind) == old(self).spec_amount(kind) + amount
                && final(self).capacity == old(self).capacity
                && (forall|k: ResourceKind| k != kind ==> final(self).spec_amount(k)
                    == old(self).spec_amount(k)),
            r is Err ==> *final(self) == *old(self),
    {
        let used: u64 = self.metal as u64 + self.uranium as u64;
        if used + amount as u64 > self.capacity as u64 {
            return Err(StorageFull);
        }
        match kind {
            ResourceKind::Metal => {
                self.metal = self.metal + amount;
            },
            ResourceKind::Uranium => {
                self.uranium = self.uranium + amount;
            },
        }
        Ok(())
    }
}

} // verus!
