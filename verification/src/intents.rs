//! Declarative action requests handed to the external engine: the
//! batch of intents is the sole externally observable output of a
//! tick.

use vstd::prelude::*;
use crate::hex::Hex;
use crate::components::UnitBody;
use crate::world::{ObjectKind, PlayerId};

verus! {

/// One action a unit, turret or factory wants to take this tick.
#[derive(Clone, Debug)]
pub enum Intent {
    /// A unit moving one step.
    UnitMove { from: Hex, to: Hex },
    /// A unit attacking the occupant of a hex.
    UnitAttack { attacker_hex: Hex, target_hex: Hex, target_kind: ObjectKind },
    /// A turret attacking the occupant of a hex.
    TurretAttack { turret_hex: Hex, target_hex: Hex, target_kind: ObjectKind },
    /// A turret restoring the occupant of a hex.
    TurretRepair { turret_hex: Hex, target_hex: Hex, target_kind: ObjectKind },
    /// A factory spawning a freshly composed unit.
    FactorySpawnUnit {
        factory_hex: Hex,
        out: Option<Hex>,
        name: String,
        body: UnitBody,
        owner: PlayerId,
    },
}

/// The ordered batch of intents collected over one tick.
pub struct Intents {
    pub list: Vec<Intent>,
}

impl Intents {
    pub fn new() -> (r: Intents)
        ensures
            r.list@ == Seq::<Intent>::empty(),
    {
        Intents { list: Vec::new() }
    }

    pub fn push(&mut self, intent: Intent)
        ensures
            final(self).list@ == old(self).list@.push(intent),
    {
        self.list.push(intent);
    }
}

impl Default for Intents {
    /// An empty batch.
    fn default() -> (r: Intents)
        ensures
            r.list@ == Seq::<Intent>::empty(),
    {
        Intents { list: Vec::new() }
    }
}

} // verus!
