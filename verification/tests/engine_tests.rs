use hexbot::components::{Energy, Health, ResourceKind, Storage, UnitBody};
use hexbot::engine::{
    age_units, attack, attack_intents, can_attack, delete_0_health, delete_old_units,
    units_generate_energy, update, UnitAttackAction,
};
use hexbot::hex::Hex;
use hexbot::intents::Intents;
use hexbot::roles::{classify_role, UnitRole};
use hexbot::tick::tick;
use hexbot::roles::BotMemory;
use hexbot::world::{Entity, EntityData, Factory, ObjectKind, TerrainKind, Turret, Unit, World};

fn hex(x: i32, y: i32) -> Hex {
    Hex { x, y }
}

fn unit_full(h: Hex, owner: u128, current: u32, maximum: u32, body: UnitBody, uranium: u32) -> Entity {
    Entity {
        hex: h,
        data: EntityData::Unit(Unit {
            name: "attacker".to_string(),
            owner,
            health: Health { current, maximum },
            energy: Energy { current: 0, capacity: body.generate * 10 },
            body,
            storage: Storage { metal: 0, uranium, capacity: 1_000_000 },
        }),
    }
}

const ME: u128 = 1;
const FOE: u128 = 2;

#[test]
fn classify_role_covers_every_name() {
    assert_eq!(classify_role(&"leader".to_string()), UnitRole::Leader);
    assert_eq!(classify_role(&"attacker".to_string()), UnitRole::Attacker);
    assert_eq!(classify_role(&"scout".to_string()), UnitRole::Scout);
    assert_eq!(classify_role(&"defender".to_string()), UnitRole::Defender);
    assert_eq!(classify_role(&"extractor".to_string()), UnitRole::Extractor);
    assert_eq!(classify_role(&"hauler".to_string()), UnitRole::Hauler);
    assert_eq!(classify_role(&"grunt".to_string()), UnitRole::Unknown);
    assert_eq!(classify_role(&"".to_string()), UnitRole::Unknown);
}

#[test]
fn body_stats_derive_from_parts() {
    let body = UnitBody { ranged: 4, generate: 3, shield: 2, age: 0 };
    assert_eq!(body.damage(), 4);
    assert_eq!(body.range(), 4);
    assert_eq!(body.attack_cost(), 4);
    assert_eq!(body.energy_income(), 3);
    assert_eq!(body.energy_capacity(), 30);
}

#[test]
fn storage_add_checked_rejects_overflow() {
    let mut s = Storage { metal: 900, uranium: 50, capacity: 1000 };
    assert!(s.add_checked(ResourceKind::Metal, 50).is_ok());
    assert_eq!(s.metal, 950);
    assert!(s.add_checked(ResourceKind::Uranium, 1).is_err());
    assert_eq!(s.metal, 950);
    assert_eq!(s.uranium, 50);
    assert_eq!(s.capacity, 1000);
}

#[test]
fn attack_rejected_without_energy() {
    let body = UnitBody { ranged: 3, generate: 0, shield: 0, age: 0 };
    let mut energy = Energy { current: 2, capacity: 10 };
    let mut health = Health { current: 8, maximum: 10 };
    attack(hex(0, 0), &body, &mut energy, hex(1, 0), &mut health);
    assert_eq!(energy.current, 2);
    assert_eq!(health.current, 8);
}

#[test]
fn attack_rejected_on_same_hex() {
    let body = UnitBody { ranged: 3, generate: 0, shield: 0, age: 0 };
    let mut energy = Energy { current: 10, capacity: 10 };
    let mut health = Health { current: 8, maximum: 10 };
    attack(hex(2, 2), &body, &mut energy, hex(2, 2), &mut health);
    assert_eq!(energy.current, 10);
    assert_eq!(health.current, 8);
}

#[test]
fn attack_rejected_out_of_range() {
    let body = UnitBody { ranged: 2, generate: 0, shield: 0, age: 0 };
    let mut energy = Energy { current: 10, capacity: 10 };
    let mut health = Health { current: 8, maximum: 10 };
    attack(hex(0, 0), &body, &mut energy, hex(3, 0), &mut health);
    assert_eq!(energy.current, 10);
    assert_eq!(health.current, 8);
}

#[test]
fn attack_applies_clamped_damage_and_deducts_energy() {
    let body = UnitBody { ranged: 5, generate: 0, shield: 0, age: 0 };
    let mut energy = Energy { current: 7, capacity: 10 };
    let mut health = Health { current: 3, maximum: 10 };
    attack(hex(0, 0), &body, &mut energy, hex(2, 0), &mut health);
    assert_eq!(health.current, 0);
    assert_eq!(health.maximum, 10);
    assert_eq!(energy.current, 2);
}

#[test]
fn cleanup_removes_exactly_zero_health() {
    let body = UnitBody { ranged: 1, generate: 0, shield: 0, age: 0 };
    let mut world = World {
        entities: vec![
            unit_full(hex(0, 0), ME, 0, 10, body, 0),
            unit_full(hex(1, 0), ME, 5, 10, body, 0),
            Entity { hex: hex(2, 0), data: EntityData::Terrain(TerrainKind::Lava) },
            Entity {
                hex: hex(3, 0),
                data: EntityData::Turret(Turret {
                    owner: FOE,
                    health: Health { current: 0, maximum: 50 },
                    energy: Energy { current: 0, capacity: 10 },
                }),
            },
        ],
        me: ME,
    };
    delete_0_health(&mut world);
    assert_eq!(world.entities.len(), 2);
    assert_eq!(world.entities[0].hex, hex(1, 0));
    assert_eq!(world.entities[1].hex, hex(2, 0));
}

#[test]
fn aging_counts_carried_uranium() {
    let body = UnitBody { ranged: 1, generate: 0, shield: 0, age: 10 };
    let mut world = World {
        entities: vec![unit_full(hex(0, 0), ME, 5, 10, body, 250)],
        me: ME,
    };
    age_units(&mut world);
    match &world.entities[0].data {
        EntityData::Unit(u) => assert_eq!(u.body.age, 13),
        _ => panic!("expected a unit"),
    }
}

#[test]
fn energy_generation_clamps_to_body_capacity() {
    let body = UnitBody { ranged: 0, generate: 3, shield: 0, age: 0 };
    let mut world = World {
        entities: vec![unit_full(hex(0, 0), ME, 5, 10, body, 0)],
        me: ME,
    };
    units_generate_energy(&mut world);
    match &world.entities[0].data {
        EntityData::Unit(u) => assert_eq!(u.energy.current, 3),
        _ => panic!("expected a unit"),
    }
    for _ in 0..20 {
        units_generate_energy(&mut world);
    }
    match &world.entities[0].data {
        EntityData::Unit(u) => assert_eq!(u.energy.current, 30),
        _ => panic!("expected a unit"),
    }
}

#[test]
fn economic_update_refills_factories_until_full() {
    let mut world = World {
        entities: vec![Entity {
            hex: hex(0, 0),
            data: EntityData::Factory(Factory {
                owner: ME,
                health: Health { current: 100, maximum: 100 },
                storage: Storage { metal: 0, uranium: 0, capacity: 1500 },
            }),
        }],
        me: ME,
    };
    update(&mut world);
    match &world.entities[0].data {
        EntityData::Factory(f) => assert_eq!(f.storage.metal, 1000),
        _ => panic!("expected a factory"),
    }
    update(&mut world);
    match &world.entities[0].data {
        EntityData::Factory(f) => assert_eq!(f.storage.metal, 1000),
        _ => panic!("expected a factory"),
    }
}

#[test]
fn engine_placeholders_do_nothing() {
    let body = UnitBody { ranged: 1, generate: 0, shield: 0, age: 0 };
    let mut world = World {
        entities: vec![unit_full(hex(0, 0), ME, 5, 10, body, 0)],
        me: ME,
    };
    let action = UnitAttackAction {
        attacker_hex: hex(0, 0),
        target_hex: hex(1, 0),
        target_kind: ObjectKind::Unit,
        cost: 1,
        damage: 1,
    };
    assert!(can_attack(&world, &action));
    attack_intents(&mut world, &vec![action]);
    delete_old_units(&mut world);
    assert_eq!(world.entities.len(), 1);
    match &world.entities[0].data {
        EntityData::Unit(u) => assert_eq!(u.health.current, 5),
        _ => panic!("expected a unit"),
    }
}

#[test]
fn tick_collects_attack_and_spawn_intents() {
    let body = UnitBody { ranged: 2, generate: 0, shield: 0, age: 0 };
    let mut world = World {
        entities: vec![
            unit_full(hex(0, 0), ME, 20, 20, body, 0),
            unit_full(hex(1, 0), FOE, 10, 10, body, 0),
            Entity {
                hex: hex(4, 0),
                data: EntityData::Factory(Factory {
                    owner: ME,
                    health: Health { current: 100, maximum: 100 },
                    storage: Storage { metal: 1000, uranium: 0, capacity: 10_000 },
                }),
            },
        ],
        me: ME,
    };
    let mut memory = BotMemory::new();
    memory.scouts.push(42);
    let intents = tick(&mut world, &mut memory);
    // The attacker engages the adjacent enemy (no move: already in
    // range) and the factory emits exactly one spawn intent.
    assert_eq!(intents.list.len(), 2);
    match &world.entities[1].data {
        EntityData::Unit(u) => assert_eq!(u.health.current, 8),
        _ => panic!("expected a unit"),
    }
    assert_eq!(memory.scouts, vec![42]);
    assert!(memory.defenders.is_empty());
}

#[test]
fn intents_default_is_empty() {
    let batch = Intents::default();
    assert!(batch.list.is_empty());
}
