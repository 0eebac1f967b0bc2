use hexbot::behaviors::{attackers_attack, factories_spawn_units, turrets_shoot};
use hexbot::components::{Energy, Health, Storage, UnitBody};
use hexbot::hex::{hex_distance, Hex};
use hexbot::intents::{Intent, Intents};
use hexbot::roles::{organize_units, BotState};
use hexbot::targeting::{find_closest_enemy_hex, find_enemy_hexes_in_range};
use hexbot::world::{Entity, EntityData, Factory, TerrainKind, Turret, Unit, World};

pub fn hex(x: i32, y: i32) -> Hex {
    Hex { x, y }
}

pub fn unit_at(h: Hex, name: &str, owner: u128, current: u32, maximum: u32, ranged: u32) -> Entity {
    Entity {
        hex: h,
        data: EntityData::Unit(Unit {
            name: name.to_string(),
            owner,
            health: Health { current, maximum },
            energy: Energy { current: 0, capacity: 0 },
            body: UnitBody { ranged, generate: 0, shield: 0, age: 0 },
            storage: Storage { metal: 0, uranium: 0, capacity: 100 },
        }),
    }
}

pub fn turret_at(h: Hex, owner: u128) -> Entity {
    Entity {
        hex: h,
        data: EntityData::Turret(Turret {
            owner,
            health: Health { current: 50, maximum: 50 },
            energy: Energy { current: 1000, capacity: 1000 },
        }),
    }
}

pub fn factory_at(h: Hex, owner: u128) -> Entity {
    Entity {
        hex: h,
        data: EntityData::Factory(Factory {
            owner,
            health: Health { current: 100, maximum: 100 },
            storage: Storage { metal: 1000, uranium: 0, capacity: 10_000 },
        }),
    }
}

pub fn terrain_at(h: Hex, kind: TerrainKind) -> Entity {
    Entity { hex: h, data: EntityData::Terrain(kind) }
}

pub const ME: u128 = 7;
pub const FOE: u128 = 9;

#[test]
fn hex_distance_matches_cube_metric() {
    assert_eq!(hex_distance(hex(0, 0), hex(0, 0)), 0);
    assert_eq!(hex_distance(hex(0, 0), hex(2, -1)), 2);
    assert_eq!(hex_distance(hex(0, 0), hex(1, 1)), 2);
    assert_eq!(hex_distance(hex(0, 0), hex(-3, 1)), 3);
    assert_eq!(hex_distance(hex(14, -6), hex(17, -7)), 3);
    assert_eq!(hex_distance(hex(1, -1), hex(0, 0)), 1);
}

#[test]
fn organize_units_buckets_by_name() {
    let world = World {
        entities: vec![
            unit_at(hex(0, 0), "leader", ME, 10, 10, 1),
            unit_at(hex(1, 0), "attacker", ME, 10, 10, 1),
            unit_at(hex(2, 0), "attacker", FOE, 10, 10, 1),
            unit_at(hex(3, 0), "mystery", ME, 10, 10, 1),
        ],
        me: ME,
    };
    let mut state = BotState::new();
    organize_units(&world, &mut state);
    assert_eq!(state.leader_hexes, vec![hex(0, 0)]);
    assert_eq!(state.attacker_hexes, vec![hex(1, 0)]);
    assert_eq!(state.unknown_hexes, vec![hex(3, 0)]);
    assert!(state.scout_hexes.is_empty());
    assert!(state.defender_hexes.is_empty());
    assert!(state.extractor_hexes.is_empty());
    assert!(state.hauler_hexes.is_empty());
}

#[test]
fn in_range_search_excludes_dead_owned_and_far() {
    let world = World {
        entities: vec![
            unit_at(hex(1, 0), "attacker", FOE, 10, 10, 1),
            unit_at(hex(0, 1), "attacker", FOE, 0, 10, 1),
            unit_at(hex(-1, 0), "attacker", ME, 10, 10, 1),
            unit_at(hex(5, 0), "attacker", FOE, 10, 10, 1),
        ],
        me: ME,
    };
    let found = find_enemy_hexes_in_range(&world, hex(0, 0), 2);
    assert_eq!(found, vec![hex(1, 0)]);
}

#[test]
fn in_range_search_includes_boundary_distance() {
    let world = World {
        entities: vec![unit_at(hex(3, 0), "attacker", FOE, 10, 10, 1)],
        me: ME,
    };
    let found = find_enemy_hexes_in_range(&world, hex(0, 0), 3);
    assert_eq!(found, vec![hex(3, 0)]);
    let none = find_enemy_hexes_in_range(&world, hex(0, 0), 2);
    assert!(none.is_empty());
}

#[test]
fn in_range_search_follows_hexagon_enumeration_order() {
    // Candidates are produced column by column in increasing x offset,
    // so the enemy west of the center comes before the one east of it.
    let world = World {
        entities: vec![
            unit_at(hex(1, 0), "attacker", FOE, 10, 10, 1),
            unit_at(hex(-1, 0), "attacker", FOE, 10, 10, 1),
        ],
        me: ME,
    };
    let found = find_enemy_hexes_in_range(&world, hex(0, 0), 1);
    assert_eq!(found, vec![hex(-1, 0), hex(1, 0)]);
}

#[test]
fn closest_enemy_unique_minimum() {
    let world = World {
        entities: vec![
            unit_at(hex(4, 0), "attacker", FOE, 10, 10, 1),
            unit_at(hex(2, 0), "attacker", FOE, 10, 10, 1),
            unit_at(hex(1, 0), "attacker", ME, 10, 10, 1),
        ],
        me: ME,
    };
    assert_eq!(find_closest_enemy_hex(&world, hex(0, 0)), Some(hex(2, 0)));
}

#[test]
fn closest_enemy_tie_keeps_earliest() {
    let world = World {
        entities: vec![
            unit_at(hex(0, 2), "attacker", FOE, 10, 10, 1),
            unit_at(hex(2, 0), "attacker", FOE, 10, 10, 1),
        ],
        me: ME,
    };
    assert_eq!(find_closest_enemy_hex(&world, hex(0, 0)), Some(hex(0, 2)));
}

#[test]
fn closest_enemy_none_without_enemies() {
    let world = World {
        entities: vec![unit_at(hex(1, 0), "attacker", ME, 10, 10, 1)],
        me: ME,
    };
    assert_eq!(find_closest_enemy_hex(&world, hex(0, 0)), None);
}

#[test]
fn attacker_hits_enemy_in_range_without_moving() {
    // Attacker at A with four offensive parts (damage 4, range 4);
    // enemy at B three hexes away with 10 health.
    let a = hex(0, 0);
    let b = hex(3, 0);
    let mut world = World {
        entities: vec![
            unit_at(a, "attacker", ME, 20, 20, 4),
            unit_at(b, "attacker", FOE, 10, 10, 1),
        ],
        me: ME,
    };
    let mut state = BotState::new();
    organize_units(&world, &mut state);
    let mut intents = Intents::new();
    attackers_attack(&mut world, &state, &mut intents);

    match &world.entities[1].data {
        EntityData::Unit(u) => assert_eq!(u.health.current, 6),
        _ => panic!("expected a unit"),
    }
    assert_eq!(intents.list.len(), 1);
    match &intents.list[0] {
        Intent::UnitAttack { attacker_hex, target_hex, .. } => {
            assert_eq!(*attacker_hex, a);
            assert_eq!(*target_hex, b);
        }
        _ => panic!("expected a unit-attack intent"),
    }
}

#[test]
fn attacker_moves_toward_far_enemy_without_attacking() {
    let a = hex(0, 0);
    let c = hex(6, 0);
    let mut world = World {
        entities: vec![
            unit_at(a, "attacker", ME, 20, 20, 2),
            unit_at(c, "attacker", FOE, 10, 10, 1),
        ],
        me: ME,
    };
    let mut state = BotState::new();
    organize_units(&world, &mut state);
    let mut intents = Intents::new();
    attackers_attack(&mut world, &state, &mut intents);

    assert_eq!(intents.list.len(), 1);
    match &intents.list[0] {
        Intent::UnitMove { from, to } => {
            assert_eq!(*from, a);
            assert_eq!(hex_distance(a, *to), 1);
            assert!(hex_distance(*to, c) < hex_distance(a, c));
        }
        _ => panic!("expected a unit-move intent"),
    }
    match &world.entities[1].data {
        EntityData::Unit(u) => assert_eq!(u.health.current, 10),
        _ => panic!("expected a unit"),
    }
}

#[test]
fn attacker_blocked_on_all_sides_stays_put() {
    let a = hex(0, 0);
    let c = hex(6, 0);
    let ring = [
        hex(1, 0),
        hex(0, 1),
        hex(-1, 1),
        hex(-1, 0),
        hex(0, -1),
        hex(1, -1),
    ];
    let mut entities = vec![
        unit_at(a, "attacker", ME, 20, 20, 2),
        unit_at(c, "attacker", FOE, 10, 10, 1),
    ];
    for h in ring {
        entities.push(terrain_at(h, TerrainKind::Lava));
    }
    let mut world = World { entities, me: ME };
    let mut state = BotState::new();
    organize_units(&world, &mut state);
    let mut intents = Intents::new();
    attackers_attack(&mut world, &state, &mut intents);
    assert!(intents.list.is_empty());
}

#[test]
fn attacker_never_steps_onto_hazard() {
    // A wall straight east forces the path around it.
    let a = hex(0, 0);
    let c = hex(4, 0);
    let wall = hex(1, 0);
    let mut world = World {
        entities: vec![
            unit_at(a, "attacker", ME, 20, 20, 1),
            unit_at(c, "attacker", FOE, 10, 10, 1),
            terrain_at(wall, TerrainKind::Wall),
        ],
        me: ME,
    };
    let mut state = BotState::new();
    organize_units(&world, &mut state);
    let mut intents = Intents::new();
    attackers_attack(&mut world, &state, &mut intents);
    assert_eq!(intents.list.len(), 1);
    match &intents.list[0] {
        Intent::UnitMove { from, to } => {
            assert_eq!(*from, a);
            assert_ne!(*to, wall);
            assert_eq!(hex_distance(a, *to), 1);
        }
        _ => panic!("expected a unit-move intent"),
    }
}

#[test]
fn idle_turret_emits_nothing() {
    let mut world = World {
        entities: vec![turret_at(hex(0, 0), ME)],
        me: ME,
    };
    let mut intents = Intents::new();
    turrets_shoot(&mut world, &mut intents);
    assert!(intents.list.is_empty());
}

#[test]
fn turret_shoots_adjacent_enemy() {
    let t = hex(0, 0);
    let b = hex(1, 0);
    let mut world = World {
        entities: vec![
            turret_at(t, ME),
            unit_at(b, "attacker", FOE, 10, 10, 1),
        ],
        me: ME,
    };
    let mut intents = Intents::new();
    turrets_shoot(&mut world, &mut intents);
    match &world.entities[1].data {
        EntityData::Unit(u) => assert_eq!(u.health.current, 9),
        _ => panic!("expected a unit"),
    }
    assert_eq!(intents.list.len(), 1);
    match &intents.list[0] {
        Intent::TurretAttack { turret_hex, target_hex, .. } => {
            assert_eq!(*turret_hex, t);
            assert_eq!(*target_hex, b);
        }
        _ => panic!("expected a turret-attack intent"),
    }
}

#[test]
fn enemy_turret_does_not_act() {
    let mut world = World {
        entities: vec![
            turret_at(hex(0, 0), FOE),
            unit_at(hex(1, 0), "attacker", ME, 10, 10, 1),
        ],
        me: ME,
    };
    let mut intents = Intents::new();
    turrets_shoot(&mut world, &mut intents);
    assert!(intents.list.is_empty());
}

#[test]
fn turret_support_search_keeps_hostile_filter() {
    // The friendly search filters identically to the enemy search, so
    // an owned unit in range triggers neither an attack nor a repair.
    let mut world = World {
        entities: vec![
            turret_at(hex(0, 0), ME),
            unit_at(hex(0, 1), "attacker", ME, 5, 10, 1),
        ],
        me: ME,
    };
    let mut intents = Intents::new();
    turrets_shoot(&mut world, &mut intents);
    assert!(intents.list.is_empty());
}

#[test]
fn factory_spawns_one_unit_within_jitter_bounds() {
    let f = hex(2, -1);
    let world = World {
        entities: vec![factory_at(f, ME), factory_at(hex(5, 5), FOE)],
        me: ME,
    };
    let mut intents = Intents::new();
    factories_spawn_units(&world, &mut intents);
    assert_eq!(intents.list.len(), 1);
    match &intents.list[0] {
        Intent::FactorySpawnUnit { factory_hex, out, name, body, owner } => {
            assert_eq!(*factory_hex, f);
            assert!(out.is_none());
            assert_eq!(name, "attacker");
            assert_eq!(*owner, ME);
            assert!((10..=17).contains(&body.generate));
            assert!((3..=8).contains(&body.ranged));
            assert_eq!(body.shield, 1);
            assert_eq!(body.age, 0);
        }
        _ => panic!("expected a factory-spawn intent"),
    }
}

#[test]
fn move_unit_skips_when_already_in_range() {
    let world = World {
        entities: vec![unit_at(hex(0, 0), "attacker", ME, 10, 10, 2)],
        me: ME,
    };
    let mut intents = Intents::new();
    hexbot::pathing::move_unit(&world, hex(0, 0), hex(2, 0), 2, &mut intents);
    assert!(intents.list.is_empty());
}

#[test]
fn move_unit_steps_around_lava() {
    let lava = hex(1, 0);
    let world = World {
        entities: vec![terrain_at(lava, TerrainKind::Lava)],
        me: ME,
    };
    let mut intents = Intents::new();
    hexbot::pathing::move_unit(&world, hex(0, 0), hex(3, 0), 0, &mut intents);
    assert_eq!(intents.list.len(), 1);
    match &intents.list[0] {
        Intent::UnitMove { from, to } => {
            assert_eq!(*from, hex(0, 0));
            assert_ne!(*to, lava);
            assert_eq!(hex_distance(hex(0, 0), *to), 1);
        }
        _ => panic!("expected a unit-move intent"),
    }
}

#[test]
fn turret_repair_applies_the_observed_subtraction() {
    let t = hex(0, 0);
    let b = hex(1, 0);
    let mut world = World {
        entities: vec![turret_at(t, ME), unit_at(b, "attacker", ME, 7, 10, 1)],
        me: ME,
    };
    let mut intents = Intents::new();
    hexbot::combat::turret_repair(
        &mut world,
        t,
        b,
        hexbot::world::ObjectKind::Unit,
        2,
        &mut intents,
    );
    match &world.entities[1].data {
        EntityData::Unit(u) => assert_eq!(u.health.current, 5),
        _ => panic!("expected a unit"),
    }
    assert_eq!(intents.list.len(), 1);
    assert!(matches!(intents.list[0], Intent::TurretRepair { .. }));
}

#[test]
fn move_unit_forces_passage_through_occupied_hex() {
    // Every neighbor of the origin is walled except one, which an
    // enemy unit occupies: discouraged (cost 5) but not impassable.
    let gap = hex(1, 0);
    let mut entities = vec![unit_at(gap, "attacker", FOE, 10, 10, 1)];
    for h in [hex(0, 1), hex(-1, 1), hex(-1, 0), hex(0, -1), hex(1, -1)] {
        entities.push(terrain_at(h, TerrainKind::Wall));
    }
    let world = World { entities, me: ME };
    let mut intents = Intents::new();
    hexbot::pathing::move_unit(&world, hex(0, 0), hex(3, 0), 0, &mut intents);
    assert_eq!(intents.list.len(), 1);
    match &intents.list[0] {
        Intent::UnitMove { from, to } => {
            assert_eq!(*from, hex(0, 0));
            assert_eq!(*to, gap);
        }
        _ => panic!("expected a unit-move intent"),
    }
}

#[test]
fn move_unit_returns_when_target_is_walled_off() {
    // Every neighbor of the target is lava: no admissible path
    // exists, and the bounded search concludes that instead of
    // wandering the open grid forever.
    let target = hex(4, 0);
    let ring = [
        hex(5, 0),
        hex(4, 1),
        hex(3, 1),
        hex(3, 0),
        hex(4, -1),
        hex(5, -1),
    ];
    let mut entities = Vec::new();
    for h in ring {
        entities.push(terrain_at(h, TerrainKind::Lava));
    }
    let world = World { entities, me: ME };
    let mut intents = Intents::new();
    hexbot::pathing::move_unit(&world, hex(0, 0), target, 0, &mut intents);
    assert!(intents.list.is_empty());
}
