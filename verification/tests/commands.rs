use star_turns::fleet::{Fleet, FleetSize, FleetsToSpawn, Order, Owner, Ship, ShipKind};
use star_turns::galaxy::{Position, Star, StarColor, StarSize};
use star_turns::shipyard::{BuildError, build_fleet, commission_fleets, set_fleet_order};
use star_turns::universe::{NO_OWNER, Player, StarDetails, StarState, Universe};

fn star(x: i64, y: i64, name: &str) -> Star {
    Star {
        position: Position { x, y },
        size: StarSize::Subgiant,
        color: StarColor::Blue,
        start: None,
        name: name.to_string(),
    }
}

fn small_universe(savings: i64, resources: u64) -> Universe {
    let galaxy = vec![star(0, 0, "One"), star(100, 0, "Two")];
    Universe {
        galaxy,
        players: vec![Player {
            start: 0,
            vision: vec![StarState::Owned(0), StarState::Unknown],
            savings,
            resources,
            first_colony_done: false,
            name: "You".to_string(),
        }],
        star_details: vec![
            StarDetails { population: 7500, resources: 12000, owner: 0, owned_since: 0 },
            StarDetails { population: 0, resources: 8000, owner: NO_OWNER, owned_since: u32::MAX },
        ],
    }
}

#[test]
fn build_colony_ship_costs_and_queues() {
    let mut u = small_universe(2000, 2000);
    let mut queue = FleetsToSpawn(vec![]);
    let r = build_fleet(&mut u, &mut queue, 0, 0, ShipKind::Colony);
    assert_eq!(r, Ok(()));
    assert_eq!(u.players[0].savings, 1000);
    assert_eq!(u.players[0].resources, 1500);
    assert_eq!(queue.0.len(), 1);
    assert_eq!(queue.0[0], Fleet {
        order: Order::Orbit(0),
        ship: Ship { kind: ShipKind::Colony },
        size: FleetSize(1),
        owner: Owner(0),
    });
}

#[test]
fn build_fighter_costs_one_credit() {
    let mut u = small_universe(2000, 2000);
    let mut queue = FleetsToSpawn(vec![]);
    let r = build_fleet(&mut u, &mut queue, 0, 0, ShipKind::Fighter);
    assert_eq!(r, Ok(()));
    assert_eq!(u.players[0].savings, 1900);
    assert_eq!(u.players[0].resources, 1900);
    assert_eq!(queue.0[0].ship.kind, ShipKind::Fighter);
    assert_eq!(queue.0[0].size, FleetSize(1));
}

#[test]
fn build_refused_without_savings() {
    let mut u = small_universe(500, 5000);
    let mut queue = FleetsToSpawn(vec![]);
    let r = build_fleet(&mut u, &mut queue, 0, 0, ShipKind::Colony);
    assert_eq!(r, Err(BuildError::InsufficientSavings));
    assert_eq!(u.players[0].savings, 500);
    assert_eq!(u.players[0].resources, 5000);
    assert!(queue.0.is_empty());
}

#[test]
fn build_refused_without_resources() {
    let mut u = small_universe(5000, 300);
    let mut queue = FleetsToSpawn(vec![]);
    let r = build_fleet(&mut u, &mut queue, 0, 0, ShipKind::Colony);
    assert_eq!(r, Err(BuildError::InsufficientResources));
    assert!(queue.0.is_empty());
}

#[test]
fn orbiting_fleet_takes_new_orders() {
    let u = small_universe(2000, 2000);
    let mut fleets = vec![Fleet {
        order: Order::Orbit(0),
        ship: Ship { kind: ShipKind::Colony },
        size: FleetSize(1),
        owner: Owner(0),
    }];
    let accepted = set_fleet_order(&u, &mut fleets, 0, 1);
    assert!(accepted);
    assert_eq!(fleets[0].order, Order::Move { from: 0, to: 1, step: 0 });
}

#[test]
fn moving_fleet_refuses_new_orders() {
    let u = small_universe(2000, 2000);
    let mut fleets = vec![Fleet {
        order: Order::Move { from: 0, to: 1, step: 0 },
        ship: Ship { kind: ShipKind::Fighter },
        size: FleetSize(3),
        owner: Owner(0),
    }];
    let accepted = set_fleet_order(&u, &mut fleets, 0, 0);
    assert!(!accepted);
    assert_eq!(fleets[0].order, Order::Move { from: 0, to: 1, step: 0 });
}

#[test]
fn commissioning_drains_the_queue() {
    let u = small_universe(2000, 2000);
    let mut fleets = vec![];
    let mut queue = FleetsToSpawn(vec![
        Fleet {
            order: Order::Orbit(0),
            ship: Ship { kind: ShipKind::Fighter },
            size: FleetSize(4),
            owner: Owner(0),
        },
    ]);
    commission_fleets(&u, &mut fleets, &mut queue);
    assert_eq!(fleets.len(), 1);
    assert!(queue.0.is_empty());
    assert_eq!(fleets[0].size, FleetSize(4));
}
