use star_turns::economy::{grow_population, harvest, star_revenue_exec};
use star_turns::fleet::{Fleet, FleetSize, Order, Owner, Ship, ShipKind};
use star_turns::galaxy::{Position, Star, StarColor, StarSize};
use star_turns::universe::{NO_OWNER, Player, StarDetails, StarState, Universe};

fn star(x: i64, y: i64, color: StarColor, size: StarSize, name: &str) -> Star {
    Star { position: Position { x, y }, size, color, start: None, name: name.to_string() }
}

fn owned_details(population: u64, resources: u64, owner: usize) -> StarDetails {
    StarDetails { population, resources, owner, owned_since: 0 }
}

fn free_details(resources: u64) -> StarDetails {
    StarDetails { population: 0, resources, owner: NO_OWNER, owned_since: u32::MAX }
}

fn player(start: usize, n_stars: usize, name: &str) -> Player {
    Player {
        start,
        vision: vec![StarState::Unknown; n_stars],
        savings: 1000,
        resources: 1000,
        first_colony_done: false,
        name: name.to_string(),
    }
}

/// A small two-player world: human at star 0 (Blue Subgiant), bot at star 1.
fn two_player_universe() -> Universe {
    let galaxy = vec![
        star(0, 0, StarColor::Blue, StarSize::Subgiant, "Home"),
        star(200, 0, StarColor::Orange, StarSize::Dwarf, "Far"),
        star(50, 0, StarColor::Blue, StarSize::Subgiant, "Twin"),
        star(0, 60, StarColor::Orange, StarSize::Giant, "Big"),
    ];
    let n = galaxy.len();
    Universe {
        galaxy,
        players: vec![player(0, n, "You"), player(1, n, "Violetta")],
        star_details: vec![
            owned_details(7500, 12000, 0),
            owned_details(7500, 12000, 1),
            free_details(8000),
            free_details(8000),
        ],
    }
}

#[test]
fn star_revenue_exact_values() {
    // Population 10.00 off-climate: 10^0.8 / 100 - 2, in hundredths.
    assert_eq!(star_revenue_exec(1000, false), -194);
    // Population 75.00 on the home climate: (75 * 1.1)^1.4 / 100 - 2.
    assert_eq!(star_revenue_exec(7500, true), 281);
    assert_eq!(star_revenue_exec(7500, false), -169);
}

#[test]
fn harvest_exact_values() {
    // 100.00 resources on a mismatched-color star: a large draw, slow decay.
    let (nr, take) = harvest(10000, false);
    assert_eq!(take, 150);
    assert_eq!(nr, 9991);
    // The same stock on a matching-color star: a small draw.
    let (nr2, take2) = harvest(10000, true);
    assert_eq!(take2, 20);
    assert_eq!(nr2, 9937);
    // An empty stock yields nothing and stays empty.
    assert_eq!(harvest(0, false), (0, 0));
}

#[test]
fn growth_exact_value() {
    // 10.00 population, held since turn 0, ideal climate and size.
    assert_eq!(grow_population(1000, 1, 0, true, true), 1057);
    // A size mismatch halves the increment.
    assert_eq!(grow_population(1000, 1, 0, true, false), 1028);
}

#[test]
fn growth_never_negative() {
    // Far above the cap the increment is negative, but population stays
    // at zero or above.
    let p = grow_population(0, 5, 0, false, true);
    assert_eq!(p, 0);
    let q = grow_population(200_000, 1, 0, false, true);
    assert!(q <= 200_000);
}

#[test]
fn player_revenue_is_sum_of_star_revenues() {
    let mut u = two_player_universe();
    // Give the human a second colony on star 2 (matching color).
    u.star_details[2] = owned_details(1000, 5000, 0);
    let r0 = u.star_revenue(0);
    let r2 = u.star_revenue(2);
    assert_eq!(u.player_revenue(0), r0 + r2);
    // The bot's revenue counts only its own star.
    assert_eq!(u.player_revenue(1), u.star_revenue(1));
}

#[test]
fn star_ressource_reflects_climate() {
    let u = two_player_universe();
    // Star 0: Blue for the human (home Blue): the gentle power law.
    let own = u.star_ressource(0);
    // Star 1: Orange for the bot (home Orange): also ideal for its owner.
    let other = u.star_ressource(1);
    assert_eq!(own, other);
    assert!(own > 0);
}

#[test]
fn economy_update_grows_and_pays() {
    let mut u = two_player_universe();
    let rev0 = u.player_revenue(0);
    let pop_before = u.star_details[0].population;
    let res_before = u.star_details[0].resources;
    u.economy_update(1);
    assert_eq!(u.players[0].savings, 1000 + rev0);
    assert!(u.star_details[0].population > pop_before);
    assert!(u.star_details[0].resources <= res_before);
    // Harvested resources land in the player's stockpile.
    assert_eq!(u.players[0].resources, 1000 + 20);
    // Unowned stars are untouched.
    assert_eq!(u.star_details[2], free_details(8000));
}

#[test]
fn colony_fleet_always_size_one() {
    // Freshly built colony fleets have size one, and stay that way across
    // a turn resolution.
    let mut u = two_player_universe();
    let mut fleets = vec![Fleet {
        order: Order::Move { from: 0, to: 2, step: 0 },
        ship: Ship { kind: ShipKind::Colony },
        size: FleetSize(1),
        owner: Owner(0),
    }];
    let mut turns = star_turns::turns::Turns { count: 0, messages: vec![] };
    star_turns::turns::resolve_player_turn(&mut u, &mut fleets, &mut turns);
    for f in &fleets {
        if matches!(f.ship.kind, ShipKind::Colony) {
            assert_eq!(f.size.0, 1);
        }
    }
}
