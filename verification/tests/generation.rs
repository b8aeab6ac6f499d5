use star_turns::bots::{BotTurnStatus, run_bots_turn, start_bots};
use star_turns::fleet::{Fleet, FleetSize, FleetsToSpawn, Order, Owner, Ship, ShipKind};
use star_turns::galaxy::{GalaxyCreator, GalaxyKind, Position, Star, StarColor, StarSize};
use star_turns::names::{Names, NamesLoader, split_lines};
use star_turns::setup::{setup_game, shuffled};
use star_turns::turns::Turns;
use star_turns::universe::{NO_OWNER, Player, StarDetails, StarState, Universe};

#[test]
fn split_lines_basic() {
    let lines = split_lines("Altair\nVega\nSirius");
    assert_eq!(lines, vec!["Altair", "Vega", "Sirius"]);
}

#[test]
fn split_lines_handles_crlf_and_trailing_newline() {
    assert_eq!(split_lines("a\r\nb\n"), vec!["a", "b"]);
    assert_eq!(split_lines(""), Vec::<String>::new());
    assert_eq!(split_lines("\n"), vec![""]);
    // A lone carriage return at the end of input belongs to the last line.
    assert_eq!(split_lines("a\r"), vec!["a\r"]);
}

#[test]
fn names_loader_reads_a_pool() {
    let loader = NamesLoader;
    let names: Names = loader.load("Altair\nVega\n");
    assert_eq!(names.names, vec!["Altair", "Vega"]);
    assert_eq!(loader.extensions(), vec!["names"]);
}

#[test]
fn shuffled_keeps_every_element() {
    let v: Vec<String> = (0..20).map(|i| format!("name{}", i)).collect();
    let mut out = shuffled(v.clone());
    assert_eq!(out.len(), v.len());
    out.sort();
    let mut expected = v.clone();
    expected.sort();
    assert_eq!(out, expected);
}

#[test]
fn galaxy_generation_reaches_target_and_stops() {
    let mut creator = GalaxyCreator {
        nb_players: 2,
        size: 300,
        density: 250,
        kind: GalaxyKind::Spiral,
        generated: vec![],
        names: (0..100).map(|i| format!("star{}", i)).collect(),
    };
    // 2 players * 3.0 * 2.5 * 4 = 60 stars.
    let mut produced = 0;
    while let Some(star) = creator.next_star() {
        assert!(star.position.x.abs() <= 300);
        assert!(star.position.y.abs() <= 300);
        assert!(star.start.is_none());
        produced += 1;
        assert!(produced <= 60);
    }
    assert_eq!(produced, 60);
    assert_eq!(creator.generated.len(), 60);
    assert_eq!(creator.names.len(), 40);
    // A second call after completion keeps saying the galaxy is done.
    assert!(creator.next_star().is_none());
    // Names are drawn from the pool without repetition.
    let mut names: Vec<String> = creator.generated.iter().map(|s| s.name.clone()).collect();
    names.sort();
    names.dedup();
    assert_eq!(names.len(), 60);
}

fn test_star(x: i64, y: i64, size: StarSize, name: &str) -> Star {
    Star {
        position: Position { x, y },
        size,
        color: StarColor::Blue,
        start: None,
        name: name.to_string(),
    }
}

#[test]
fn setup_assigns_nearest_habitable_star() {
    let galaxy = vec![
        test_star(-200, 0, StarSize::Dwarf, "West"),
        test_star(0, 0, StarSize::Giant, "Middle"),
        test_star(200, 0, StarSize::Dwarf, "East"),
    ];
    let targets = vec![Position { x: -190, y: 0 }, Position { x: 190, y: 0 }];
    let names = vec!["Turandot".to_string(), "Violetta".to_string()];
    let (universe, fleets, turns) = setup_game(galaxy, 2, &targets, names);

    assert_eq!(turns.count, 0);
    assert!(turns.messages.is_empty());
    // The giant in the middle is never a starting star.
    assert_eq!(universe.players[0].start, 0);
    assert_eq!(universe.players[1].start, 2);
    for (p, player) in universe.players.iter().enumerate() {
        assert_eq!(player.savings, 1000);
        assert_eq!(player.resources, 1000);
        assert!(!player.first_colony_done);
        assert_eq!(player.vision[player.start], StarState::Owned(p));
        let d = universe.star_details[player.start];
        assert_eq!(d.owner, p);
        assert_eq!(d.owned_since, 0);
        assert!((7000..8000).contains(&d.population));
        assert!((10000..15000).contains(&d.resources));
    }
    // The unclaimed middle star is unowned with a random stock.
    let mid = universe.star_details[1];
    assert_eq!(mid.owner, NO_OWNER);
    assert_eq!(mid.population, 0);
    assert!((5000..10000).contains(&mid.resources));
    // One colony ship per player, parked at its starting star.
    assert_eq!(fleets.0.len(), 2);
    for (p, f) in fleets.0.iter().enumerate() {
        assert_eq!(*f, Fleet {
            order: Order::Orbit(universe.players[p].start),
            ship: Ship { kind: ShipKind::Colony },
            size: FleetSize(1),
            owner: Owner(p),
        });
    }
}

fn bot_world() -> (Universe, Vec<Fleet>) {
    // Star 0: the bot's home (Blue Subgiant).  Star 1: a known uninhabited
    // twin close by.  Star 2: far away and unexplored.
    let galaxy = vec![
        test_star(0, 0, StarSize::Subgiant, "Home"),
        test_star(20, 0, StarSize::Subgiant, "Twin"),
        test_star(500, 0, StarSize::Dwarf, "Remote"),
    ];
    let n = galaxy.len();
    let human = Player {
        start: 2,
        vision: vec![StarState::Unknown, StarState::Unknown, StarState::Owned(0)],
        savings: 1000,
        resources: 1000,
        first_colony_done: false,
        name: "You".to_string(),
    };
    let bot = Player {
        start: 0,
        vision: vec![StarState::Owned(1), StarState::Uninhabited, StarState::Unknown],
        savings: 100_000,
        resources: 100_000,
        first_colony_done: false,
        name: "Figaro".to_string(),
    };
    let details = vec![
        StarDetails { population: 7500, resources: 12000, owner: 1, owned_since: 0 },
        StarDetails { population: 0, resources: 8000, owner: NO_OWNER, owned_since: u32::MAX },
        StarDetails { population: 7500, resources: 12000, owner: 0, owned_since: 0 },
    ];
    let universe = Universe { galaxy, players: vec![human, bot], star_details: details };
    let fleets = vec![Fleet {
        order: Order::Orbit(0),
        ship: Ship { kind: ShipKind::Colony },
        size: FleetSize(1),
        owner: Owner(1),
    }];
    (universe, fleets)
}

#[test]
fn bot_sends_idle_colony_ship_to_best_star() {
    let (mut universe, mut fleets) = bot_world();
    let mut queue = FleetsToSpawn(vec![]);
    let mut status = BotTurnStatus { current: 0, last_colony_ship_spawned: vec![0, 0] };
    start_bots(&mut status);
    assert_eq!(status.current, 1);
    let turns = Turns { count: 1, messages: vec![] };
    run_bots_turn(&mut universe, &mut fleets, &mut queue, &mut status, &turns);
    // The known uninhabited twin (matching color and size, one turn away)
    // beats the unexplored remote star.
    assert_eq!(fleets[0].order, Order::Move { from: 0, to: 1, step: 0 });
    assert_eq!(status.current, 2);
}

#[test]
fn rich_bot_builds_a_fighter_squadron() {
    let (mut universe, mut fleets) = bot_world();
    let mut queue = FleetsToSpawn(vec![]);
    // The bot launched a colony ship a moment ago, so only the fighter
    // squadron can be commissioned this turn.
    let mut status = BotTurnStatus { current: 1, last_colony_ship_spawned: vec![0, 1] };
    let turns = Turns { count: 2, messages: vec![] };
    let savings_before = universe.players[1].savings;
    run_bots_turn(&mut universe, &mut fleets, &mut queue, &mut status, &turns);
    assert_eq!(queue.0.len(), 1);
    let f = &queue.0[0];
    assert_eq!(f.ship.kind, ShipKind::Fighter);
    assert_eq!(f.owner, Owner(1));
    assert_eq!(f.order, Order::Orbit(0));
    assert!(f.size.0 >= 1);
    let cost = f.size.0 as i64 * 100;
    assert_eq!(universe.players[1].savings, savings_before - cost);
}

#[test]
fn patient_bot_commissions_a_colony_ship() {
    let (mut universe, mut fleets) = bot_world();
    let mut queue = FleetsToSpawn(vec![]);
    // The last colony ship is long past, the bot is rich, and its vision
    // holds unowned stars: a colony ship must be commissioned.
    let mut status = BotTurnStatus { current: 1, last_colony_ship_spawned: vec![0, 0] };
    let turns = Turns { count: 10, messages: vec![] };
    run_bots_turn(&mut universe, &mut fleets, &mut queue, &mut status, &turns);
    assert!(queue.0.iter().any(|f| f.ship.kind == ShipKind::Colony
        && f.size == FleetSize(1)
        && f.owner == Owner(1)
        && f.order == Order::Orbit(0)));
    assert_eq!(status.last_colony_ship_spawned[1], 10);
}

#[test]
fn large_fighter_fleet_contests_enemy_stars() {
    // A ten-ship fighter fleet rates the enemy colony best; a small one
    // avoids it.
    let (mut universe, _) = bot_world();
    // Star 2 belongs to the human; let the bot know that.
    universe.players[1].vision[2] = StarState::Owned(0);
    let mut fleets = vec![Fleet {
        order: Order::Orbit(0),
        ship: Ship { kind: ShipKind::Fighter },
        size: FleetSize(10),
        owner: Owner(1),
    }];
    let mut queue = FleetsToSpawn(vec![]);
    let mut status = BotTurnStatus { current: 1, last_colony_ship_spawned: vec![0, 1] };
    let turns = Turns { count: 2, messages: vec![] };
    run_bots_turn(&mut universe, &mut fleets, &mut queue, &mut status, &turns);
    // Enemy-owned star 2 costs travel + 50; the uninhabited twin costs
    // travel + 100; the far star is enemy-owned too but much farther.
    assert_eq!(fleets[0].order, Order::Move { from: 0, to: 1, step: 0 });
    // With vision marking the twin enemy-owned as well, a small fleet
    // would flee: rerun with one ship and every star marked enemy-owned.
    let (mut universe2, _) = bot_world();
    universe2.players[1].vision = vec![StarState::Owned(1), StarState::Owned(0), StarState::Owned(0)];
    let mut fleets2 = vec![Fleet {
        order: Order::Orbit(0),
        ship: Ship { kind: ShipKind::Fighter },
        size: FleetSize(12),
        owner: Owner(1),
    }];
    let mut queue2 = FleetsToSpawn(vec![]);
    let mut status2 = BotTurnStatus { current: 1, last_colony_ship_spawned: vec![0, 1] };
    run_bots_turn(&mut universe2, &mut fleets2, &mut queue2, &mut status2, &turns);
    // Both candidates are enemy-owned; the closer one wins for a big fleet.
    assert_eq!(fleets2[0].order, Order::Move { from: 0, to: 1, step: 0 });
}
