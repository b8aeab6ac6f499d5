use star_turns::fleet::{Fleet, FleetSize, Order, Owner, Ship, ShipKind, turns_between};
use star_turns::galaxy::{Position, Star, StarColor, StarSize};
use star_turns::turns::{LoseCondition, Message, Turns, resolve_player_turn, sort_messages};
use star_turns::universe::{NO_OWNER, Player, StarDetails, StarState, Universe};

fn star(x: i64, y: i64, color: StarColor, size: StarSize, name: &str) -> Star {
    Star { position: Position { x, y }, size, color, start: None, name: name.to_string() }
}

fn player(start: usize, n_stars: usize, name: &str) -> Player {
    Player {
        start,
        vision: vec![StarState::Unknown; n_stars],
        savings: 1000,
        resources: 1000,
        first_colony_done: false,
        name: name.to_string(),
    }
}

fn free_details(resources: u64) -> StarDetails {
    StarDetails { population: 0, resources, owner: NO_OWNER, owned_since: u32::MAX }
}

/// Six stars; the human starts at star 0 (Blue Subgiant), a bot at star 5.
fn scenario_universe() -> Universe {
    let galaxy = vec![
        star(0, 0, StarColor::Blue, StarSize::Subgiant, "Aldebaran"),
        star(40, 0, StarColor::Orange, StarSize::Dwarf, "Bellatrix"),
        star(0, 40, StarColor::Yellow, StarSize::Dwarf, "Capella"),
        star(30, 30, StarColor::Blue, StarSize::Subgiant, "Deneb"),
        star(-40, 0, StarColor::Orange, StarSize::Giant, "Electra"),
        star(-30, -30, StarColor::Orange, StarSize::Dwarf, "Fomalhaut"),
    ];
    let n = galaxy.len();
    let mut human = player(0, n, "You");
    human.vision[0] = StarState::Owned(0);
    let mut bot = player(5, n, "Violetta");
    bot.vision[5] = StarState::Owned(1);
    let mut details: Vec<StarDetails> = (0..n).map(|_| free_details(8000)).collect();
    details[0] = StarDetails { population: 7500, resources: 12000, owner: 0, owned_since: 0 };
    details[5] = StarDetails { population: 7500, resources: 12000, owner: 1, owned_since: 0 };
    Universe { galaxy, players: vec![human, bot], star_details: details }
}

fn colony(owner: usize, order: Order) -> Fleet {
    Fleet { order, ship: Ship { kind: ShipKind::Colony }, size: FleetSize(1), owner: Owner(owner) }
}

fn fighters(owner: usize, size: u32, order: Order) -> Fleet {
    Fleet { order, ship: Ship { kind: ShipKind::Fighter }, size: FleetSize(size), owner: Owner(owner) }
}

#[test]
fn colony_ship_founds_colony() {
    // The human sends a colony ship from star 0 to the uninhabited star 3;
    // after the travel time it founds the colony.
    let mut u = scenario_universe();
    let travel = turns_between(u.galaxy[0].position, u.galaxy[3].position);
    assert!(travel >= 1);
    let mut fleets = vec![colony(0, Order::Move { from: 0, to: 3, step: 0 })];
    let mut turns = Turns { count: 0, messages: vec![] };
    for _ in 0..travel {
        resolve_player_turn(&mut u, &mut fleets, &mut turns);
    }
    assert_eq!(u.star_details[3].owner, 0);
    assert_eq!(u.star_details[3].population, 1000);
    assert_eq!(u.star_details[3].owned_since, travel - 1);
    assert!(turns.messages.iter().any(|m| matches!(
        m,
        Message::ColonyFounded { index: 3, star_name } if star_name.as_str() == "Deneb"
    )));
    // The colony ship is consumed whole on arrival.
    assert!(fleets.is_empty());
    // The human's vision now records the new colony.
    assert_eq!(u.players[0].vision[3], StarState::Owned(0));
}

#[test]
fn fighters_overwhelm_population() {
    // A fighter fleet of five arrives at a star defended by an enemy
    // population of 35.00: wiping it out consumes four fighters (35/10
    // rounded up), the star becomes unowned, and one fighter survives.
    let mut u = scenario_universe();
    u.star_details[1] = StarDetails { population: 3500, resources: 8000, owner: 1, owned_since: 0 };
    let travel = turns_between(u.galaxy[0].position, u.galaxy[1].position);
    assert!(travel >= 1);
    // Start one step short of arrival so the fight happens on this call.
    let mut fleets = vec![fighters(0, 5, Order::Move { from: 0, to: 1, step: travel - 1 })];
    let mut turns = Turns { count: 0, messages: vec![] };
    resolve_player_turn(&mut u, &mut fleets, &mut turns);
    assert_eq!(u.star_details[1].population, 0);
    assert_eq!(u.star_details[1].owner, NO_OWNER);
    assert_eq!(fleets.len(), 1);
    assert_eq!(fleets[0].size.0, 1);
    assert_eq!(fleets[0].order, Order::Orbit(1));
    // The fight shows up as one aggregated message naming the star.
    assert!(turns.messages.iter().any(|m| matches!(
        m,
        Message::Fight { index: 1, attacker: true, ship_lost: 4, population_killed: 3500, .. }
    )));
}

#[test]
fn fighters_lose_to_large_population() {
    // Three fighters against 35.00 population: the fleet is consumed and
    // kills 10.00 per ship.
    let mut u = scenario_universe();
    u.star_details[1] = StarDetails { population: 3500, resources: 8000, owner: 1, owned_since: 0 };
    let travel = turns_between(u.galaxy[0].position, u.galaxy[1].position);
    let mut fleets = vec![fighters(0, 3, Order::Move { from: 0, to: 1, step: travel - 1 })];
    let mut turns = Turns { count: 0, messages: vec![] };
    resolve_player_turn(&mut u, &mut fleets, &mut turns);
    assert_eq!(u.star_details[1].population, 500);
    assert_eq!(u.star_details[1].owner, 1);
    assert!(fleets.is_empty());
}

#[test]
fn fighter_combat_conserves_ships() {
    // Five against three at one star: each side loses exactly three, the
    // smaller side's whole count; the side at zero leaves the collection.
    let mut u = scenario_universe();
    let mut fleets = vec![
        fighters(0, 5, Order::Orbit(2)),
        fighters(1, 3, Order::Orbit(2)),
    ];
    let mut turns = Turns { count: 0, messages: vec![] };
    resolve_player_turn(&mut u, &mut fleets, &mut turns);
    assert_eq!(fleets.len(), 1);
    assert_eq!(fleets[0].owner, Owner(0));
    assert_eq!(fleets[0].size.0, 2);
}

#[test]
fn colony_ship_dies_to_enemy_fleet() {
    // A colony ship arriving where an enemy fighter stands never survives.
    let mut u = scenario_universe();
    let mut fleets = vec![
        fighters(1, 2, Order::Orbit(1)),
        colony(0, Order::Move {
            from: 0,
            to: 1,
            step: turns_between(u.galaxy[0].position, u.galaxy[1].position) - 1,
        }),
    ];
    let mut turns = Turns { count: 0, messages: vec![] };
    resolve_player_turn(&mut u, &mut fleets, &mut turns);
    assert_eq!(fleets.len(), 1);
    assert_eq!(fleets[0].owner, Owner(1));
    assert_eq!(u.star_details[1].owner, NO_OWNER);
    // The human learned who holds the contested star.
    assert_eq!(u.players[0].vision[1], StarState::Owned(1));
}

#[test]
fn messages_sorted_by_category() {
    // A turn that explores, fights, founds a colony, and warns about
    // revenue produces messages sorted by the fixed category order.
    let mut u = scenario_universe();
    u.star_details[1] = StarDetails { population: 3500, resources: 8000, owner: 1, owned_since: 0 };
    let t1 = turns_between(u.galaxy[0].position, u.galaxy[1].position);
    let t3 = turns_between(u.galaxy[0].position, u.galaxy[3].position);
    let mut fleets = vec![
        fighters(0, 5, Order::Move { from: 0, to: 1, step: t1 - 1 }),
        colony(0, Order::Move { from: 0, to: 3, step: t3 - 1 }),
    ];
    let mut turns = Turns { count: 2, messages: vec![] };
    resolve_player_turn(&mut u, &mut fleets, &mut turns);
    let orders: Vec<u32> = turns.messages.iter().map(|m| m.order()).collect();
    for w in orders.windows(2) {
        assert!(w[0] <= w[1], "messages out of order: {:?}", orders);
    }
    assert!(turns.messages.iter().any(|m| matches!(m, Message::Turn(3))));
}

#[test]
fn sort_messages_orders_and_keeps_everything() {
    let mut msgs = vec![
        Message::Story { title: "t".to_string(), details: "d".to_string(), order: 0, index: None },
        Message::Win,
        Message::ColonyFounded { star_name: "x".to_string(), index: 1 },
        Message::Turn(7),
        Message::StarExplored {
            star_name: "y".to_string(),
            color_condition: true,
            size_condition: false,
            index: 2,
        },
    ];
    sort_messages(&mut msgs);
    assert_eq!(msgs.len(), 5);
    assert!(matches!(msgs[0], Message::Turn(7)));
    assert!(matches!(msgs[1], Message::StarExplored { .. }));
    assert!(matches!(msgs[2], Message::ColonyFounded { .. }));
    assert!(matches!(msgs[3], Message::Win));
    assert!(matches!(msgs[4], Message::Story { .. }));
}

fn terminal_messages(turns: &Turns) -> (bool, bool, bool) {
    let win = turns.messages.iter().any(|m| matches!(m, Message::Win));
    let lose_colonies = turns.messages.iter().any(|m| matches!(
        m,
        Message::Lose { condition: LoseCondition::NoMoreColonies }
    ));
    let lose_deficit = turns.messages.iter().any(|m| matches!(
        m,
        Message::Lose { condition: LoseCondition::Deficit }
    ));
    (win, lose_colonies, lose_deficit)
}

#[test]
fn outcome_win_when_enemies_gone() {
    let mut u = scenario_universe();
    u.star_details[5] = free_details(8000);
    let mut fleets = vec![];
    let mut turns = Turns { count: 0, messages: vec![] };
    resolve_player_turn(&mut u, &mut fleets, &mut turns);
    assert_eq!(terminal_messages(&turns), (true, false, false));
}

#[test]
fn outcome_lose_without_colonies_beats_deficit() {
    // With no colonies at all, the no-more-colonies loss fires alone even
    // if the player is also deep in debt.
    let mut u = scenario_universe();
    u.star_details[0] = free_details(8000);
    u.players[0].savings = -50_000;
    let mut fleets = vec![];
    let mut turns = Turns { count: 0, messages: vec![] };
    resolve_player_turn(&mut u, &mut fleets, &mut turns);
    assert_eq!(terminal_messages(&turns), (false, true, false));
}

#[test]
fn outcome_lose_on_deficit() {
    let mut u = scenario_universe();
    u.players[0].savings = -20_000;
    let mut fleets = vec![];
    let mut turns = Turns { count: 0, messages: vec![] };
    resolve_player_turn(&mut u, &mut fleets, &mut turns);
    assert_eq!(terminal_messages(&turns), (false, false, true));
}

#[test]
fn outcome_none_while_game_is_open() {
    let mut u = scenario_universe();
    let mut fleets = vec![];
    let mut turns = Turns { count: 0, messages: vec![] };
    resolve_player_turn(&mut u, &mut fleets, &mut turns);
    assert_eq!(terminal_messages(&turns), (false, false, false));
    assert_eq!(turns.count, 1);
}

#[test]
fn first_turn_tells_the_story() {
    let mut u = scenario_universe();
    let mut fleets = vec![];
    let mut turns = Turns { count: 0, messages: vec![] };
    resolve_player_turn(&mut u, &mut fleets, &mut turns);
    // Turn 1 carries the tutorial story messages, in author order.
    let stories: Vec<u32> = turns
        .messages
        .iter()
        .filter_map(|m| match m {
            Message::Story { order, .. } => Some(*order),
            _ => None,
        })
        .collect();
    assert_eq!(stories, vec![0, 1, 1, 4]);
}

#[test]
fn moving_fleet_advances_one_step() {
    let mut u = scenario_universe();
    // Stars 0 and 2 sit 40 apart: two turns of travel.
    let t = turns_between(u.galaxy[0].position, u.galaxy[2].position);
    assert_eq!(t, 2);
    // A longer trip: star 3 sits farther out than a single step.
    let far = turns_between(u.galaxy[1].position, u.galaxy[4].position);
    assert!(far >= 1);
    let mut fleets = vec![fighters(0, 2, Order::Move { from: 1, to: 4, step: 0 })];
    let mut turns = Turns { count: 0, messages: vec![] };
    resolve_player_turn(&mut u, &mut fleets, &mut turns);
    if far > 1 {
        assert_eq!(fleets[0].order, Order::Move { from: 1, to: 4, step: 1 });
    } else {
        assert_eq!(fleets[0].order, Order::Orbit(4));
    }
}

#[test]
fn sort_keeps_equal_categories_in_order() {
    // Two fights stay in their original relative order after sorting.
    let mut msgs = vec![
        Message::Turn(2),
        Message::Fight {
            index: 4,
            star_name: "First".to_string(),
            attacker: true,
            ship_lost: 1,
            ship_destroyed: 0,
            population_killed: 0,
            player_name: "Violetta".to_string(),
        },
        Message::Fight {
            index: 9,
            star_name: "Second".to_string(),
            attacker: false,
            ship_lost: 2,
            ship_destroyed: 0,
            population_killed: 0,
            player_name: "Figaro".to_string(),
        },
    ];
    sort_messages(&mut msgs);
    assert!(matches!(msgs[1], Message::Fight { index: 4, .. }));
    assert!(matches!(msgs[2], Message::Fight { index: 9, .. }));
}

#[test]
fn population_combat_tie_consumes_whole_fleet() {
    // Four fighters against exactly 40.00 population: the population is
    // wiped out, the star falls unowned, and no fighter survives.
    let mut u = scenario_universe();
    u.star_details[1] = StarDetails { population: 4000, resources: 8000, owner: 1, owned_since: 0 };
    let travel = turns_between(u.galaxy[0].position, u.galaxy[1].position);
    let mut fleets = vec![fighters(0, 4, Order::Move { from: 0, to: 1, step: travel - 1 })];
    let mut turns = Turns { count: 0, messages: vec![] };
    resolve_player_turn(&mut u, &mut fleets, &mut turns);
    assert_eq!(u.star_details[1].population, 0);
    assert_eq!(u.star_details[1].owner, NO_OWNER);
    assert!(fleets.is_empty());
}

#[test]
fn colony_destroyed_message_reaches_the_defender() {
    // A bot fleet wipes out the human's colony: the human reads about it.
    let mut u = scenario_universe();
    u.star_details[2] = StarDetails { population: 1000, resources: 8000, owner: 0, owned_since: 0 };
    let travel = turns_between(u.galaxy[5].position, u.galaxy[2].position);
    let mut fleets = vec![fighters(1, 10, Order::Move { from: 5, to: 2, step: travel - 1 })];
    let mut turns = Turns { count: 0, messages: vec![] };
    resolve_player_turn(&mut u, &mut fleets, &mut turns);
    assert_eq!(u.star_details[2].owner, NO_OWNER);
    assert!(turns.messages.iter().any(|m| matches!(
        m,
        Message::ColonyDestroyed { index: 2, .. }
    )));
}
