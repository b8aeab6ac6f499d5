//! The bot decision module.
//!
//! Once per turn, after the player's turn has resolved, each bot retargets
//! every idle fleet it owns toward the star its rating function likes best,
//! and decides whether to commission a colony ship or a randomly sized
//! fighter squadron.
use vstd::prelude::*;
use crate::galaxy::{Position, Star};
use crate::fleet::{Fleet, FleetSize, FleetsToSpawn, Order, Owner, Ship, ShipKind, fleet_wf,
    fleets_wf, fleets_credit_cost, fleets_resource_cost, lemma_fleets_cost_push, travel_time,
    turns_between};
use crate::universe::{StarState, Universe};
use crate::turns::Turns;
use crate::rng::{rand_below, rand_range};

verus! {

/// Which bot moves next, and when each bot last launched a colony ship.
pub struct BotTurnStatus {
    pub current: usize,
    pub last_colony_ship_spawned: Vec<u32>,
}

/// Rewind the bot cursor to the first non-human player.
pub fn start_bots(status: &mut BotTurnStatus)
    ensures
        final(status).current == 1,
        final(status).last_colony_ship_spawned == old(status).last_colony_ship_spawned,
{
    status.current = 1;
}

/// How attractive a star is as a colony target, lower is better: the travel
/// time, plus a penalty for stars the bot already owns, a near-infinite
/// penalty for enemy-owned stars, a small penalty for unexplored stars, and
/// a climate surcharge on known uninhabited stars.
pub open spec fn spec_rate_colony(
    player: int,
    good: Star,
    from: Position,
    state: StarState,
    rating: Star,
) -> int {
    travel_time(from, rating.position) + match state {
        StarState::Owned(i) => if i == player {
            500int
        } else {
            500000int
        },
        StarState::Unknown => 100int,
        StarState::Uninhabited => (if good.color != rating.color {
            15int
        } else {
            0int
        }) + (if good.size != rating.size {
            15int
        } else {
            0int
        }),
    }
}

/// How attractive a star is as a fighter target, lower is better: enemy
/// stars are worth contesting only for fleets of at least ten ships.
pub open spec fn spec_rate_fighter(
    player: int,
    from: Position,
    fleet_size: u32,
    state: StarState,
    rating: Star,
) -> int {
    travel_time(from, rating.position) + match state {
        StarState::Owned(i) => if i == player {
            500int
        } else if fleet_size < 10 {
            500000int
        } else {
            50int
        },
        StarState::Unknown => 50int,
        StarState::Uninhabited => 100int,
    }
}

/// Colony-ship rating of one candidate star.
pub fn rate_star_colony(
    player: usize,
    good: &Star,
    from: Position,
    state: StarState,
    rating: &Star,
) -> (r: u32)
    requires
        from.in_bounds(),
        rating.wf(),
    ensures
        r == spec_rate_colony(player as int, *good, from, state, *rating),
{
    let base = turns_between(from, rating.position);
    proof {
        crate::fleet::lemma_travel_time_basics(from, rating.position);
    }
    base + match state {
        StarState::Owned(i) => if i == player {
            500
        } else {
            500000
        },
        StarState::Unknown => 100,
        StarState::Uninhabited => {
            let c: u32 = if good.color != rating.color {
                15
            } else {
                0
            };
            let s: u32 = if good.size != rating.size {
                15
            } else {
                0
            };
            c + s
        },
    }
}

/// Fighter rating of one candidate star.
pub fn rate_star_fighter(
    player: usize,
    from: Position,
    fleet_size: &FleetSize,
    state: StarState,
    rating: &Star,
) -> (r: u32)
    requires
        from.in_bounds(),
        rating.wf(),
    ensures
        r == spec_rate_fighter(player as int, from, fleet_size.0, state, *rating),
{
    let base = turns_between(from, rating.position);
    proof {
        crate::fleet::lemma_travel_time_basics(from, rating.position);
    }
    base + match state {
        StarState::Owned(i) => if i == player {
            500
        } else if fleet_size.0 < 10 {
            500000
        } else {
            50
        },
        StarState::Unknown => 50,
        StarState::Uninhabited => 100,
    }
}

/// The rating the bot gives star `s` for a fleet at `from_star`.
pub open spec fn spec_rating(u: Universe, bot: int, kind: ShipKind, size: u32, from_star: int, s: int) -> int {
    let good = u.galaxy@[u.players@[bot].start as int];
    let from = u.galaxy@[from_star].position;
    let state = u.players@[bot].vision@[s];
    match kind {
        ShipKind::Colony => spec_rate_colony(bot, good, from, state, u.galaxy@[s]),
        ShipKind::Fighter => spec_rate_fighter(bot, from, size, state, u.galaxy@[s]),
    }
}

/// The first star among the first `n`, other than `from_star`, with the
/// lowest rating; `-1` when there is none.
pub open spec fn spec_best_target(
    u: Universe,
    bot: int,
    kind: ShipKind,
    size: u32,
    from_star: int,
    n: int,
) -> int
    decreases n,
{
    if n <= 0 {
        -1
    } else {
        let prev = spec_best_target(u, bot, kind, size, from_star, n - 1);
        if n - 1 == from_star {
            prev
        } else if prev == -1 {
            n - 1
        } else if spec_rating(u, bot, kind, size, from_star, n - 1) < spec_rating(
            u,
            bot,
            kind,
            size,
            from_star,
            prev,
        ) {
            n - 1
        } else {
            prev
        }
    }
}

/// The best target is a real star index unless every candidate was the
/// fleet's own star.
proof fn lemma_best_target_range(
    u: Universe,
    bot: int,
    kind: ShipKind,
    size: u32,
    from_star: int,
    n: int,
)
    ensures
        -1 <= spec_best_target(u, bot, kind, size, from_star, n) < n || n <= 0,
        n > 0 ==> -1 <= spec_best_target(u, bot, kind, size, from_star, n) < n,
        spec_best_target(u, bot, kind, size, from_star, n) == -1 ==> (n <= 0 || (n == 1
            && from_star == 0)),
    decreases n,
{
    if n > 0 {
        lemma_best_target_range(u, bot, kind, size, from_star, n - 1);
    }
}

/// The target the bot sends an idle fleet at `from_star` to: the star with
/// the lowest rating, earliest index winning ties.
fn best_target(u: &Universe, bot: usize, kind: ShipKind, size: u32, from_star: usize) -> (r:
    usize)
    requires
        u.wf_core(),
        bot < u.n_players(),
        from_star < u.n_stars(),
        u.n_stars() >= 2,
    ensures
        r == spec_best_target(*u, bot as int, kind, size, from_star as int, u.n_stars()),
        r < u.n_stars(),
{
    let n = u.galaxy.len();
    let good_idx = u.players[bot].start;
    let mut best: usize = if from_star == 0 {
        1
    } else {
        0
    };
    let mut best_rate: u32 = 0;
    let mut started = false;
    let mut s: usize = 0;
    while s < n
        invariant
            u.wf_core(),
            bot < u.n_players(),
            from_star < u.n_stars(),
            u.n_stars() >= 2,
            n == u.n_stars(),
            s <= n,
            good_idx == u.players@[bot as int].start,
            !started ==> spec_best_target(*u, bot as int, kind, size, from_star as int, s as int)
                == -1,
            started ==> best < n && best
                == spec_best_target(*u, bot as int, kind, size, from_star as int, s as int)
                && best_rate == spec_rating(*u, bot as int, kind, size, from_star as int,
            best as int),
        decreases n - s,
    {
        if s != from_star {
            let rate: u32 = match kind {
                ShipKind::Colony => rate_star_colony(
                    bot,
                    &u.galaxy[good_idx],
                    u.galaxy[from_star].position,
                    u.players[bot].vision[s],
                    &u.galaxy[s],
                ),
                ShipKind::Fighter => rate_star_fighter(
                    bot,
                    u.galaxy[from_star].position,
                    &FleetSize(size),
                    u.players[bot].vision[s],
                    &u.galaxy[s],
                ),
            };
            if !started || rate < best_rate {
                best = s;
                best_rate = rate;
                started = true;
            }
        }
        s = s + 1;
    }
    proof {
        if !started {
            lemma_best_target_range(*u, bot as int, kind, size, from_star as int, n as int);
            assert(0 == from_star || 1 == from_star);
            assert(false);
        }
    }
    best
}

/// Ten thousand times roughly `e^(t/10)`: the fixed-point exponential the
/// fighter-squadron size distribution is measured against.
pub open spec fn exp10_spec(t: nat) -> int
    decreases t,
{
    if t == 0 {
        10000
    } else {
        exp10_spec((t - 1) as nat) * 110517 / 100000
    }
}

/// The fixed-point exponential grows by at least a thousand per step.
proof fn lemma_exp10_grows(t: nat)
    ensures
        exp10_spec(t) >= 10000 + 1000 * t,
    decreases t,
{
    if t > 0 {
        lemma_exp10_grows((t - 1) as nat);
        let a = exp10_spec((t - 1) as nat);
        assert(a * 110517 >= (a + 1051) * 100000) by (nonlinear_arith)
            requires a >= 10000;
        vstd::arithmetic::div_mod::lemma_div_is_ordered(
            (a + 1051) * 100000,
            a * 110517,
            100000,
        );
        vstd::arithmetic::div_mod::lemma_div_multiples_vanish(a + 1051, 100000);
    }
}

/// The fixed-point exponential never shrinks.
proof fn lemma_exp10_monotonic(t1: nat, t2: nat)
    requires
        t1 <= t2,
    ensures
        exp10_spec(t1) <= exp10_spec(t2),
    decreases t2,
{
    if t1 < t2 {
        lemma_exp10_monotonic(t1, (t2 - 1) as nat);
        lemma_exp10_grows((t2 - 1) as nat);
        let a = exp10_spec((t2 - 1) as nat);
        assert(a * 100000 <= a * 110517) by {
            vstd::arithmetic::mul::lemma_mul_inequality(100000, 110517, a);
            vstd::arithmetic::mul::lemma_mul_is_commutative(a, 100000);
            vstd::arithmetic::mul::lemma_mul_is_commutative(a, 110517);
        }
        vstd::arithmetic::div_mod::lemma_div_is_ordered(a * 100000, a * 110517, 100000);
        vstd::arithmetic::div_mod::lemma_div_multiples_vanish(a, 100000);
    }
}

/// Ten times the natural logarithm of `nv`, rounded down: the largest `t`
/// with `e^(t/10) <= nv`, as measured by the fixed-point exponential.
fn ln10_floor(nv: u32) -> (t: u32)
    requires
        nv >= 1,
    ensures
        exp10_spec(t as nat) <= nv as int * 10000,
        t < 300 ==> nv as int * 10000 < exp10_spec((t + 1) as nat),
        t <= 300,
{
    let target: u64 = nv as u64 * 10000;
    let mut t: u32 = 0;
    let mut acc: u64 = 10000;
    while t < 300 && acc * 110517 / 100000 <= target
        invariant
            acc == exp10_spec(t as nat),
            10000 <= acc <= target,
            t <= 300,
            target == nv as u64 * 10000,
            nv >= 1,
        decreases 300 - t,
    {
        proof {
            lemma_exp10_grows((t + 1) as nat);
        }
        acc = acc * 110517 / 100000;
        t = t + 1;
    }
    t
}

/// Does the bot's vision hold any star it does not believe owned?
pub open spec fn vision_has_unowned(u: Universe, bot: int) -> bool {
    exists|j: int|
        0 <= j < u.players@[bot].vision@.len() && !((#[trigger] u.players@[bot].vision@[j])
            is Owned)
}

/// Does the bot own any star?
pub open spec fn bot_owns_any(u: Universe, bot: int) -> bool {
    exists|s: int| 0 <= s < u.n_stars() && (#[trigger] u.star_details@[s]).owner == bot
}

/// Whether the bot commissions a colony ship this turn: its colonies must
/// earn, it must afford the ship, it must not have launched one within the
/// last two turns, and its vision must hold somewhere to go.  (A bot with
/// no colony at all earns nothing, so the revenue test already fails.)
pub open spec fn colony_spawn_cond(u: Universe, bot: int, count: u32, last: u32) -> bool {
    &&& u.spec_player_revenue(bot) > 200
    &&& u.players@[bot].savings > 1000
    &&& u.players@[bot].resources > 1000
    &&& count - last > 2
    &&& vision_has_unowned(u, bot)
    &&& bot_owns_any(u, bot)
}

/// One bot's whole turn: every idle fleet it owns is retargeted to the star
/// its rating function likes best, and the bot may commission one colony
/// ship and one randomly sized fighter squadron, paying for them at once.
pub fn run_bots_turn(
    universe: &mut Universe,
    fleets: &mut Vec<Fleet>,
    fleets_to_spawn: &mut FleetsToSpawn,
    status: &mut BotTurnStatus,
    turns: &Turns,
)
    requires
        old(universe).wf_at(turns.count as int),
        fleets_wf(old(fleets)@, old(universe).galaxy@, old(universe).n_players()),
        1 <= old(status).current < old(universe).n_players(),
        old(status).last_colony_ship_spawned@.len() == old(universe).n_players(),
        old(status).last_colony_ship_spawned@[old(status).current as int] <= turns.count,
        old(universe).n_stars() >= 2,
        turns.count >= 1,
    ensures
        final(universe).wf_at(turns.count as int),
        final(universe).galaxy == old(universe).galaxy,
        final(universe).star_details == old(universe).star_details,
        final(universe).n_players() == old(universe).n_players(),
        fleets_wf(final(fleets)@, final(universe).galaxy@, final(universe).n_players()),
        final(fleets)@.len() == old(fleets)@.len(),
        // Retargeting: exactly the bot's idle fleets move, to the
        // lowest-rated star; every other fleet is untouched.
        forall|i: int|
            0 <= i < old(fleets)@.len() ==> {
                let f = #[trigger] old(fleets)@[i];
                if f.owner.0 == old(status).current && (f.order matches Order::Orbit(_)) {
                    final(fleets)@[i] == (Fleet {
                        order: Order::Move {
                            from: f.order->Orbit_0,
                            to: spec_best_target(
                                *old(universe),
                                old(status).current as int,
                                f.ship.kind,
                                f.size.0,
                                f.order->Orbit_0 as int,
                                old(universe).n_stars(),
                            ) as usize,
                            step: 0,
                        },
                        ..f
                    })
                } else {
                    final(fleets)@[i] == f
                }
            },
        final(status).current == old(status).current + 1,
        final(status).last_colony_ship_spawned@.len() == old(
            status,
        ).last_colony_ship_spawned@.len(),
        final(status).last_colony_ship_spawned@[old(status).current as int] <= turns.count,
        // Production: one colony ship exactly under the spawn condition,
        // plus at most one fighter squadron the bot could afford.
        old(fleets_to_spawn).0@.len() <= final(fleets_to_spawn).0@.len() <= old(
            fleets_to_spawn,
        ).0@.len() + 2,
        forall|i: int|
            0 <= i < old(fleets_to_spawn).0@.len() ==> final(fleets_to_spawn).0@[i] == old(
                fleets_to_spawn,
            ).0@[i],
        forall|i: int|
            old(fleets_to_spawn).0@.len() <= i < final(fleets_to_spawn).0@.len() ==> {
                let f = #[trigger] final(fleets_to_spawn).0@[i];
                &&& fleet_wf(f, final(universe).galaxy@, final(universe).n_players())
                &&& f.owner.0 == old(status).current
                &&& (f.order matches Order::Orbit(st) && old(universe).star_details@[
                    st as int
                ].owner == old(status).current)
            },
        (exists|i: int|
            old(fleets_to_spawn).0@.len() <= i < final(fleets_to_spawn).0@.len() && (
            #[trigger] final(fleets_to_spawn).0@[i]).ship.kind == ShipKind::Colony) <==>
            colony_spawn_cond(
            *old(universe),
            old(status).current as int,
            turns.count,
            old(status).last_colony_ship_spawned@[old(status).current as int],
        ),
        // Payments: the bot's account moves by exactly the cost of what was
        // commissioned, and nobody else's account moves.
        final(universe).players@[old(status).current as int].savings == old(universe).players@[
            old(status).current as int
        ].savings - fleets_credit_cost(
            final(fleets_to_spawn).0@.skip(old(fleets_to_spawn).0@.len() as int),
        ),
        final(universe).players@[old(status).current as int].resources
            == old(universe).players@[old(status).current as int].resources
            - fleets_resource_cost(
            final(fleets_to_spawn).0@.skip(old(fleets_to_spawn).0@.len() as int),
        ),
        forall|p: int|
            0 <= p < old(universe).n_players() && p != old(status).current
                ==> final(universe).players@[p] == old(universe).players@[p],
        final(universe).players@[old(status).current as int].start == old(universe).players@[
            old(status).current as int
        ].start,
        final(universe).players@[old(status).current as int].vision == old(universe).players@[
            old(status).current as int
        ].vision,
        final(universe).players@[old(status).current as int].name == old(universe).players@[
            old(status).current as int
        ].name,
        // The colony-ship cooldown is stamped exactly on commission.
        colony_spawn_cond(
            *old(universe),
            old(status).current as int,
            turns.count,
            old(status).last_colony_ship_spawned@[old(status).current as int],
        ) ==> final(status).last_colony_ship_spawned@[old(status).current as int]
            == turns.count,
        !colony_spawn_cond(
            *old(universe),
            old(status).current as int,
            turns.count,
            old(status).last_colony_ship_spawned@[old(status).current as int],
        ) ==> final(status).last_colony_ship_spawned@[old(status).current as int]
            == old(status).last_colony_ship_spawned@[old(status).current as int],
        forall|j: int|
            0 <= j < old(status).last_colony_ship_spawned@.len() && j != old(status).current
                ==> final(status).last_colony_ship_spawned@[j]
                == old(status).last_colony_ship_spawned@[j],
        // Every commissioned fighter squadron was affordable when it was
        // paid for, and its size bound grows with the logarithm of the turn
        // count.
        forall|i: int|
            old(fleets_to_spawn).0@.len() <= i < final(fleets_to_spawn).0@.len() && (
            #[trigger] final(fleets_to_spawn).0@[i]).ship.kind == ShipKind::Fighter ==> {
                let f = final(fleets_to_spawn).0@[i];
                let colony_built = colony_spawn_cond(
                    *old(universe),
                    old(status).current as int,
                    turns.count,
                    old(status).last_colony_ship_spawned@[old(status).current as int],
                );
                let ccost: int = if colony_built {
                    1000int
                } else {
                    0int
                };
                let rcost: int = if colony_built {
                    500int
                } else {
                    0int
                };
                &&& 1 <= f.size.0 <= 301
                &&& exp10_spec((f.size.0 - 1) as nat) <= turns.count as int * 10000
                &&& f.size.0 as int * 100 < old(universe).players@[
                    old(status).current as int
                ].savings - ccost
                &&& f.size.0 as int * 100 < old(universe).players@[
                    old(status).current as int
                ].resources - rcost
            },
{
    let bot = status.current;
    let n = universe.galaxy.len();
    let ghost u0 = *universe;

    // Retarget every idle fleet of this bot.
    let mut i: usize = 0;
    while i < fleets.len()
        invariant
            universe.wf_at(turns.count as int),
            *universe == u0,
            bot < universe.n_players(),
            n == universe.n_stars(),
            n >= 2,
            i <= fleets@.len(),
            fleets@.len() == old(fleets)@.len(),
            fleets_wf(fleets@, universe.galaxy@, universe.n_players()),
            forall|j: int| i <= j < fleets@.len() ==> fleets@[j] == old(fleets)@[j],
            forall|j: int|
                0 <= j < i ==> {
                    let f = #[trigger] old(fleets)@[j];
                    if f.owner.0 == bot && (f.order matches Order::Orbit(_)) {
                        fleets@[j] == (Fleet {
                            order: Order::Move {
                                from: f.order->Orbit_0,
                                to: spec_best_target(
                                    u0,
                                    bot as int,
                                    f.ship.kind,
                                    f.size.0,
                                    f.order->Orbit_0 as int,
                                    u0.n_stars(),
                                ) as usize,
                                step: 0,
                            },
                            ..f
                        })
                    } else {
                        fleets@[j] == f
                    }
                },
        decreases fleets@.len() - i,
    {
        let f = fleets[i];
        if f.owner.0 == bot {
            if let Order::Orbit(k) = f.order {
                let to = best_target(universe, bot, f.ship.kind, f.size.0, k);
                proof {
                    crate::fleet::lemma_travel_time_basics(
                        universe.galaxy@[k as int].position,
                        universe.galaxy@[to as int].position,
                    );
                }
                fleets[i] = Fleet {
                    order: Order::Move { from: k, to, step: 0 },
                    ship: f.ship,
                    size: f.size,
                    owner: f.owner,
                };
            }
        }
        i = i + 1;
    }

    // The stars the bot could build at.
    let mut owned: Vec<usize> = Vec::new();
    let mut s: usize = 0;
    while s < n
        invariant
            universe.wf_at(turns.count as int),
            *universe == u0,
            bot < universe.n_players(),
            n == universe.n_stars(),
            s <= n,
            forall|k: int|
                0 <= k < owned@.len() ==> (#[trigger] owned@[k]) < n
                    && universe.star_details@[owned@[k] as int].owner == bot,
            owned@.len() == 0 ==> forall|j: int|
                0 <= j < s ==> (#[trigger] universe.star_details@[j]).owner != bot,
        decreases n - s,
    {
        if universe.star_details[s].owner == bot {
            owned.push(s);
        }
        s = s + 1;
    }
    proof {
        if owned@.len() > 0 {
            assert(bot_owns_any(u0, bot as int)) by {
                assert(u0.star_details@[owned@[0] as int].owner == bot);
            }
        }
    }

    // Is there anywhere in the bot's vision left to claim?
    let mut has_free = false;
    let mut j: usize = 0;
    let nv = universe.players[bot].vision.len();
    while j < nv
        invariant
            universe.wf_at(turns.count as int),
            *universe == u0,
            bot < universe.n_players(),
            nv == universe.players@[bot as int].vision@.len(),
            j <= nv,
            has_free ==> vision_has_unowned(u0, bot as int),
            !has_free ==> forall|k: int|
                0 <= k < j ==> (#[trigger] universe.players@[bot as int].vision@[k]) is Owned,
        decreases nv - j,
    {
        match universe.players[bot].vision[j] {
            StarState::Owned(_) => {},
            _ => {
                has_free = true;
            },
        }
        j = j + 1;
    }

    let rev = universe.player_revenue(bot);
    let last = status.last_colony_ship_spawned[bot];
    let ghost spawn0 = fleets_to_spawn.0@;
    let cond = rev > 200 && universe.players[bot].savings > 1000 && universe.players[
        bot
    ].resources > 1000 && turns.count - last > 2 && has_free && owned.len() > 0;
    proof {
        if !cond && colony_spawn_cond(u0, bot as int, turns.count, last) {
            assert(owned@.len() > 0) by {
                if owned@.len() == 0 {
                    let w = choose|s: int|
                        0 <= s < u0.n_stars() && u0.star_details@[s].owner == bot;
                    assert(u0.star_details@[w].owner != bot);
                }
            }
            assert(has_free) by {
                if !has_free {
                    let w = choose|j: int|
                        0 <= j < u0.players@[bot as int].vision@.len() && !(u0.players@[
                            bot as int
                        ].vision@[j] is Owned);
                    assert(u0.players@[bot as int].vision@[w] is Owned);
                }
            }
            assert(false);
        }
        assert(cond == colony_spawn_cond(u0, bot as int, turns.count, last));
    }
    if cond {
        let pick = owned[rand_below(owned.len() as u64) as usize];
        fleets_to_spawn.0.push(
            Fleet {
                order: Order::Orbit(pick),
                ship: Ship { kind: ShipKind::Colony },
                size: FleetSize(1),
                owner: Owner(bot),
            },
        );
        universe.players[bot].savings = universe.players[bot].savings - 1000;
        universe.players[bot].resources = universe.players[bot].resources - 500;
        status.last_colony_ship_spawned[bot] = turns.count;
    }
    let ghost spawn1 = fleets_to_spawn.0@;

    // A fighter squadron of random size, growing with the game's length.
    let lnt = ln10_floor(turns.count);
    let nb = rand_range(1, lnt as u64 + 2) as u32;
    let fc = nb as u64 * 100;
    let fighter_built = universe.players[bot].savings > fc as i64 && universe.players[
        bot
    ].resources > fc && owned.len() > 0;
    if fighter_built {
        let pick = owned[rand_below(owned.len() as u64) as usize];
        fleets_to_spawn.0.push(
            Fleet {
                order: Order::Orbit(pick),
                ship: Ship { kind: ShipKind::Fighter },
                size: FleetSize(nb),
                owner: Owner(bot),
            },
        );
        universe.players[bot].savings = universe.players[bot].savings - fc as i64;
        universe.players[bot].resources = universe.players[bot].resources - fc;
    }

    proof {
        let base = spawn0.len() as int;
        let fin = fleets_to_spawn.0@;
        let appended = fin.skip(base);
        if cond {
            assert(fin[base].ship.kind == ShipKind::Colony);
        } else {
            assert(forall|i: int|
                base <= i < fin.len() ==> (#[trigger] fin[i]).ship.kind == ShipKind::Fighter);
        }
        // The batch the bot paid for, case by case.
        lemma_fleets_cost_push(spawn0, spawn1.last());
        if fighter_built {
            lemma_fleets_cost_push(spawn1, fin.last());
        }
        if cond {
            if fighter_built {
                assert(appended =~= Seq::empty().push(spawn1.last()).push(fin.last()));
                lemma_fleets_cost_push(Seq::empty(), spawn1.last());
                lemma_fleets_cost_push(Seq::empty().push(spawn1.last()), fin.last());
            } else {
                assert(appended =~= Seq::empty().push(spawn1.last()));
                lemma_fleets_cost_push(Seq::empty(), spawn1.last());
            }
        } else {
            if fighter_built {
                assert(appended =~= Seq::empty().push(fin.last()));
                lemma_fleets_cost_push(Seq::empty(), fin.last());
            } else {
                assert(appended =~= Seq::empty());
            }
        }
        // The drawn squadron size is bounded by the fixed-point logarithm.
        if fighter_built {
            lemma_exp10_monotonic((nb - 1) as nat, lnt as nat);
        }
    }
    status.current = status.current + 1;
}

} // verus!
