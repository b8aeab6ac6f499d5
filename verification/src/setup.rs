//! Turning a generated galaxy into a running game.
//!
//! Each player is assigned the habitable (non-giant) star nearest to a
//! caller-chosen target point, seeded with population and resources; every
//! other star starts unowned with a random resource stock.  Every player
//! begins with one colony ship in orbit of their starting star.
use vstd::prelude::*;
use vstd::seq_lib::group_to_multiset_ensures;
use vstd::multiset::Multiset;
use crate::galaxy::{Position, Star, StarSize, dist2};
use crate::fleet::{Fleet, FleetSize, FleetsToSpawn, Order, Owner, Ship, ShipKind, fleets_wf};
use crate::turns::Turns;
use crate::universe::{MAX_STARS, NO_OWNER, Player, StarDetails, StarState, Universe};
use crate::rng::{rand_below, rand_range};

verus! {

/// The first star among the first `n` that is not a giant and is nearest
/// to `target`; `-1` when every star is a giant.
pub open spec fn spec_nearest_habitable(galaxy: Seq<Star>, target: Position, n: int) -> int
    decreases n,
{
    if n <= 0 {
        -1
    } else {
        let prev = spec_nearest_habitable(galaxy, target, n - 1);
        if galaxy[n - 1].size == StarSize::Giant {
            prev
        } else if prev == -1 {
            n - 1
        } else if dist2(galaxy[n - 1].position, target) < dist2(galaxy[prev].position, target) {
            n - 1
        } else {
            prev
        }
    }
}

/// The nearest habitable star is a real index as soon as one exists.
proof fn lemma_nearest_habitable_range(galaxy: Seq<Star>, target: Position, n: int)
    ensures
        n > 0 ==> -1 <= spec_nearest_habitable(galaxy, target, n) < n,
        spec_nearest_habitable(galaxy, target, n) == -1 ==> forall|j: int|
            0 <= j < n ==> (#[trigger] galaxy[j].size) == StarSize::Giant,
    decreases n,
{
    if n > 0 {
        lemma_nearest_habitable_range(galaxy, target, n - 1);
    }
}

/// The habitable star nearest to `target`, earliest index winning ties.
fn nearest_habitable_star(galaxy: &Vec<Star>, target: Position) -> (r: usize)
    requires
        forall|i: int| 0 <= i < galaxy@.len() ==> (#[trigger] galaxy@[i]).wf(),
        target.in_bounds(),
        exists|i: int|
            0 <= i < galaxy@.len() && (#[trigger] galaxy@[i].size) != StarSize::Giant,
    ensures
        r < galaxy@.len(),
        r == spec_nearest_habitable(galaxy@, target, galaxy@.len() as int),
{
    let n = galaxy.len();
    let mut best: usize = 0;
    let mut best_d2: u64 = 0;
    let mut started = false;
    let mut i: usize = 0;
    while i < n
        invariant
            forall|j: int| 0 <= j < galaxy@.len() ==> (#[trigger] galaxy@[j]).wf(),
            target.in_bounds(),
            n == galaxy@.len(),
            i <= n,
            !started ==> spec_nearest_habitable(galaxy@, target, i as int) == -1,
            started ==> best < n && best == spec_nearest_habitable(galaxy@, target, i as int)
                && best_d2 == dist2(galaxy@[best as int].position, target),
        decreases n - i,
    {
        if !matches!(galaxy[i].size, StarSize::Giant) {
            let d2 = crate::galaxy::dist2_exec(galaxy[i].position, target);
            if !started || d2 < best_d2 {
                best = i;
                best_d2 = d2;
                started = true;
            }
        }
        i = i + 1;
    }
    proof {
        if !started {
            lemma_nearest_habitable_range(galaxy@, target, n as int);
            let w = choose|j: int|
                0 <= j < galaxy@.len() && galaxy@[j].size != StarSize::Giant;
            assert(galaxy@[w].size == StarSize::Giant);
            assert(false);
        }
    }
    best
}

/// A uniformly drawn reordering of `src`: the result holds exactly the
/// same elements.
pub fn shuffled<T>(src: Vec<T>) -> (out: Vec<T>)
    ensures
        out@.to_multiset() == src@.to_multiset(),
        out@.len() == src@.len(),
{
    broadcast use group_to_multiset_ensures;

    let mut rest = src;
    let ghost src0 = rest@;
    let mut out: Vec<T> = Vec::new();
    while rest.len() > 0
        invariant
            out@.len() + rest@.len() == src0.len(),
            out@.to_multiset().add(rest@.to_multiset()) == src0.to_multiset(),
        decreases rest@.len(),
    {
        let k = rand_below(rest.len() as u64) as usize;
        let ghost before = rest@;
        let v = rest.remove(k);
        let ghost out_before = out@;
        out.push(v);
        proof {
            broadcast use group_to_multiset_ensures;

            before.remove_ensures(k as int);
            assert(rest@.to_multiset() =~= before.to_multiset().remove(v));
            assert(out@.to_multiset() =~= out_before.to_multiset().insert(v));
            assert(before.to_multiset().count(v) > 0) by {
                assert(before[k as int] == v);
                assert(before.contains(v));
            }
            assert(out@.to_multiset().add(rest@.to_multiset()) =~= src0.to_multiset());
        }
    }
    proof {
        assert(rest@.to_multiset() =~= Multiset::empty()) by {
            assert(rest@.len() == 0);
            rest@.to_multiset_ensures();
        }
        assert(out@.to_multiset() =~= src0.to_multiset());
    }
    out
}

/// Does some player start at star `s`?
pub open spec fn is_start_star(players: Seq<Player>, s: int) -> bool {
    exists|p: int| 0 <= p < players.len() && (#[trigger] players[p]).start == s
}

/// Build the initial world state for a fresh game on `galaxy`.  Player `p`
/// starts at the habitable star nearest `start_targets[p]`, holding 10.00
/// credits and resources, one colony ship in orbit, and vision of nothing
/// but their own star.  Starting stars are seeded with population and extra
/// resources; all other stars start unowned.
pub fn setup_game(
    galaxy: Vec<Star>,
    nb_players: u32,
    start_targets: &Vec<Position>,
    player_names: Vec<String>,
) -> (r: (Universe, FleetsToSpawn, Turns))
    requires
        forall|i: int| 0 <= i < galaxy@.len() ==> (#[trigger] galaxy@[i]).wf(),
        galaxy@.len() <= MAX_STARS,
        1 <= nb_players <= 8,
        start_targets@.len() == nb_players,
        forall|p: int| 0 <= p < nb_players ==> (#[trigger] start_targets@[p]).in_bounds(),
        player_names@.len() >= nb_players,
        exists|i: int|
            0 <= i < galaxy@.len() && (#[trigger] galaxy@[i].size) != StarSize::Giant,
    ensures
        r.0.wf_at(0),
        r.0.galaxy@ == galaxy@,
        r.0.n_players() == nb_players,
        r.2.count == 0,
        r.2.messages@.len() == 0,
        fleets_wf(r.1.0@, galaxy@, nb_players as int),
        r.1.0@.len() == nb_players,
        forall|p: int|
            0 <= p < nb_players ==> {
                let pl = #[trigger] r.0.players@[p];
                &&& pl.start == spec_nearest_habitable(
                    galaxy@,
                    start_targets@[p],
                    galaxy@.len() as int,
                )
                &&& pl.savings == 1000
                &&& pl.resources == 1000
                &&& !pl.first_colony_done
                &&& pl.vision@.len() == galaxy@.len()
                &&& pl.vision@[pl.start as int] == StarState::Owned(p as usize)
                &&& (forall|s: int|
                    0 <= s < galaxy@.len() && s != pl.start ==> (#[trigger] pl.vision@[s])
                        == StarState::Unknown)
                &&& (exists|k: int|
                    0 <= k < player_names@.len() && pl.name == player_names@[k])
            },
        forall|p: int|
            0 <= p < nb_players ==> (#[trigger] r.1.0@[p]) == (Fleet {
                order: Order::Orbit(r.0.players@[p].start),
                ship: Ship { kind: ShipKind::Colony },
                size: FleetSize(1),
                owner: Owner(p as usize),
            }),
        forall|s: int|
            0 <= s < galaxy@.len() && !is_start_star(r.0.players@, s) ==> {
                let d = #[trigger] r.0.star_details@[s];
                &&& d.owner == NO_OWNER
                &&& d.population == 0
                &&& 5000 <= d.resources < 10000
            },
        forall|s: int|
            0 <= s < galaxy@.len() && is_start_star(r.0.players@, s) ==> {
                let d = #[trigger] r.0.star_details@[s];
                &&& d.owner < nb_players
                &&& d.owned_since == 0
                &&& 7000 <= d.population < 8000
                &&& 10000 <= d.resources < 15000
            },
{
    let n = galaxy.len();
    let mut details: Vec<StarDetails> = Vec::new();
    let mut s: usize = 0;
    while s < n
        invariant
            s <= n,
            details@.len() == s,
            forall|j: int|
                0 <= j < s ==> {
                    let d = #[trigger] details@[j];
                    &&& d.owner == NO_OWNER
                    &&& d.population == 0
                    &&& 5000 <= d.resources < 10000
                },
        decreases n - s,
    {
        let res = rand_range(5000, 10000);
        details.push(
            StarDetails { population: 0, resources: res, owner: NO_OWNER, owned_since: u32::MAX },
        );
        s = s + 1;
    }

    let names = shuffled(player_names);
    let mut players: Vec<Player> = Vec::new();
    let mut fleets: Vec<Fleet> = Vec::new();
    let mut p: usize = 0;
    while p < nb_players as usize
        invariant
            forall|i: int| 0 <= i < galaxy@.len() ==> (#[trigger] galaxy@[i]).wf(),
            galaxy@.len() == n <= MAX_STARS,
            1 <= nb_players <= 8,
            start_targets@.len() == nb_players,
            forall|q: int| 0 <= q < nb_players ==> (#[trigger] start_targets@[q]).in_bounds(),
            names@.len() >= nb_players,
            names@.to_multiset() == player_names@.to_multiset(),
            exists|i: int|
                0 <= i < galaxy@.len() && (#[trigger] galaxy@[i].size) != StarSize::Giant,
            p <= nb_players,
            players@.len() == p,
            fleets@.len() == p,
            details@.len() == n,
            forall|q: int|
                0 <= q < p ==> {
                    let pl = #[trigger] players@[q];
                    &&& pl.start < n
                    &&& pl.start == spec_nearest_habitable(galaxy@, start_targets@[q], n as int)
                    &&& pl.savings == 1000
                    &&& pl.resources == 1000
                    &&& !pl.first_colony_done
                    &&& pl.vision@.len() == n
                    &&& pl.vision@[pl.start as int] == StarState::Owned(q as usize)
                    &&& (forall|t: int|
                        0 <= t < n && t != pl.start ==> (#[trigger] pl.vision@[t])
                            == StarState::Unknown)
                    &&& (exists|k: int|
                        0 <= k < player_names@.len() && pl.name == player_names@[k])
                },
            forall|q: int|
                0 <= q < p ==> (#[trigger] fleets@[q]) == (Fleet {
                    order: Order::Orbit(players@[q].start),
                    ship: Ship { kind: ShipKind::Colony },
                    size: FleetSize(1),
                    owner: Owner(q as usize),
                }),
            forall|j: int|
                0 <= j < n && !is_start_star(players@, j) ==> {
                    let d = #[trigger] details@[j];
                    &&& d.owner == NO_OWNER
                    &&& d.population == 0
                    &&& 5000 <= d.resources < 10000
                },
            forall|j: int|
                0 <= j < n && is_start_star(players@, j) ==> {
                    let d = #[trigger] details@[j];
                    &&& d.owner < nb_players
                    &&& d.owned_since == 0
                    &&& 7000 <= d.population < 8000
                    &&& 10000 <= d.resources < 15000
                },
        decreases nb_players - p,
    {
        let target = start_targets[p];
        let ci = nearest_habitable_star(&galaxy, target);
        let pop = rand_range(7000, 8000);
        let res = rand_range(10000, 15000);
        details[ci] = StarDetails { population: pop, resources: res, owner: p, owned_since: 0 };
        let mut vision: Vec<StarState> = Vec::new();
        let mut v: usize = 0;
        while v < n
            invariant
                v <= n,
                vision@.len() == v,
                forall|t: int| 0 <= t < v ==> (#[trigger] vision@[t]) == StarState::Unknown,
            decreases n - v,
        {
            vision.push(StarState::Unknown);
            v = v + 1;
        }
        vision[ci] = StarState::Owned(p);
        fleets.push(
            Fleet {
                order: Order::Orbit(ci),
                ship: Ship { kind: ShipKind::Colony },
                size: FleetSize(1),
                owner: Owner(p),
            },
        );
        let name = names[p].clone();
        proof {
            // The shuffled pool holds exactly the given names, so this one
            // is one of them.
            broadcast use group_to_multiset_ensures;

            assert(names@.contains(names@[p as int]));
            assert(names@.to_multiset().count(names@[p as int]) > 0);
            assert(player_names@.to_multiset().count(names@[p as int]) > 0);
            assert(player_names@.contains(names@[p as int]));
        }
        let ghost players_before = players@;
        players.push(
            Player {
                start: ci,
                vision,
                savings: 1000,
                resources: 1000,
                first_colony_done: false,
                name,
            },
        );
        proof {
            let ps = players@;
            assert(ps[ps.len() - 1].start == ci);
            assert(is_start_star(ps, ci as int));
            assert forall|j: int| 0 <= j < n && !is_start_star(ps, j) implies j != ci
                && !is_start_star(players_before, j) by {
                if is_start_star(players_before, j) {
                    let w = choose|q: int|
                        0 <= q < players_before.len() && (#[trigger] players_before[q]).start
                            == j;
                    assert(ps[w].start == j);
                }
            }
            assert forall|j: int| 0 <= j < n && is_start_star(ps, j) && j != ci
                implies is_start_star(players_before, j) by {
                let w = choose|q: int| 0 <= q < ps.len() && (#[trigger] ps[q]).start == j;
                assert(w < players_before.len());
                assert(players_before[w].start == j);
            }
        }
        p = p + 1;
    }

    let universe = Universe { galaxy, players, star_details: details };
    let turns = Turns { count: 0, messages: Vec::new() };
    (universe, FleetsToSpawn(fleets), turns)
}

} // verus!
