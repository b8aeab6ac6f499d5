//! Fleets, their orders, and travel time between stars.
//!
//! A fleet is a single mobile unit: a ship kind, a ship count, an owner, and
//! an order.  A fleet either orbits a star or is in transit between two
//! stars; a move takes a number of turns that grows exponentially with the
//! Euclidean distance between the two stars.
use vstd::prelude::*;
use vstd::arithmetic::power::pow;
use vstd::arithmetic::mul::{lemma_mul_inequality, lemma_mul_is_commutative, lemma_mul_increases};
use vstd::arithmetic::div_mod::{lemma_div_is_ordered, lemma_div_multiples_vanish};
use crate::galaxy::{Position, Star, dist2, dist2_exec, lemma_dist2_basics};
use crate::math::{kroot, kth_root, lemma_kroot_monotonic};

verus! {

/// What a fleet is currently doing: resting at a star, or in transit.
/// `step` counts the turns already spent under way; the fleet arrives when
/// `step` reaches the travel time between `from` and `to`.
#[derive(Clone, Copy, PartialEq, Eq, Structural, Debug)]
pub enum Order {
    Orbit(usize),
    Move { from: usize, to: usize, step: u32 },
}

/// The two ship kinds.  A colony ship founds colonies and never wins a
/// fight; a fighter fights fleets and populations.
#[derive(Clone, Copy, PartialEq, Eq, Structural, Debug)]
pub enum ShipKind {
    Colony,
    Fighter,
}

/// The ship type of a fleet.
#[derive(Clone, Copy, PartialEq, Eq, Structural, Debug)]
pub struct Ship {
    pub kind: ShipKind,
}

/// How many individual ships share the fleet's order.
#[derive(Clone, Copy, PartialEq, Eq, Structural, Debug)]
pub struct FleetSize(pub u32);

/// The player index a fleet belongs to.
#[derive(Clone, Copy, PartialEq, Eq, Structural, Debug)]
pub struct Owner(pub usize);

/// One mobile unit of the game.
#[derive(Clone, Copy, PartialEq, Eq, Structural, Debug)]
pub struct Fleet {
    pub order: Order,
    pub ship: Ship,
    pub size: FleetSize,
    pub owner: Owner,
}

impl ShipKind {
    /// Credit cost of building one ship of this kind, in hundredths.
    pub open spec fn spec_cost_credits(self) -> u64 {
        match self {
            ShipKind::Colony => 1000,
            ShipKind::Fighter => 100,
        }
    }

    /// Resource cost of building one ship of this kind, in hundredths.
    pub open spec fn spec_cost_resources(self) -> u64 {
        match self {
            ShipKind::Colony => 500,
            ShipKind::Fighter => 100,
        }
    }

    /// Credit cost of this ship kind, in hundredths of a credit.
    pub fn cost_credits(&self) -> (c: u64)
        ensures
            c == self.spec_cost_credits(),
    {
        match self {
            ShipKind::Colony => 1000,
            ShipKind::Fighter => 100,
        }
    }

    /// Resource cost of this ship kind, in hundredths of a resource unit.
    pub fn cost_resources(&self) -> (c: u64)
        ensures
            c == self.spec_cost_resources(),
    {
        match self {
            ShipKind::Colony => 500,
            ShipKind::Fighter => 100,
        }
    }

    /// The display name of this ship kind.
    pub fn label(&self) -> (r: String)
        ensures
            *self is Colony ==> r@ == "Colony Ship"@,
            *self is Fighter ==> r@ == "Fighter"@,
    {
        match self {
            ShipKind::Colony => "Colony Ship".to_owned(),
            ShipKind::Fighter => "Fighter".to_owned(),
        }
    }
}

/// Fleets commissioned this turn, waiting to join the world's fleet
/// collection when the next turn begins.
pub struct FleetsToSpawn(pub Vec<Fleet>);

/// The credits a batch of commissioned fleets costs: the per-ship credit
/// cost of each fleet's kind times its ship count.
pub open spec fn fleets_credit_cost(s: Seq<Fleet>) -> int
    decreases s.len(),
{
    if s.len() == 0 {
        0
    } else {
        fleets_credit_cost(s.drop_last()) + s.last().ship.kind.spec_cost_credits() * s.last().size.0
    }
}

/// The resources a batch of commissioned fleets costs.
pub open spec fn fleets_resource_cost(s: Seq<Fleet>) -> int
    decreases s.len(),
{
    if s.len() == 0 {
        0
    } else {
        fleets_resource_cost(s.drop_last()) + s.last().ship.kind.spec_cost_resources()
            * s.last().size.0
    }
}

/// Appending one fleet adds its cost to the batch's.
pub proof fn lemma_fleets_cost_push(s: Seq<Fleet>, f: Fleet)
    ensures
        fleets_credit_cost(s.push(f)) == fleets_credit_cost(s)
            + f.ship.kind.spec_cost_credits() * f.size.0,
        fleets_resource_cost(s.push(f)) == fleets_resource_cost(s)
            + f.ship.kind.spec_cost_resources() * f.size.0,
{
    assert(s.push(f).drop_last() =~= s);
    assert(s.push(f).last() == f);
}

/// An order is well formed when its stars exist and, for a move, the steps
/// already taken are still short of the travel time.
pub open spec fn order_wf(o: Order, galaxy: Seq<Star>) -> bool {
    match o {
        Order::Orbit(s) => s < galaxy.len(),
        Order::Move { from, to, step } => {
            &&& from < galaxy.len()
            &&& to < galaxy.len()
            &&& step < travel_time(galaxy[from as int].position, galaxy[to as int].position)
        },
    }
}

/// A fleet is well formed when its owner and order fit the world, it has at
/// least one ship, and a colony fleet has exactly one: the colony ship is
/// consumed whole on arrival.
pub open spec fn fleet_wf(f: Fleet, galaxy: Seq<Star>, n_players: int) -> bool {
    &&& f.owner.0 < n_players
    &&& order_wf(f.order, galaxy)
    &&& f.size.0 >= 1
    &&& (f.ship.kind == ShipKind::Colony ==> f.size.0 == 1)
}

/// Every fleet of the collection is well formed.
pub open spec fn fleets_wf(fleets: Seq<Fleet>, galaxy: Seq<Star>, n_players: int) -> bool {
    forall|i: int| 0 <= i < fleets.len() ==> fleet_wf(#[trigger] fleets[i], galaxy, n_players)
}

/// The colony-ship size invariant: in any well-formed fleet collection,
/// every colony fleet has exactly one ship, from the moment it is built to
/// the moment it is consumed or destroyed.
pub proof fn lemma_colony_fleet_size(fleets: Seq<Fleet>, galaxy: Seq<Star>, np: int, i: int)
    requires
        fleets_wf(fleets, galaxy, np),
        0 <= i < fleets.len(),
        fleets[i].ship.kind == ShipKind::Colony,
    ensures
        fleets[i].size.0 == 1,
{
}

/// Fixed-point scale of the exponential used for travel times.
pub const TRAVEL_SCALE: u64 = 1_000_000;

/// One scaled step of the exponential: multiplying by this and dividing by
/// `TRAVEL_SCALE` multiplies by about `e^(1/90)`, so the exponential doubles
/// roughly every 62 distance units.
pub const TRAVEL_GROWTH: u64 = 1_011_173;

/// The scaled exponential saturates here, which caps every travel time.
pub const TRAVEL_ACC_CAP: u64 = 10_000_000_000_000;

/// One step of the saturating scaled exponential.
pub open spec fn travel_step(a: int) -> int {
    let next = a * TRAVEL_GROWTH / TRAVEL_SCALE as int;
    if next > TRAVEL_ACC_CAP as int {
        TRAVEL_ACC_CAP as int
    } else {
        next
    }
}

/// `TRAVEL_SCALE` times roughly `e^(d/90)`, saturating at `TRAVEL_ACC_CAP`.
pub open spec fn travel_exp(d: nat) -> int
    decreases d,
{
    if d == 0 {
        TRAVEL_SCALE as int
    } else {
        travel_step(travel_exp((d - 1) as nat))
    }
}

/// A step of the exponential never shrinks and respects the cap.
proof fn lemma_travel_step_bounds(a: int)
    requires
        0 <= a <= TRAVEL_ACC_CAP,
    ensures
        a <= travel_step(a) <= TRAVEL_ACC_CAP,
{
    let s = TRAVEL_SCALE as int;
    assert(a * s <= a * TRAVEL_GROWTH) by {
        lemma_mul_inequality(s, TRAVEL_GROWTH as int, a);
        lemma_mul_is_commutative(a, s);
        lemma_mul_is_commutative(a, TRAVEL_GROWTH as int);
    }
    lemma_div_is_ordered(a * s, a * TRAVEL_GROWTH, s);
    lemma_div_multiples_vanish(a, s);
}

/// A step of the exponential is monotone.
proof fn lemma_travel_step_monotonic(a: int, b: int)
    requires
        0 <= a <= b,
    ensures
        travel_step(a) <= travel_step(b),
{
    assert(a * TRAVEL_GROWTH <= b * TRAVEL_GROWTH) by {
        lemma_mul_inequality(a, b, TRAVEL_GROWTH as int);
    }
    lemma_div_is_ordered(a * TRAVEL_GROWTH, b * TRAVEL_GROWTH, TRAVEL_SCALE as int);
}

/// The scaled exponential stays between its seed and the cap.
pub proof fn lemma_travel_exp_bounds(d: nat)
    ensures
        TRAVEL_SCALE as int <= travel_exp(d) <= TRAVEL_ACC_CAP as int,
    decreases d,
{
    if d > 0 {
        lemma_travel_exp_bounds((d - 1) as nat);
        lemma_travel_step_bounds(travel_exp((d - 1) as nat));
    }
}

/// The scaled exponential is monotone in the distance.
pub proof fn lemma_travel_exp_monotonic(d1: nat, d2: nat)
    requires
        d1 <= d2,
    ensures
        travel_exp(d1) <= travel_exp(d2),
    decreases d2,
{
    if d1 < d2 {
        lemma_travel_exp_monotonic(d1, (d2 - 1) as nat);
        lemma_travel_exp_bounds((d2 - 1) as nat);
        lemma_travel_step_bounds(travel_exp((d2 - 1) as nat));
    }
}

/// Travel time for a Euclidean distance `d`: at least one turn, otherwise
/// the floor of 1.7 times the exponential.
pub open spec fn travel_time_of_dist(d: nat) -> int {
    let t = 17 * travel_exp(d) / (10 * TRAVEL_SCALE as int);
    if t < 1 {
        1
    } else {
        t
    }
}

/// Travel time between two positions: the distance is the floor of the
/// Euclidean distance (the square root of `dist2`).
pub open spec fn travel_time(a: Position, b: Position) -> int {
    travel_time_of_dist(kroot(dist2(a, b) as nat, 2))
}

/// Travel time is monotone in the distance.
pub proof fn lemma_travel_time_of_dist_monotonic(d1: nat, d2: nat)
    requires
        d1 <= d2,
    ensures
        travel_time_of_dist(d1) <= travel_time_of_dist(d2),
{
    lemma_travel_exp_monotonic(d1, d2);
    assert(17 * travel_exp(d1) <= 17 * travel_exp(d2)) by {
        lemma_mul_inequality(travel_exp(d1), travel_exp(d2), 17);
        lemma_mul_is_commutative(17, travel_exp(d1));
        lemma_mul_is_commutative(17, travel_exp(d2));
    }
    lemma_travel_exp_bounds(d1);
    lemma_div_is_ordered(17 * travel_exp(d1), 17 * travel_exp(d2), 10 * TRAVEL_SCALE as int);
}

/// Travel time is symmetric in its two endpoints and is at least one turn.
pub proof fn lemma_travel_time_basics(a: Position, b: Position)
    ensures
        travel_time(a, b) == travel_time(b, a),
        travel_time(a, b) >= 1,
{
    lemma_dist2_basics(a, b);
}

/// Travel time never decreases as the squared distance grows.
pub proof fn lemma_travel_time_monotonic(a: Position, b: Position, c: Position, d: Position)
    requires
        dist2(a, b) <= dist2(c, d),
    ensures
        travel_time(a, b) <= travel_time(c, d),
{
    lemma_dist2_basics(a, b);
    lemma_dist2_basics(c, d);
    lemma_kroot_monotonic(dist2(a, b) as nat, dist2(c, d) as nat, 2);
    lemma_travel_time_of_dist_monotonic(
        kroot(dist2(a, b) as nat, 2),
        kroot(dist2(c, d) as nat, 2),
    );
}

/// Travel time for an already-computed distance.
fn travel_time_of_dist_exec(d: u64) -> (t: u32)
    ensures
        t == travel_time_of_dist(d as nat),
{
    let mut acc: u64 = TRAVEL_SCALE;
    let mut i: u64 = 0;
    while i < d
        invariant
            i <= d,
            acc == travel_exp(i as nat),
            TRAVEL_SCALE <= acc <= TRAVEL_ACC_CAP,
        decreases d - i,
    {
        let next = acc * TRAVEL_GROWTH / TRAVEL_SCALE;
        proof {
            lemma_travel_step_bounds(acc as int);
        }
        acc = if next > TRAVEL_ACC_CAP {
            TRAVEL_ACC_CAP
        } else {
            next
        };
        i = i + 1;
    }
    let t = 17 * acc / (10 * TRAVEL_SCALE);
    if t < 1 {
        1
    } else {
        t as u32
    }
}

/// The number of turns a move between `from` and `to` takes: always at
/// least one, and exponentially growing with the distance.
pub fn turns_between(from: Position, to: Position) -> (t: u32)
    requires
        from.in_bounds(),
        to.in_bounds(),
    ensures
        t == travel_time(from, to),
{
    let d2 = dist2_exec(from, to);
    let root = kth_root(d2 as u128, 2);
    proof {
        assert(pow(root as int, 2) == root as int * (root as int * 1)) by {
            reveal_with_fuel(pow, 3);
        }
        if root > d2 {
            lemma_mul_increases(root as int, root as int);
            assert(false);
        }
    }
    travel_time_of_dist_exec(root as u64)
}

} // verus!
