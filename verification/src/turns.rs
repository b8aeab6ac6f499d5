//! Turns, narrative messages, and the per-turn resolution engine.
//!
//! Resolving the player's turn advances the economy, moves every fleet one
//! step, resolves simultaneous combat at every star, founds and destroys
//! colonies, and collects the narrative messages of the turn, sorted by a
//! fixed category priority.
use vstd::prelude::*;
use vstd::seq_lib::group_to_multiset_ensures;
use crate::galaxy::Star;
use crate::fleet::{Fleet, FleetSize, Order, ShipKind, fleets_wf, fleet_wf, travel_time,
    turns_between};
use crate::universe::{NO_OWNER, POP_SEED, Player, StarDetails, StarState, Universe};

verus! {

/// Whose phase of the game loop is running.
#[derive(Clone, PartialEq, Eq, Hash, Debug)]
pub enum TurnState {
    Player,
    Bots,
    Enemy,
    Out,
}

/// The two ways to lose: deep debt, or owning no star at all.
#[derive(Clone, Copy, PartialEq, Eq, Structural, Debug)]
pub enum LoseCondition {
    Deficit,
    NoMoreColonies,
}

/// A narrative event of one resolved turn.  `population_killed` is in
/// hundredths of population.
pub enum Message {
    Turn(u32),
    ColonyFounded { star_name: String, index: usize },
    ColonyDestroyed { star_name: String, index: usize, player_name: String },
    StarExplored { star_name: String, color_condition: bool, size_condition: bool, index: usize },
    Story { title: String, details: String, order: u32, index: Option<usize> },
    Fight {
        index: usize,
        star_name: String,
        attacker: bool,
        ship_lost: u32,
        ship_destroyed: u32,
        population_killed: u64,
        player_name: String,
    },
    Win,
    Lose { condition: LoseCondition },
}

/// The turn counter and the messages of the most recently resolved turn.
pub struct Turns {
    pub count: u32,
    pub messages: Vec<Message>,
}

impl Message {
    /// The fixed category priority messages are sorted by: the turn header
    /// first, then explorations, fights, colonies founded, colonies
    /// destroyed, the outcome, and finally story messages in author order.
    pub open spec fn spec_order(&self) -> int {
        match self {
            Message::Turn(_) => 0,
            Message::StarExplored { .. } => 1,
            Message::Fight { .. } => 2,
            Message::ColonyFounded { .. } => 3,
            Message::ColonyDestroyed { .. } => 4,
            Message::Win => 5,
            Message::Lose { .. } => 5,
            Message::Story { order, .. } => if 6 + *order as int > u32::MAX as int {
                u32::MAX as int
            } else {
                6 + *order as int
            },
        }
    }

    /// The sort key of this message.
    pub fn order(&self) -> (r: u32)
        ensures
            r == self.spec_order(),
    {
        match self {
            Message::Turn(_) => 0,
            Message::StarExplored { .. } => 1,
            Message::Fight { .. } => 2,
            Message::ColonyFounded { .. } => 3,
            Message::ColonyDestroyed { .. } => 4,
            Message::Win => 5,
            Message::Lose { .. } => 5,
            Message::Story { order, .. } => if *order > u32::MAX - 6 {
                u32::MAX
            } else {
                6 + *order
            },
        }
    }
}

/// A message sequence sorted by category priority.
pub open spec fn sorted_by_order(s: Seq<Message>) -> bool {
    forall|i: int, j: int| 0 <= i < j < s.len() ==> s[i].spec_order() <= s[j].spec_order()
}

/// Inserting anywhere adds one occurrence to the multiset of a sequence.
proof fn lemma_insert_to_multiset(s: Seq<Message>, i: int, v: Message)
    requires
        0 <= i <= s.len(),
    ensures
        s.insert(i, v).to_multiset() =~= s.to_multiset().insert(v),
{
    broadcast use group_to_multiset_ensures;

    let t = s.insert(i, v);
    s.insert_ensures(i, v);
    t.remove_ensures(i);
    assert(t.remove(i) =~= s);
    assert(t.to_multiset().remove(v) =~= s.to_multiset());
    assert(t.contains(v)) by {
        assert(t[i] == v);
    }
    assert(t.to_multiset().count(v) > 0);
    assert forall|a: Message| t.to_multiset().count(a) == s.to_multiset().insert(v).count(
        a,
    ) by {
        assert(t.to_multiset().remove(v).count(a) == s.to_multiset().count(a));
    }
}

/// Stable insertion sort of messages by category priority: the result is
/// sorted and holds exactly the same messages.
pub fn sort_messages(msgs: &mut Vec<Message>)
    ensures
        sorted_by_order(final(msgs)@),
        final(msgs)@.to_multiset() == old(msgs)@.to_multiset(),
{
    broadcast use group_to_multiset_ensures;

    let mut i: usize = 1;
    while i < msgs.len()
        invariant
            1 <= i,
            msgs@.len() == old(msgs)@.len(),
            msgs@.to_multiset() == old(msgs)@.to_multiset(),
            forall|a: int, b: int|
                0 <= a < b < i && b < msgs@.len() ==> msgs@[a].spec_order()
                    <= msgs@[b].spec_order(),
        decreases msgs@.len() - i,
    {
        let key = msgs[i].order();
        // Find the first position in the sorted prefix whose key is larger;
        // inserting there keeps equal keys in their original order.
        let mut pos: usize = i;
        while pos > 0 && msgs[pos - 1].order() > key
            invariant
                pos <= i < msgs@.len(),
                forall|b: int| pos <= b < i ==> msgs@[b].spec_order() > key,
            decreases pos,
        {
            pos = pos - 1;
        }
        if pos < i {
            let ghost before = msgs@;
            let m = msgs.remove(i);
            proof {
                broadcast use group_to_multiset_ensures;

                before.remove_ensures(i as int);
                assert(before.remove(i as int).to_multiset() =~= before.to_multiset().remove(m));
            }
            let ghost mid = msgs@;
            msgs.insert(pos, m);
            proof {
                broadcast use group_to_multiset_ensures;

                lemma_insert_to_multiset(mid, pos as int, m);
                assert(msgs@.to_multiset() =~= before.to_multiset());
                mid.insert_ensures(pos as int, m);
                assert forall|a: int, b: int|
                    0 <= a < b < i + 1 && b < msgs@.len() implies msgs@[a].spec_order()
                    <= msgs@[b].spec_order() by {
                    assert(msgs@[pos as int] == m);
                    assert(forall|j: int| 0 <= j < pos ==> msgs@[j] == before[j]);
                    assert(forall|j: int| pos < j <= i ==> msgs@[j] == before[j - 1]);
                }
            }
        }
        i = i + 1;
    }
}

/// The placeholder enemy phase: it does nothing and hands the game loop
/// straight back to the player.
pub fn run_enemy_turn(state: &mut TurnState)
    ensures
        *final(state) == TurnState::Player,
{
    *state = TurnState::Player;
}

/// The player the narration is written for.
pub const HUMAN_PLAYER: usize = 0;

/// Savings below this (minus 100.00 credits) lose the game.
pub const DEFICIT_LIMIT: i64 = -10_000;

/// Each fighter consumed in population combat kills this much population.
pub const POP_PER_FIGHTER: u64 = 1000;

/// Aggregated fight information for one star, folded into a single Fight
/// message per star per turn.
#[derive(Clone, Copy, PartialEq, Eq, Structural, Debug)]
pub struct FightReport {
    pub against: usize,
    pub attacker: bool,
    pub ship_lost: u32,
    pub ship_destroyed: u32,
    pub population_killed: u64,
}

/// What one engagement costs each side: the smaller side's full count.
pub open spec fn engagement_loss(a: nat, b: nat) -> nat {
    if a <= b {
        a
    } else {
        b
    }
}

/// The losses of a fighter-versus-fighter engagement between two fleets at
/// one star, in resolution order: the first fleet fights the second's
/// standing total, then the second fleet fights the first's pre-scan total.
/// `fight_enemy_fighters` carries the same conservation as a clause of its
/// contract for any number of engaged owners.
pub open spec fn two_fleet_losses(a: nat, b: nat) -> (nat, nat) {
    (engagement_loss(a, b), engagement_loss(b, a))
}

/// Conservation under combat: in a fighter-versus-fighter engagement each
/// side loses exactly the smaller side's count, and at least one side is
/// wiped out (and so leaves the fleet collection).
pub proof fn lemma_fighter_conservation(a: nat, b: nat)
    ensures
        two_fleet_losses(a, b).0 == engagement_loss(a, b),
        two_fleet_losses(a, b).1 == engagement_loss(a, b),
        a <= b ==> a - two_fleet_losses(a, b).0 == 0,
        b <= a ==> b - two_fleet_losses(a, b).1 == 0,
{
}

/// One engagement of a fleet of `own` ships against a standing total of
/// `enemy` ships: both sides lose the smaller count.
fn engage(own: u32, enemy: u64) -> (lost: u32)
    ensures
        lost == engagement_loss(own as nat, enemy as nat),
        lost <= own,
        lost <= enemy,
{
    if own as u64 <= enemy {
        own
    } else {
        enemy as u32
    }
}

/// The fighters it takes to wipe out a population of `pop` hundredths: one
/// per 10.00 population, rounded up.
pub open spec fn fighters_needed(pop: int) -> int {
    (pop + POP_PER_FIGHTER - 1) / POP_PER_FIGHTER as int
}

/// Population combat: a fleet of `size` fighters attacks a population of
/// `pop` hundredths.  Returns the fighters consumed, the population killed,
/// the population left, and whether the fleet won.  A winning fleet
/// consumes one fighter per 10.00 population (rounded up) and wipes the
/// population out; a losing fleet is consumed whole, each fighter killing
/// 10.00 population.
pub fn fight_population(size: u32, pop: u64) -> (r: (u32, u64, u64, bool))
    requires
        pop <= crate::economy::POP_CAP,
    ensures
        fighters_needed(pop as int) <= size ==> r.0 == fighters_needed(pop as int) && r.1 == pop
            && r.2 == 0 && r.3 == true,
        fighters_needed(pop as int) > size ==> r.0 == size && r.1 == size as int
            * POP_PER_FIGHTER && r.2 == pop - size as int * POP_PER_FIGHTER && r.3 == false,
{
    let needed = (pop + (POP_PER_FIGHTER - 1)) / POP_PER_FIGHTER;
    if needed <= size as u64 {
        (needed as u32, pop, 0, true)
    } else {
        proof {
            vstd::arithmetic::div_mod::lemma_fundamental_div_mod((pop + 999) as int, 1000);
            assert(1000 * ((pop + 999) as int / 1000) >= 1000 * (size + 1)) by {
                vstd::arithmetic::mul::lemma_mul_inequality(
                    (size + 1) as int,
                    (pop + 999) as int / 1000,
                    1000,
                );
                vstd::arithmetic::mul::lemma_mul_is_commutative(
                    1000,
                    (pop + 999) as int / 1000,
                );
                vstd::arithmetic::mul::lemma_mul_is_commutative(1000, (size + 1) as int);
            }
        }
        let killed = size as u64 * POP_PER_FIGHTER;
        (size, killed, pop - killed, false)
    }
}

/// Does the human player own at least one star?
pub open spec fn human_owns_any(u: Universe) -> bool {
    exists|s: int|
        0 <= s < u.n_stars() && (#[trigger] u.star_details@[s]).owner == HUMAN_PLAYER
}

/// Does any player other than the human own a star?
pub open spec fn enemy_owns_any(u: Universe) -> bool {
    exists|s: int|
        0 <= s < u.n_stars() && (#[trigger] u.star_details@[s]).owner != HUMAN_PLAYER
            && u.star_details@[s].owner != NO_OWNER
}

/// The world state loses for lack of colonies.
pub open spec fn lose_no_colonies_cond(u: Universe) -> bool {
    !human_owns_any(u)
}

/// The world state loses for deep debt.
pub open spec fn lose_deficit_cond(u: Universe) -> bool {
    human_owns_any(u) && u.players@[HUMAN_PLAYER as int].savings < DEFICIT_LIMIT
}

/// The world state wins: every surviving colony is the human's.
pub open spec fn win_cond(u: Universe) -> bool {
    human_owns_any(u) && u.players@[HUMAN_PLAYER as int].savings >= DEFICIT_LIMIT
        && !enemy_owns_any(u)
}

/// Win/lose exclusivity: a world state triggers at most one of the win, the
/// no-more-colonies loss, and the deficit loss.
pub proof fn lemma_outcome_exclusive(u: Universe)
    ensures
        !(lose_no_colonies_cond(u) && lose_deficit_cond(u)),
        !(lose_no_colonies_cond(u) && win_cond(u)),
        !(lose_deficit_cond(u) && win_cond(u)),
{
}

/// Saturating addition on message counters.
fn sat_add_u32(a: u32, b: u32) -> (r: u32)
    ensures
        r == if a + b > u32::MAX {
            u32::MAX as int
        } else {
            a + b
        },
{
    match a.checked_add(b) {
        Some(v) => v,
        None => u32::MAX,
    }
}

/// Saturating addition on population counters.
fn sat_add_u64(a: u64, b: u64) -> (r: u64)
    ensures
        r == if a + b > u64::MAX {
            u64::MAX as int
        } else {
            a + b
        },
{
    match a.checked_add(b) {
        Some(v) => v,
        None => u64::MAX,
    }
}

/// Whether the human player owns any star right now.
fn human_owns_any_exec(u: &Universe) -> (b: bool)
    requires
        u.wf_core(),
    ensures
        b == human_owns_any(*u),
{
    let n = u.star_details.len();
    let mut i: usize = 0;
    while i < n
        invariant
            u.wf_core(),
            i <= n,
            n == u.n_stars(),
            forall|s: int| 0 <= s < i ==> (#[trigger] u.star_details@[s]).owner != HUMAN_PLAYER,
        decreases n - i,
    {
        if u.star_details[i].owner == HUMAN_PLAYER {
            return true;
        }
        i = i + 1;
    }
    false
}

/// Whether any non-human player owns any star right now.
fn enemy_owns_any_exec(u: &Universe) -> (b: bool)
    requires
        u.wf_core(),
    ensures
        b == enemy_owns_any(*u),
{
    let n = u.star_details.len();
    let mut i: usize = 0;
    while i < n
        invariant
            u.wf_core(),
            i <= n,
            n == u.n_stars(),
            forall|s: int|
                0 <= s < i ==> (#[trigger] u.star_details@[s]).owner == HUMAN_PLAYER
                    || u.star_details@[s].owner == NO_OWNER,
        decreases n - i,
    {
        let o = u.star_details[i].owner;
        if o != HUMAN_PLAYER && o != NO_OWNER {
            return true;
        }
        i = i + 1;
    }
    false
}

/// Standing fighter totals stay below this during a turn resolution.
pub const FIGHTER_CAP: u64 = 500_000_000_000_000_000;

/// Messages that may appear while fleets resolve: everything but the turn
/// header and the terminal win/lose messages.
pub open spec fn msgs_orders_ok(s: Seq<Message>) -> bool {
    forall|k: int|
        0 <= k < s.len() ==> (#[trigger] s[k].spec_order()) != 0 && s[k].spec_order() != 5
}

/// A per-star, per-player grid of fighter totals.
pub open spec fn grid_wf(g: Seq<Vec<u64>>, n: int, np: int) -> bool {
    &&& g.len() == n
    &&& (forall|s: int| 0 <= s < n ==> (#[trigger] g[s])@.len() == np)
    &&& (forall|s: int, p: int|
        0 <= s < n && 0 <= p < np ==> (#[trigger] g[s]@[p]) <= FIGHTER_CAP)
}

/// A per-star, per-player grid of presence flags.
pub open spec fn bgrid_wf(g: Seq<Vec<bool>>, n: int, np: int) -> bool {
    &&& g.len() == n
    &&& (forall|s: int| 0 <= s < n ==> (#[trigger] g[s])@.len() == np)
}

/// Every report names a real player.
pub open spec fn reports_wf(reports: Seq<Option<FightReport>>, n: int, np: int) -> bool {
    &&& reports.len() == n
    &&& (forall|s: int|
        0 <= s < n ==> match #[trigger] reports[s] {
            Some(r) => r.against < np,
            None => true,
        })
}

/// Is this fleet at star `s` this turn: orbiting it, or completing a move
/// to it on this call?
pub open spec fn fleet_at(f: Fleet, galaxy: Seq<Star>, s: int) -> bool {
    match f.order {
        Order::Orbit(a) => a == s,
        Order::Move { from, to, step } => to == s && step + 1 == travel_time(
            galaxy[from as int].position,
            galaxy[to as int].position,
        ),
    }
}

/// Does player `p` have any of the first `n` fleets at star `s` this turn?
pub open spec fn present_among(
    fleets: Seq<Fleet>,
    galaxy: Seq<Star>,
    s: int,
    p: int,
    n: int,
) -> bool {
    exists|i: int|
        0 <= i < n && (#[trigger] fleets[i]).owner.0 == p && fleet_at(fleets[i], galaxy, s)
}

/// The fighters player `p` has at star `s` this turn, over the first `n`
/// fleets.
pub open spec fn fighters_among(
    fleets: Seq<Fleet>,
    galaxy: Seq<Star>,
    s: int,
    p: int,
    n: int,
) -> int
    decreases n,
{
    if n <= 0 {
        0
    } else {
        fighters_among(fleets, galaxy, s, p, n - 1) + if fleets[n - 1].owner.0 == p && fleets[
            n - 1
        ].ship.kind == ShipKind::Fighter && fleet_at(fleets[n - 1], galaxy, s) {
            fleets[n - 1].size.0 as int
        } else {
            0
        }
    }
}

/// One more fleet extends a presence prefix exactly by its own presence.
proof fn lemma_present_among_step(fleets: Seq<Fleet>, galaxy: Seq<Star>, s: int, p: int, n: int)
    requires
        0 <= n < fleets.len(),
    ensures
        present_among(fleets, galaxy, s, p, n + 1) == (present_among(fleets, galaxy, s, p, n)
            || (fleets[n].owner.0 == p && fleet_at(fleets[n], galaxy, s))),
{
    if present_among(fleets, galaxy, s, p, n + 1) {
        let i = choose|i: int|
            0 <= i < n + 1 && (#[trigger] fleets[i]).owner.0 == p && fleet_at(
                fleets[i],
                galaxy,
                s,
            );
        if i < n {
            assert(present_among(fleets, galaxy, s, p, n));
        }
    }
    if present_among(fleets, galaxy, s, p, n) {
        let i = choose|i: int|
            0 <= i < n && (#[trigger] fleets[i]).owner.0 == p && fleet_at(fleets[i], galaxy, s);
        assert(present_among(fleets, galaxy, s, p, n + 1));
    }
    if fleets[n].owner.0 == p && fleet_at(fleets[n], galaxy, s) {
        assert(present_among(fleets, galaxy, s, p, n + 1));
    }
}

/// The pre-scan tables say exactly which owners stand where, and with how
/// many fighters.
pub open spec fn tables_exact(
    presence: Seq<Vec<bool>>,
    fighters: Seq<Vec<u64>>,
    fleets: Seq<Fleet>,
    galaxy: Seq<Star>,
    n: int,
    np: int,
) -> bool {
    &&& (forall|s: int, p: int|
        0 <= s < n && 0 <= p < np ==> (#[trigger] presence[s]@[p]) == present_among(
            fleets,
            galaxy,
            s,
            p,
            fleets.len() as int,
        ))
    &&& (forall|s: int, p: int|
        0 <= s < n && 0 <= p < np ==> (#[trigger] fighters[s]@[p]) == fighters_among(
            fleets,
            galaxy,
            s,
            p,
            fleets.len() as int,
        ))
}

/// One colony ship, completing its move this call to a star nobody owns:
/// the scenario behind the colonization clause of the fleet pass.
pub open spec fn lone_colonist_arrival(fleets: Seq<Fleet>, u: Universe, s: int) -> bool {
    &&& fleets.len() == 1
    &&& fleets[0].ship.kind == ShipKind::Colony
    &&& fleets[0].order is Move
    &&& fleet_at(fleets[0], u.galaxy@, s)
    &&& u.star_details@[s].owner == NO_OWNER
}

/// One fighter fleet, completing its move this call to a star a hostile
/// population defends: the scenario behind the population-combat clause.
pub open spec fn lone_fighter_attack(fleets: Seq<Fleet>, u: Universe, s: int) -> bool {
    &&& fleets.len() == 1
    &&& fleets[0].ship.kind == ShipKind::Fighter
    &&& fleets[0].order is Move
    &&& fleet_at(fleets[0], u.galaxy@, s)
    &&& u.star_details@[s].owner != fleets[0].owner.0
    &&& u.star_details@[s].owner != NO_OWNER
    &&& u.star_details@[s].population > 0
}

/// What the fleet pass does to a lone colonist arriving at an unowned
/// star `s`: ownership transfers to the ship's owner, population resets to
/// the seed, the arrival turn is recorded, the owner's vision updates, the
/// ship is consumed, and the human player reads about the founding (and
/// the first sighting, if the star was unknown).
pub open spec fn lone_colonist_scenario_done(
    fleets: Seq<Fleet>,
    u0: Universe,
    count: u32,
    u: Universe,
    out: Seq<Fleet>,
    msgs: Seq<Message>,
) -> bool {
    forall|s: int|
        0 <= s < u0.n_stars() && #[trigger] lone_colonist_arrival(fleets, u0, s) ==> {
            let who = fleets[0].owner.0;
            &&& u.star_details@ == u0.star_details@.update(
                s,
                StarDetails {
                    population: POP_SEED,
                    resources: u0.star_details@[s].resources,
                    owner: who,
                    owned_since: count,
                },
            )
            &&& u.players@[who as int].vision@ == u0.players@[who as int].vision@.update(
                s,
                StarState::Owned(who),
            )
            &&& out.len() == 0
            &&& (who == HUMAN_PLAYER ==> msgs.contains(
                Message::ColonyFounded {
                    star_name: u0.galaxy@[s].name,
                    index: fleets[0].order->Move_to,
                },
            ))
            &&& (who == HUMAN_PLAYER && u0.players@[who as int].vision@[s] is Unknown
                ==> msgs.contains(
                Message::StarExplored {
                    star_name: u0.galaxy@[s].name,
                    color_condition: u0.galaxy@[u0.players@[who as int].start as int].color
                        == u0.galaxy@[s].color,
                    size_condition: u0.galaxy@[u0.players@[who as int].start as int].size
                        == u0.galaxy@[s].size,
                    index: fleets[0].order->Move_to,
                },
            ))
        }
}

/// What the fleet pass does to a lone fighter fleet arriving at a star a
/// hostile population defends: exactly what `fight_population` decides.
/// Victory empties and unowns the star, consumes one fighter per 10.00
/// population rounded up, and re-orbits any survivors; defeat consumes the
/// fleet and its ships' worth of population.  A human attacker's fight is
/// reported in full.
pub open spec fn lone_fighter_scenario_done(
    fleets: Seq<Fleet>,
    u0: Universe,
    u: Universe,
    out: Seq<Fleet>,
    msgs: Seq<Message>,
    reports0: Seq<Option<FightReport>>,
    reports: Seq<Option<FightReport>>,
) -> bool {
    forall|s: int|
        0 <= s < u0.n_stars() && #[trigger] lone_fighter_attack(fleets, u0, s) ==> {
            let f = fleets[0];
            let a = f.owner.0;
            let d = u0.star_details@[s].owner;
            let pop = u0.star_details@[s].population;
            let needed = fighters_needed(pop as int);
            &&& (needed <= f.size.0 ==> {
                &&& u.star_details@ == u0.star_details@.update(
                    s,
                    StarDetails {
                        population: 0,
                        resources: u0.star_details@[s].resources,
                        owner: NO_OWNER,
                        owned_since: u0.star_details@[s].owned_since,
                    },
                )
                &&& (f.size.0 > needed ==> out.len() == 1 && out[0] == (Fleet {
                    order: Order::Orbit(f.order->Move_to),
                    ship: f.ship,
                    size: FleetSize((f.size.0 - needed) as u32),
                    owner: f.owner,
                }))
                &&& (f.size.0 == needed ==> out.len() == 0)
                &&& (a != HUMAN_PLAYER && d == HUMAN_PLAYER ==> msgs.contains(
                    Message::ColonyDestroyed {
                        star_name: u0.galaxy@[s].name,
                        index: f.order->Move_to,
                        player_name: u0.players@[a as int].name,
                    },
                ))
                &&& (a == HUMAN_PLAYER ==> reports == reports0.update(
                    s,
                    Some(
                        FightReport {
                            against: d,
                            attacker: true,
                            ship_lost: needed as u32,
                            ship_destroyed: 0,
                            population_killed: pop,
                        },
                    ),
                ))
            })
            &&& (needed > f.size.0 ==> {
                &&& u.star_details@ == u0.star_details@.update(
                    s,
                    StarDetails {
                        population: (pop - f.size.0 * POP_PER_FIGHTER) as u64,
                        resources: u0.star_details@[s].resources,
                        owner: d,
                        owned_since: u0.star_details@[s].owned_since,
                    },
                )
                &&& out.len() == 0
                &&& (a == HUMAN_PLAYER ==> reports == reports0.update(
                    s,
                    Some(
                        FightReport {
                            against: d,
                            attacker: true,
                            ship_lost: f.size.0,
                            ship_destroyed: 0,
                            population_killed: (f.size.0 * POP_PER_FIGHTER) as u64,
                        },
                    ),
                ))
            })
        }
}

/// The set of fleets at or arriving at each star this turn, grouped by
/// owner: a presence flag for any fleet, and the standing fighter totals.
/// This lookahead makes simultaneous arrivals and standing garrisons fight
/// in the same resolution pass.
fn prescan_fleets(universe: &Universe, fleets: &Vec<Fleet>) -> (r: (Vec<Vec<bool>>, Vec<Vec<u64>>))
    requires
        universe.wf_core(),
        fleets_wf(fleets@, universe.galaxy@, universe.n_players()),
        fleets@.len() <= 100_000_000,
    ensures
        bgrid_wf(r.0@, universe.n_stars(), universe.n_players()),
        grid_wf(r.1@, universe.n_stars(), universe.n_players()),
        tables_exact(r.0@, r.1@, fleets@, universe.galaxy@, universe.n_stars(),
            universe.n_players()),
{
    let n = universe.galaxy.len();
    let np = universe.players.len();
    let mut presence: Vec<Vec<bool>> = Vec::new();
    let mut fighters: Vec<Vec<u64>> = Vec::new();
    let mut s: usize = 0;
    while s < n
        invariant
            s <= n,
            presence@.len() == s,
            fighters@.len() == s,
            forall|j: int| 0 <= j < s ==> (#[trigger] presence@[j])@.len() == np,
            forall|j: int| 0 <= j < s ==> (#[trigger] fighters@[j])@.len() == np,
            forall|j: int, p: int|
                0 <= j < s && 0 <= p < np ==> (#[trigger] fighters@[j]@[p]) == 0,
            forall|j: int, p: int|
                0 <= j < s && 0 <= p < np ==> !(#[trigger] presence@[j]@[p]),
        decreases n - s,
    {
        presence.push(vec![false; np]);
        fighters.push(vec![0u64; np]);
        s = s + 1;
    }
    let mut fi: usize = 0;
    while fi < fleets.len()
        invariant
            universe.wf_core(),
            fleets_wf(fleets@, universe.galaxy@, universe.n_players()),
            fleets@.len() <= 100_000_000,
            fi <= fleets@.len(),
            n == universe.n_stars(),
            np == universe.n_players(),
            presence@.len() == n,
            fighters@.len() == n,
            forall|j: int| 0 <= j < n ==> (#[trigger] presence@[j])@.len() == np,
            forall|j: int| 0 <= j < n ==> (#[trigger] fighters@[j])@.len() == np,
            forall|j: int, p: int|
                0 <= j < n && 0 <= p < np ==> (#[trigger] fighters@[j]@[p]) <= fi
                    * 0x1_0000_0000,
            forall|j: int, p: int|
                0 <= j < n && 0 <= p < np ==> (#[trigger] presence@[j]@[p]) == present_among(
                    fleets@,
                    universe.galaxy@,
                    j,
                    p,
                    fi as int,
                ),
            forall|j: int, p: int|
                0 <= j < n && 0 <= p < np ==> (#[trigger] fighters@[j]@[p]) == fighters_among(
                    fleets@,
                    universe.galaxy@,
                    j,
                    p,
                    fi as int,
                ),
        decreases fleets@.len() - fi,
    {
        let ghost galaxy = universe.galaxy@;
        let f = fleets[fi];
        let dest: Option<usize> = match f.order {
            Order::Orbit(a) => Some(a),
            Order::Move { from, to, step } => {
                let t = turns_between(
                    universe.galaxy[from].position,
                    universe.galaxy[to].position,
                );
                if step + 1 == t {
                    Some(to)
                } else {
                    None
                }
            },
        };
        proof {
            assert(match dest {
                Some(d) => fleet_at(f, galaxy, d as int) && forall|s2: int|
                    s2 != d ==> !fleet_at(f, galaxy, s2),
                None => forall|s2: int| !fleet_at(f, galaxy, s2),
            });
        }
        if let Some(st) = dest {
            presence[st][f.owner.0] = true;
            if f.ship.kind == ShipKind::Fighter {
                let cur = fighters[st][f.owner.0];
                fighters[st][f.owner.0] = cur + f.size.0 as u64;
            }
        }
        proof {
            assert forall|j: int, p: int| 0 <= j < n && 0 <= p < np implies (
            #[trigger] presence@[j]@[p]) == present_among(
                fleets@,
                galaxy,
                j,
                p,
                fi + 1,
            ) by {
                lemma_present_among_step(fleets@, galaxy, j, p, fi as int);
            }
        }
        fi = fi + 1;
    }
    proof {
        assert forall|j: int, p: int| 0 <= j < n && 0 <= p < np implies (#[trigger] fighters@[j]@[
            p
        ]) <= FIGHTER_CAP by {
            assert(fighters@[j]@[p] <= fleets@.len() * 0x1_0000_0000);
            vstd::arithmetic::mul::lemma_mul_inequality(
                fleets@.len() as int,
                100_000_000int,
                0x1_0000_0000int,
            );
        }
    }
    (presence, fighters)
}

/// Is any fleet of another owner at this star this turn?
fn enemy_present(presence: &Vec<Vec<bool>>, st: usize, own: usize, np: usize) -> (r: Option<
    usize,
>)
    requires
        st < presence@.len(),
        presence@[st as int]@.len() == np,
    ensures
        r matches Some(u) ==> u < np && u != own && presence@[st as int]@[u as int],
        r is None ==> forall|u: int|
            0 <= u < np && u != own ==> !(#[trigger] presence@[st as int]@[u]),
{
    let mut u: usize = 0;
    while u < np
        invariant
            u <= np,
            st < presence@.len(),
            presence@[st as int]@.len() == np,
            forall|v: int| 0 <= v < u && v != own ==> !(#[trigger] presence@[st as int]@[v]),
        decreases np - u,
    {
        if u != own && presence[st][u] {
            return Some(u);
        }
        u = u + 1;
    }
    None
}

/// Saturating counter addition, at spec level.
pub open spec fn sat32(a: int, b: int) -> int {
    if a + b > u32::MAX as int {
        u32::MAX as int
    } else {
        a + b
    }
}

/// Saturating population addition, at spec level.
pub open spec fn sat64(a: int, b: int) -> int {
    if a + b > u64::MAX as int {
        u64::MAX as int
    } else {
        a + b
    }
}

/// One engagement folded into a star's report: the first engagement fixes
/// who it is against and from which perspective, later ones accumulate.
pub open spec fn merged_report(
    prev: Option<FightReport>,
    against: usize,
    attacker: bool,
    lost: u32,
    destroyed: u32,
    pop_killed: u64,
) -> FightReport {
    let base = match prev {
        Some(r) => r,
        None => FightReport {
            against,
            attacker,
            ship_lost: 0,
            ship_destroyed: 0,
            population_killed: 0,
        },
    };
    FightReport {
        against: base.against,
        attacker: base.attacker,
        ship_lost: sat32(base.ship_lost as int, lost as int) as u32,
        ship_destroyed: sat32(base.ship_destroyed as int, destroyed as int) as u32,
        population_killed: sat64(base.population_killed as int, pop_killed as int) as u64,
    }
}

/// Fold one engagement into the star's fight report.  The first engagement
/// at a star fixes who the report is against and from which perspective;
/// later engagements only accumulate the counts.
fn add_report(
    reports: &mut Vec<Option<FightReport>>,
    st: usize,
    against: usize,
    attacker: bool,
    lost: u32,
    destroyed: u32,
    pop_killed: u64,
    Ghost(n): Ghost<int>,
    Ghost(np): Ghost<int>,
)
    requires
        reports_wf(old(reports)@, n, np),
        st < n,
        against < np,
    ensures
        reports_wf(final(reports)@, n, np),
        final(reports)@ == old(reports)@.update(
            st as int,
            Some(
                merged_report(
                    old(reports)@[st as int],
                    against,
                    attacker,
                    lost,
                    destroyed,
                    pop_killed,
                ),
            ),
        ),
{
    let cur = match reports[st] {
        Some(r) => r,
        None => FightReport {
            against,
            attacker,
            ship_lost: 0,
            ship_destroyed: 0,
            population_killed: 0,
        },
    };
    reports[st] = Some(
        FightReport {
            against: cur.against,
            attacker: cur.attacker,
            ship_lost: sat_add_u32(cur.ship_lost, lost),
            ship_destroyed: sat_add_u32(cur.ship_destroyed, destroyed),
            population_killed: sat_add_u64(cur.population_killed, pop_killed),
        },
    );
}

/// The fighters standing at one star that belong to anyone but `own`: the
/// total over the first `n` players.
pub open spec fn enemy_total(row: Seq<u64>, own: int, n: int) -> int
    decreases n,
{
    if n <= 0 {
        0
    } else {
        enemy_total(row, own, n - 1) + if n - 1 == own {
            0
        } else {
            row[n - 1] as int
        }
    }
}

/// Lowering one enemy cell lowers the enemy total by the same amount.
proof fn lemma_enemy_total_update(row: Seq<u64>, own: int, u: int, v: u64, n: int)
    requires
        0 <= u < row.len(),
        u != own,
        n <= row.len(),
    ensures
        u < n ==> enemy_total(row.update(u, v), own, n) == enemy_total(row, own, n) - row[u]
            + v,
        u >= n ==> enemy_total(row.update(u, v), own, n) == enemy_total(row, own, n),
    decreases n,
{
    if n > 0 {
        lemma_enemy_total_update(row, own, u, v, n - 1);
    }
}

/// The enemy total is never negative.
proof fn lemma_enemy_total_nonneg(row: Seq<u64>, own: int, n: int)
    ensures
        enemy_total(row, own, n) >= 0,
    decreases n,
{
    if n > 0 {
        lemma_enemy_total_nonneg(row, own, n - 1);
    }
}

/// A star with no enemy fighters standing has an enemy total of zero.
proof fn lemma_enemy_total_zero(row: Seq<u64>, own: int, n: int)
    requires
        forall|u: int| 0 <= u < n && u != own ==> row[u] == 0,
    ensures
        enemy_total(row, own, n) == 0,
    decreases n,
{
    if n > 0 {
        lemma_enemy_total_zero(row, own, n - 1);
    }
}

/// Fight every enemy owner with fighters standing at star `st`, in player
/// order: each engagement costs both sides the smaller count, so the ships
/// this fleet loses equal the ships it destroys — conservation under
/// combat.  Against a single enemy owner this pins both survivors exactly:
/// with two fleets of `a` and `b` ships, each side loses `min(a, b)`.
/// Returns the ships left and, if the fleet was wiped out, who finished
/// it.
pub fn fight_enemy_fighters(
    st: usize,
    own: usize,
    size0: u32,
    np: usize,
    arriving: bool,
    fighters: &mut Vec<Vec<u64>>,
    reports: &mut Vec<Option<FightReport>>,
    Ghost(n): Ghost<int>,
) -> (r: (u32, Option<usize>))
    requires
        grid_wf(old(fighters)@, n, np as int),
        reports_wf(old(reports)@, n, np as int),
        st < n,
        own < np,
    ensures
        grid_wf(final(fighters)@, n, np as int),
        reports_wf(final(reports)@, n, np as int),
        r.0 <= size0,
        r.1 matches Some(u) ==> u < np,
        // Conservation: the ships lost equal the enemy ships destroyed.
        size0 - r.0 == enemy_total(old(fighters)@[st as int]@, own as int, np as int)
            - enemy_total(final(fighters)@[st as int]@, own as int, np as int),
        forall|s2: int|
            0 <= s2 < n && s2 != st ==> final(fighters)@[s2] == old(fighters)@[s2],
        // With nobody to fight, nothing happens at all.
        (forall|u: int| 0 <= u < np && u != own ==> old(fighters)@[st as int]@[u] == 0)
            ==> final(fighters)@ == old(fighters)@ && final(reports)@ == old(reports)@,
        // Against a single enemy owner, one engagement happens, costing
        // both sides the smaller count.
        forall|v: int|
            0 <= v < np && v != own && old(fighters)@[st as int]@[v] > 0 && (forall|u: int|
                0 <= u < np && u != own && u != v ==> old(fighters)@[st as int]@[u] == 0)
                ==> r.0 == size0 - engagement_loss(
                size0 as nat,
                old(fighters)@[st as int]@[v] as nat,
            ) && #[trigger] final(fighters)@[st as int]@[v] == old(fighters)@[st as int]@[v]
                - engagement_loss(size0 as nat, old(fighters)@[st as int]@[v] as nat) && (
            forall|u2: int|
                0 <= u2 < np && u2 != v ==> final(fighters)@[st as int]@[u2] == old(
                    fighters,
                )@[st as int]@[u2]),
{
    let ghost row0 = fighters@[st as int]@;
    let ghost single = exists|v: int|
        0 <= v < np && v != own && row0[v] > 0 && (forall|u2: int|
            0 <= u2 < np && u2 != own && u2 != v ==> row0[u2] == 0);
    let ghost v0: int = if single {
        choose|v: int|
            0 <= v < np && v != own && row0[v] > 0 && (forall|u2: int|
                0 <= u2 < np && u2 != own && u2 != v ==> row0[u2] == 0)
    } else {
        -1
    };
    let mut size = size0;
    let mut destroyed_by: Option<usize> = None;
    let mut u: usize = 0;
    while u < np
        invariant
            grid_wf(fighters@, n, np as int),
            reports_wf(reports@, n, np as int),
            st < n,
            own < np,
            u <= np,
            size <= size0,
            destroyed_by matches Some(x) ==> x < np,
            fighters@[st as int]@.len() == np,
            row0 == old(fighters)@[st as int]@,
            size0 - size == enemy_total(row0, own as int, np as int) - enemy_total(
                fighters@[st as int]@,
                own as int,
                np as int,
            ),
            forall|s2: int|
                0 <= s2 < n && s2 != st ==> fighters@[s2] == old(fighters)@[s2],
            (forall|v: int| 0 <= v < np && v != own ==> row0[v] == 0) ==> fighters@ == old(
                fighters,
            )@ && reports@ == old(reports)@,
            single ==> 0 <= v0 < np && v0 != own && row0[v0] > 0 && (forall|u2: int|
                0 <= u2 < np && u2 != own && u2 != v0 ==> row0[u2] == 0),
            single && u <= v0 ==> size == size0 && fighters@ == old(fighters)@,
            single && u > v0 ==> size == size0 - engagement_loss(
                size0 as nat,
                row0[v0] as nat,
            ) && fighters@[st as int]@[v0] == row0[v0] - engagement_loss(
                size0 as nat,
                row0[v0] as nat,
            ) && (forall|u2: int|
                0 <= u2 < np && u2 != v0 ==> fighters@[st as int]@[u2] == row0[u2]),
        decreases np - u,
    {
        proof {
            if single && u != own && u as int != v0 && u < np {
                assert(row0[u as int] == 0);
            }
        }
        if u != own && size > 0 {
            let cnt = fighters[st][u];
            if cnt > 0 {
                proof {
                    if forall|v: int| 0 <= v < np && v != own ==> row0[v] == 0 {
                        assert(fighters@ == old(fighters)@);
                        assert(cnt == row0[u as int]);
                        assert(row0[u as int] == 0);
                        assert(false);
                    }
                }
                let lost = engage(size, cnt);
                let ghost row_before = fighters@[st as int]@;
                size = size - lost;
                fighters[st][u] = cnt - lost as u64;
                proof {
                    lemma_enemy_total_update(
                        row_before,
                        own as int,
                        u as int,
                        (cnt - lost as u64) as u64,
                        np as int,
                    );
                    assert(fighters@[st as int]@ =~= row_before.update(
                        u as int,
                        (cnt - lost as u64) as u64,
                    ));
                }
                if own == HUMAN_PLAYER {
                    add_report(
                        reports,
                        st,
                        u,
                        arriving,
                        lost,
                        0,
                        0,
                        Ghost(n),
                        Ghost(np as int),
                    );
                } else if u == HUMAN_PLAYER {
                    add_report(
                        reports,
                        st,
                        own,
                        !arriving,
                        0,
                        lost,
                        0,
                        Ghost(n),
                        Ghost(np as int),
                    );
                }
                if size == 0 {
                    destroyed_by = Some(u);
                }
            }
        }
        u = u + 1;
    }
    proof {
        assert forall|v: int|
            0 <= v < np && v != own && row0[v] > 0 && (forall|u2: int|
                0 <= u2 < np && u2 != own && u2 != v ==> row0[u2] == 0) implies size == size0
            - engagement_loss(size0 as nat, row0[v] as nat) && fighters@[st as int]@[v] == row0[
            v
        ] - engagement_loss(size0 as nat, row0[v] as nat) by {
            assert(single);
            if v != v0 {
                assert(row0[v] == 0);
                assert(false);
            }
        }
    }
    (size, destroyed_by)
}

/// Resolve every fleet once, against the pre-scanned presence tables:
/// orbiting fleets fight whatever stands at their star, moving fleets
/// advance one step, and fleets arriving this turn resolve exploration,
/// fleet combat, population combat, and colonization.  Returns the fleets
/// that survive the turn.
#[verifier::rlimit(100)]
fn resolve_fleets(
    universe: &mut Universe,
    fleets: &Vec<Fleet>,
    count: u32,
    presence: &Vec<Vec<bool>>,
    fighters: &mut Vec<Vec<u64>>,
    reports: &mut Vec<Option<FightReport>>,
    msgs: &mut Vec<Message>,
) -> (out: Vec<Fleet>)
    requires
        old(universe).wf_at(count as int),
        fleets_wf(fleets@, old(universe).galaxy@, old(universe).n_players()),
        fleets@.len() <= 100_000_000,
        bgrid_wf(presence@, old(universe).n_stars(), old(universe).n_players()),
        grid_wf(old(fighters)@, old(universe).n_stars(), old(universe).n_players()),
        reports_wf(old(reports)@, old(universe).n_stars(), old(universe).n_players()),
        forall|s: int| 0 <= s < old(universe).n_stars() ==> (#[trigger] old(reports)@[s]) is None,
        tables_exact(presence@, old(fighters)@, fleets@, old(universe).galaxy@,
            old(universe).n_stars(), old(universe).n_players()),
        msgs_orders_ok(old(msgs)@),
    ensures
        final(universe).wf_at(count as int),
        final(universe).galaxy@ == old(universe).galaxy@,
        final(universe).n_players() == old(universe).n_players(),
        final(universe).n_stars() == old(universe).n_stars(),
        fleets_wf(out@, final(universe).galaxy@, final(universe).n_players()),
        out@.len() <= fleets@.len(),
        reports_wf(final(reports)@, old(universe).n_stars(), old(universe).n_players()),
        msgs_orders_ok(final(msgs)@),
        // A lone colony ship arriving at an unowned star founds the colony;
        // a lone fighter fleet arriving at a hostile population resolves
        // population combat exactly.
        lone_colonist_scenario_done(fleets@, *old(universe), count, *final(universe), out@,
            final(msgs)@),
        lone_fighter_scenario_done(fleets@, *old(universe), *final(universe), out@,
            final(msgs)@, old(reports)@, final(reports)@),
        // Combat never touches anyone's account.
        forall|p: int|
            0 <= p < old(universe).n_players() ==> {
                let pl = #[trigger] final(universe).players@[p];
                &&& pl.savings == old(universe).players@[p].savings
                &&& pl.resources == old(universe).players@[p].resources
                &&& pl.start == old(universe).players@[p].start
                &&& pl.name == old(universe).players@[p].name
            },
        // Combat never harvests: every star keeps its resource stock, and
        // its population can only fall or be reset to the colony seed.
        forall|s: int|
            0 <= s < old(universe).n_stars() ==> {
                let d = #[trigger] final(universe).star_details@[s];
                &&& d.resources == old(universe).star_details@[s].resources
                &&& (d.population <= old(universe).star_details@[s].population || d.population
                    <= POP_SEED)
            },
{
    let ghost u_entry = *universe;
    let ghost galaxy0 = universe.galaxy@;
    let ghost players0 = universe.players@;
    let ghost details0 = universe.star_details@;
    let ghost fighters0 = fighters@;
    let ghost reports0 = reports@;
    let ghost msgs0 = msgs@;
    let n = universe.galaxy.len();
    let np = universe.players.len();
    let mut out: Vec<Fleet> = Vec::new();
    let mut fi: usize = 0;
    while fi < fleets.len()
        invariant
            universe.wf_at(count as int),
            universe.galaxy@ == galaxy0,
            n == universe.n_stars(),
            np == universe.n_players(),
            fleets_wf(fleets@, galaxy0, np as int),
            fleets@.len() <= 100_000_000,
            fi <= fleets@.len(),
            out@.len() <= fi,
            fleets_wf(out@, galaxy0, np as int),
            bgrid_wf(presence@, n as int, np as int),
            grid_wf(fighters@, n as int, np as int),
            reports_wf(reports@, n as int, np as int),
            msgs_orders_ok(msgs@),
            players0.len() == np,
            forall|p: int|
                0 <= p < np ==> {
                    let pl = #[trigger] universe.players@[p];
                    &&& pl.savings == players0[p].savings
                    &&& pl.resources == players0[p].resources
                    &&& pl.start == players0[p].start
                    &&& pl.name == players0[p].name
                },
            details0.len() == n,
            forall|s: int|
                0 <= s < n ==> {
                    let d = #[trigger] universe.star_details@[s];
                    &&& d.resources == details0[s].resources
                    &&& (d.population <= details0[s].population || d.population <= POP_SEED)
                },
            fi == 0 ==> *universe == u_entry && out@.len() == 0 && fighters@ == fighters0
                && reports@ == reports0 && msgs@ == msgs0,
            tables_exact(presence@, fighters0, fleets@, galaxy0, n as int, np as int),
            forall|s: int| 0 <= s < n ==> (#[trigger] reports0[s]) is None,
            fi >= 1 ==> lone_colonist_scenario_done(fleets@, u_entry, count, *universe, out@,
                msgs@),
            fi >= 1 ==> lone_fighter_scenario_done(fleets@, u_entry, *universe, out@, msgs@,
                reports0, reports@),
        decreases fleets@.len() - fi,
    {
        let ghost msgs_start = msgs@;
        let ghost lone = fi == 0 && fleets@.len() == 1;
        let mut f = fleets[fi];
        proof {
            assert(fleet_wf(fleets@[fi as int], galaxy0, np as int));
        }
        match f.order {
            Order::Orbit(around) => {
                proof {
                    if lone {
                        // An orbiting fleet is no lone arrival.
                        assert(forall|s2: int|
                            !lone_colonist_arrival(fleets@, u_entry, s2)
                                && !lone_fighter_attack(fleets@, u_entry, s2));
                    }
                }
                match f.ship.kind {
                    ShipKind::Colony => {
                        if let Some(other) = enemy_present(presence, around, f.owner.0, np) {
                            // An enemy fleet is here: colony ships always
                            // lose, and the ship is destroyed.
                            if f.owner.0 == HUMAN_PLAYER {
                                add_report(
                                    reports,
                                    around,
                                    other,
                                    false,
                                    f.size.0,
                                    0,
                                    0,
                                    Ghost(n as int),
                                    Ghost(np as int),
                                );
                            } else if other == HUMAN_PLAYER {
                                add_report(
                                    reports,
                                    around,
                                    f.owner.0,
                                    true,
                                    0,
                                    f.size.0,
                                    0,
                                    Ghost(n as int),
                                    Ghost(np as int),
                                );
                            }
                        } else {
                            out.push(f);
                        }
                    },
                    ShipKind::Fighter => {
                        let (sz, _killer) = fight_enemy_fighters(
                            around,
                            f.owner.0,
                            f.size.0,
                            np,
                            false,
                            fighters,
                            reports,
                            Ghost(n as int),
                        );
                        if sz > 0 {
                            f.size = FleetSize(sz);
                            out.push(f);
                        }
                    },
                }
            },
            Order::Move { from, to, step } => {
                let t = turns_between(
                    universe.galaxy[from].position,
                    universe.galaxy[to].position,
                );
                let step2 = step + 1;
                if step2 < t {
                    proof {
                        if lone {
                            // A fleet still in transit is no lone arrival.
                            assert(forall|s2: int|
                                !lone_colonist_arrival(fleets@, u_entry, s2)
                                    && !lone_fighter_attack(fleets@, u_entry, s2));
                        }
                    }
                    f.order = Order::Move { from, to, step: step2 };
                    out.push(f);
                } else {
                    // The fleet arrives at `to` this turn.
                    if universe.star_details[to].owner != f.owner.0 && f.owner.0
                        == HUMAN_PLAYER {
                        let vs = universe.players[HUMAN_PLAYER].vision[to];
                        if vs == StarState::Unknown {
                            let start = universe.players[HUMAN_PLAYER].start;
                            let nm = universe.galaxy[to].name.clone();
                            let cc = universe.galaxy[start].color == universe.galaxy[to].color;
                            let sc = universe.galaxy[start].size == universe.galaxy[to].size;
                            msgs.push(
                                Message::StarExplored {
                                    star_name: nm,
                                    color_condition: cc,
                                    size_condition: sc,
                                    index: to,
                                },
                            );
                        }
                    }
                    match f.ship.kind {
                        ShipKind::Colony => {
                            if let Some(other) = enemy_present(presence, to, f.owner.0, np) {
                                proof {
                                    if lone {
                                        // A lone ship has nobody else present.
                                        assert forall|s2: int| !lone_colonist_arrival(
                                            fleets@,
                                            u_entry,
                                            s2,
                                        ) by {
                                            if lone_colonist_arrival(fleets@, u_entry, s2) {
                                                assert(s2 == to as int);
                                                assert(presence@[s2]@[other as int]
                                                    == present_among(fleets@, galaxy0, s2,
                                                    other as int, fleets@.len() as int));
                                                let w = choose|i: int|
                                                    0 <= i < fleets@.len() && (
                                                    #[trigger] fleets@[i]).owner.0
                                                        == other as int && fleet_at(fleets@[i],
                                                    galaxy0, s2);
                                                assert(false);
                                            }
                                        }
                                    }
                                }
                                // Destroyed by the fleets present.
                                universe.set_vision(f.owner.0, to, StarState::Owned(other));
                                if f.owner.0 == HUMAN_PLAYER {
                                    add_report(
                                        reports,
                                        to,
                                        other,
                                        true,
                                        f.size.0,
                                        0,
                                        0,
                                        Ghost(n as int),
                                        Ghost(np as int),
                                    );
                                } else if other == HUMAN_PLAYER {
                                    add_report(
                                        reports,
                                        to,
                                        f.owner.0,
                                        false,
                                        0,
                                        f.size.0,
                                        0,
                                        Ghost(n as int),
                                        Ghost(np as int),
                                    );
                                }
                            } else {
                                let downer = universe.star_details[to].owner;
                                if downer != f.owner.0 && downer != NO_OWNER {
                                    proof {
                                        if lone {
                                            // A lone colonist's target is unowned.
                                            assert(forall|s2: int|
                                                !lone_colonist_arrival(fleets@, u_entry, s2));
                                        }
                                    }
                                    // Destroyed fighting the population.
                                    universe.set_vision(f.owner.0, to, StarState::Owned(downer));
                                    if f.owner.0 == HUMAN_PLAYER {
                                        add_report(
                                            reports,
                                            to,
                                            downer,
                                            true,
                                            f.size.0,
                                            0,
                                            0,
                                            Ghost(n as int),
                                            Ghost(np as int),
                                        );
                                    } else if downer == HUMAN_PLAYER {
                                        add_report(
                                            reports,
                                            to,
                                            f.owner.0,
                                            false,
                                            0,
                                            f.size.0,
                                            0,
                                            Ghost(n as int),
                                            Ghost(np as int),
                                        );
                                    }
                                } else if downer != f.owner.0 {
                                    // Colonize the star; the ship is consumed.
                                    if f.owner.0 == HUMAN_PLAYER {
                                        msgs.push(
                                            Message::ColonyFounded {
                                                star_name: universe.galaxy[to].name.clone(),
                                                index: to,
                                            },
                                        );
                                        if !universe.players[HUMAN_PLAYER].first_colony_done {
                                            universe.players[HUMAN_PLAYER].first_colony_done =
                                                true;
                                            msgs.push(
                                                Message::Story {
                                                    title: "First colony!".to_owned(),
                                                    details: "You just founded your first colony!\nIf the color is the same as your\nstarting system, your population\nwill grow faster, but you'll\nget less resources.".to_owned(),
                                                    order: 0,
                                                    index: None,
                                                },
                                            );
                                            msgs.push(
                                                Message::Story {
                                                    title: "revenue".to_owned(),
                                                    details: "New colonies cost credits.\nOnce population has grown, colonies\nwill start earning credits.".to_owned(),
                                                    order: 1,
                                                    index: None,
                                                },
                                            );
                                        }
                                    }
                                    universe.set_vision(f.owner.0, to, StarState::Owned(f.owner.0));
                                    let d = universe.star_details[to];
                                    universe.star_details[to] = StarDetails {
                                        population: POP_SEED,
                                        resources: d.resources,
                                        owner: f.owner.0,
                                        owned_since: count,
                                    };
                                    proof {
                                        if lone && lone_colonist_arrival(fleets@, u_entry,
                                            to as int) {
                                            assert(universe.star_details@
                                                =~= u_entry.star_details@.update(
                                                to as int,
                                                StarDetails {
                                                    population: POP_SEED,
                                                    resources: u_entry.star_details@[
                                                        to as int
                                                    ].resources,
                                                    owner: f.owner.0,
                                                    owned_since: count,
                                                },
                                            ));
                                            assert(universe.players@[f.owner.0 as int].vision@
                                                =~= u_entry.players@[
                                                f.owner.0 as int
                                            ].vision@.update(
                                                to as int,
                                                StarState::Owned(f.owner.0),
                                            ));
                                            if f.owner.0 == HUMAN_PLAYER {
                                                let founded = Message::ColonyFounded {
                                                    star_name: u_entry.galaxy@[to as int].name,
                                                    index: to,
                                                };
                                                let explored = Message::StarExplored {
                                                    star_name: u_entry.galaxy@[to as int].name,
                                                    color_condition: u_entry.galaxy@[
                                                        u_entry.players@[
                                                            f.owner.0 as int
                                                        ].start as int
                                                    ].color == u_entry.galaxy@[
                                                        to as int
                                                    ].color,
                                                    size_condition: u_entry.galaxy@[
                                                        u_entry.players@[
                                                            f.owner.0 as int
                                                        ].start as int
                                                    ].size == u_entry.galaxy@[to as int].size,
                                                    index: to,
                                                };
                                                if u_entry.players@[
                                                    f.owner.0 as int
                                                ].vision@[to as int] is Unknown {
                                                    assert(msgs@[msgs_start.len() as int]
                                                        == explored);
                                                    assert(msgs@.contains(explored));
                                                    assert(msgs@[msgs_start.len() as int + 1]
                                                        == founded);
                                                    assert(msgs@.contains(founded));
                                                } else {
                                                    assert(msgs@[msgs_start.len() as int]
                                                        == founded);
                                                    assert(msgs@.contains(founded));
                                                }
                                            }
                                        }
                                        if lone {
                                            assert(forall|s2: int|
                                                !lone_fighter_attack(fleets@, u_entry, s2));
                                        }
                                    }
                                } else {
                                    proof {
                                        if lone {
                                            // Arriving home: the target is owned.
                                            assert(forall|s2: int|
                                                !lone_colonist_arrival(fleets@, u_entry, s2));
                                        }
                                    }
                                    // Arriving home.
                                    f.order = Order::Orbit(to);
                                    out.push(f);
                                }
                            }
                        },
                        ShipKind::Fighter => {
                            // Who had fighters standing here before this
                            // fleet's engagements.
                            let mut had: Vec<bool> = Vec::new();
                            let mut uu: usize = 0;
                            while uu < np
                                invariant
                                    uu <= np,
                                    had@.len() == uu,
                                    to < n,
                                    n == universe.n_stars(),
                                    np == universe.n_players(),
                                    grid_wf(fighters@, n as int, np as int),
                                decreases np - uu,
                            {
                                had.push(fighters[to][uu] > 0);
                                uu = uu + 1;
                            }
                            let (sz, killer) = fight_enemy_fighters(
                                to,
                                f.owner.0,
                                f.size.0,
                                np,
                                true,
                                fighters,
                                reports,
                                Ghost(n as int),
                            );
                            proof {
                                if lone && lone_fighter_attack(fleets@, u_entry, to as int) {
                                    // A lone fleet found no standing enemies.
                                    assert(tables_exact(presence@, fighters0, fleets@, galaxy0,
                                        n as int, np as int));
                                    assert forall|u3: int|
                                        0 <= u3 < np && u3 != f.owner.0 implies fighters0[
                                        to as int
                                    ]@[u3] == 0 by {
                                        assert(fighters0[to as int]@[u3] == fighters_among(
                                            fleets@,
                                            galaxy0,
                                            to as int,
                                            u3,
                                            fleets@.len() as int,
                                        ));
                                        assert(fleets@.len() == 1);
                                        assert(fleets@[0].owner.0 != u3);
                                        assert(fighters_among(fleets@, galaxy0, to as int, u3,
                                            0) == 0);
                                        assert(fighters_among(fleets@, galaxy0, to as int, u3,
                                            1) == 0);
                                    }
                                    assert(sz == f.size.0);
                                }
                                if lone {
                                    assert(forall|s2: int|
                                        !lone_colonist_arrival(fleets@, u_entry, s2));
                                }
                            }
                            if sz == 0 {
                                if let Some(k) = killer {
                                    universe.set_vision(f.owner.0, to, StarState::Owned(k));
                                }
                            } else {
                                f.size = FleetSize(sz);
                                if universe.star_details[to].population == 0 {
                                    let mut u2: usize = 0;
                                    while u2 < np
                                        invariant
                                            u2 <= np,
                                            had@.len() == np,
                                            to < n,
                                            n == universe.n_stars(),
                                            np == universe.n_players(),
                                            universe.wf_at(count as int),
                                            universe.galaxy@ == galaxy0,
                                            universe.star_details@.len() == n,
                                            details0.len() == n,
                                            forall|s2: int|
                                                0 <= s2 < n ==> {
                                                    let d =
                                                        #[trigger] universe.star_details@[s2];
                                                    &&& d.resources == details0[s2].resources
                                                    &&& (d.population
                                                        <= details0[s2].population
                                                        || d.population <= POP_SEED)
                                                },
                                            players0.len() == np,
                                            forall|p: int|
                                                0 <= p < np ==> {
                                                    let pl = #[trigger] universe.players@[p];
                                                    &&& pl.savings == players0[p].savings
                                                    &&& pl.resources == players0[p].resources
                                                    &&& pl.start == players0[p].start
                                                    &&& pl.name == players0[p].name
                                                },
                                        decreases np - u2,
                                    {
                                        if had[u2] {
                                            universe.set_vision(
                                                u2,
                                                to,
                                                StarState::Owned(f.owner.0),
                                            );
                                        }
                                        u2 = u2 + 1;
                                    }
                                    universe.set_vision(f.owner.0, to, StarState::Uninhabited);
                                }
                                let attacked = universe.star_details[to].owner;
                                if attacked != f.owner.0 && attacked != NO_OWNER {
                                    let pop = universe.star_details[to].population;
                                    let (consumed, killed, popleft, vict) = fight_population(
                                        f.size.0,
                                        pop,
                                    );
                                    if vict {
                                        let sz2 = f.size.0 - consumed;
                                        let d = universe.star_details[to];
                                        universe.star_details[to] = StarDetails {
                                            population: 0,
                                            resources: d.resources,
                                            owner: NO_OWNER,
                                            owned_since: d.owned_since,
                                        };
                                        universe.set_vision(
                                            f.owner.0,
                                            to,
                                            StarState::Uninhabited,
                                        );
                                        universe.set_vision(
                                            attacked,
                                            to,
                                            StarState::Owned(f.owner.0),
                                        );
                                        if f.owner.0 != HUMAN_PLAYER && attacked
                                            == HUMAN_PLAYER {
                                            msgs.push(
                                                Message::ColonyDestroyed {
                                                    star_name: universe.galaxy[
                                                        to
                                                    ].name.clone(),
                                                    index: to,
                                                    player_name: universe.players[
                                                        f.owner.0
                                                    ].name.clone(),
                                                },
                                            );
                                        }
                                        if f.owner.0 == HUMAN_PLAYER {
                                            add_report(
                                                reports,
                                                to,
                                                attacked,
                                                true,
                                                consumed,
                                                0,
                                                killed,
                                                Ghost(n as int),
                                                Ghost(np as int),
                                            );
                                        } else if attacked == HUMAN_PLAYER {
                                            add_report(
                                                reports,
                                                to,
                                                f.owner.0,
                                                false,
                                                0,
                                                consumed,
                                                killed,
                                                Ghost(n as int),
                                                Ghost(np as int),
                                            );
                                        }
                                        if sz2 > 0 {
                                            f.size = FleetSize(sz2);
                                            f.order = Order::Orbit(to);
                                            out.push(f);
                                        }
                                        proof {
                                            if lone && lone_fighter_attack(fleets@, u_entry,
                                                to as int) {
                                                assert(pop == u_entry.star_details@[
                                                    to as int
                                                ].population);
                                                assert(universe.star_details@
                                                    =~= u_entry.star_details@.update(
                                                    to as int,
                                                    StarDetails {
                                                        population: 0,
                                                        resources: u_entry.star_details@[
                                                            to as int
                                                        ].resources,
                                                        owner: NO_OWNER,
                                                        owned_since: u_entry.star_details@[
                                                            to as int
                                                        ].owned_since,
                                                    },
                                                ));
                                                if f.owner.0 == HUMAN_PLAYER {
                                                    assert(reports@ =~= reports0.update(
                                                        to as int,
                                                        Some(
                                                            FightReport {
                                                                against: attacked,
                                                                attacker: true,
                                                                ship_lost: consumed,
                                                                ship_destroyed: 0,
                                                                population_killed: killed,
                                                            },
                                                        ),
                                                    ));
                                                }
                                                if f.owner.0 != HUMAN_PLAYER && attacked
                                                    == HUMAN_PLAYER {
                                                    let gone = Message::ColonyDestroyed {
                                                        star_name: u_entry.galaxy@[
                                                            to as int
                                                        ].name,
                                                        index: to,
                                                        player_name: u_entry.players@[
                                                            f.owner.0 as int
                                                        ].name,
                                                    };
                                                    assert(msgs@[msgs_start.len() as int]
                                                        == gone);
                                                    assert(msgs@.contains(gone));
                                                }
                                            }
                                        }
                                    } else {
                                        let d = universe.star_details[to];
                                        universe.star_details[to] = StarDetails {
                                            population: popleft,
                                            resources: d.resources,
                                            owner: d.owner,
                                            owned_since: d.owned_since,
                                        };
                                        universe.set_vision(
                                            f.owner.0,
                                            to,
                                            StarState::Owned(attacked),
                                        );
                                        if f.owner.0 == HUMAN_PLAYER {
                                            add_report(
                                                reports,
                                                to,
                                                attacked,
                                                true,
                                                consumed,
                                                0,
                                                killed,
                                                Ghost(n as int),
                                                Ghost(np as int),
                                            );
                                        } else if attacked == HUMAN_PLAYER {
                                            add_report(
                                                reports,
                                                to,
                                                f.owner.0,
                                                false,
                                                0,
                                                consumed,
                                                killed,
                                                Ghost(n as int),
                                                Ghost(np as int),
                                            );
                                        }
                                        proof {
                                            if lone && lone_fighter_attack(fleets@, u_entry,
                                                to as int) {
                                                assert(pop == u_entry.star_details@[
                                                    to as int
                                                ].population);
                                                assert(universe.star_details@
                                                    =~= u_entry.star_details@.update(
                                                    to as int,
                                                    StarDetails {
                                                        population: (pop - f.size.0 as u64
                                                            * POP_PER_FIGHTER) as u64,
                                                        resources: u_entry.star_details@[
                                                            to as int
                                                        ].resources,
                                                        owner: attacked,
                                                        owned_since: u_entry.star_details@[
                                                            to as int
                                                        ].owned_since,
                                                    },
                                                ));
                                                if f.owner.0 == HUMAN_PLAYER {
                                                    assert(reports@ =~= reports0.update(
                                                        to as int,
                                                        Some(
                                                            FightReport {
                                                                against: attacked,
                                                                attacker: true,
                                                                ship_lost: f.size.0,
                                                                ship_destroyed: 0,
                                                                population_killed: killed,
                                                            },
                                                        ),
                                                    ));
                                                }
                                            }
                                        }
                                    }
                                } else {
                                    f.order = Order::Orbit(to);
                                    out.push(f);
                                }
                            }
                        },
                    }
                }
            },
        }
        fi = fi + 1;
    }
    out
}

/// Turn the aggregated fight reports into one Fight message per contested
/// star, in star order.
fn emit_fight_messages(
    universe: &Universe,
    reports: &Vec<Option<FightReport>>,
    msgs: &mut Vec<Message>,
)
    requires
        universe.wf_core(),
        reports_wf(reports@, universe.n_stars(), universe.n_players()),
        msgs_orders_ok(old(msgs)@),
    ensures
        msgs_orders_ok(final(msgs)@),
        old(msgs)@.len() <= final(msgs)@.len(),
        forall|k: int| 0 <= k < old(msgs)@.len() ==> final(msgs)@[k] == old(msgs)@[k],
        // Every report becomes a Fight message naming its star and foe.
        forall|s2: usize|
            s2 < reports@.len() && (#[trigger] reports@[s2 as int]) is Some
                ==> final(msgs)@.contains(
                Message::Fight {
                    index: s2,
                    star_name: universe.galaxy@[s2 as int].name,
                    attacker: reports@[s2 as int]->Some_0.attacker,
                    ship_lost: reports@[s2 as int]->Some_0.ship_lost,
                    ship_destroyed: reports@[s2 as int]->Some_0.ship_destroyed,
                    population_killed: reports@[s2 as int]->Some_0.population_killed,
                    player_name: universe.players@[
                        reports@[s2 as int]->Some_0.against as int
                    ].name,
                },
            ),
{
    let mut s: usize = 0;
    while s < reports.len()
        invariant
            universe.wf_core(),
            reports_wf(reports@, universe.n_stars(), universe.n_players()),
            s <= reports@.len(),
            msgs_orders_ok(msgs@),
            old(msgs)@.len() <= msgs@.len(),
            forall|k: int| 0 <= k < old(msgs)@.len() ==> msgs@[k] == old(msgs)@[k],
            forall|s2: usize|
                s2 < s && (#[trigger] reports@[s2 as int]) is Some ==> msgs@.contains(
                    Message::Fight {
                        index: s2,
                        star_name: universe.galaxy@[s2 as int].name,
                        attacker: reports@[s2 as int]->Some_0.attacker,
                        ship_lost: reports@[s2 as int]->Some_0.ship_lost,
                        ship_destroyed: reports@[s2 as int]->Some_0.ship_destroyed,
                        population_killed: reports@[s2 as int]->Some_0.population_killed,
                        player_name: universe.players@[
                            reports@[s2 as int]->Some_0.against as int
                        ].name,
                    },
                ),
        decreases reports@.len() - s,
    {
        let ghost before = msgs@;
        if let Some(r) = reports[s] {
            msgs.push(
                Message::Fight {
                    index: s,
                    star_name: universe.galaxy[s].name.clone(),
                    attacker: r.attacker,
                    ship_lost: r.ship_lost,
                    ship_destroyed: r.ship_destroyed,
                    population_killed: r.population_killed,
                    player_name: universe.players[r.against].name.clone(),
                },
            );
            proof {
                assert forall|s2: usize|
                    s2 < s + 1 && (#[trigger] reports@[s2 as int]) is Some implies msgs@.contains(
                    Message::Fight {
                        index: s2,
                        star_name: universe.galaxy@[s2 as int].name,
                        attacker: reports@[s2 as int]->Some_0.attacker,
                        ship_lost: reports@[s2 as int]->Some_0.ship_lost,
                        ship_destroyed: reports@[s2 as int]->Some_0.ship_destroyed,
                        population_killed: reports@[s2 as int]->Some_0.population_killed,
                        player_name: universe.players@[
                            reports@[s2 as int]->Some_0.against as int
                        ].name,
                    },
                ) by {
                    let m = Message::Fight {
                        index: s2,
                        star_name: universe.galaxy@[s2 as int].name,
                        attacker: reports@[s2 as int]->Some_0.attacker,
                        ship_lost: reports@[s2 as int]->Some_0.ship_lost,
                        ship_destroyed: reports@[s2 as int]->Some_0.ship_destroyed,
                        population_killed: reports@[s2 as int]->Some_0.population_killed,
                        player_name: universe.players@[
                            reports@[s2 as int]->Some_0.against as int
                        ].name,
                    };
                    if s2 < s {
                        let w = choose|w: int| 0 <= w < before.len() && before[w] == m;
                        assert(msgs@[w] == m);
                    } else {
                        assert(msgs@[before.len() as int] == m);
                    }
                }
            }
        }
        s = s + 1;
    }
}

/// Resolve one turn for the human player's game: the per-player economy
/// (skipped on the very first turn), fleet movement and combat, end-of-turn
/// bookkeeping, and the terminal win/lose check.  The messages of the turn
/// come out sorted by category, always include the turn header, and include
/// exactly the terminal message the resulting world state calls for.
#[verifier::rlimit(100)]
pub fn resolve_player_turn(universe: &mut Universe, fleets: &mut Vec<Fleet>, turns: &mut Turns)
    requires
        old(universe).wf_at(old(turns).count as int),
        fleets_wf(old(fleets)@, old(universe).galaxy@, old(universe).n_players()),
        old(fleets)@.len() <= 100_000_000,
        old(turns).count < u32::MAX,
    ensures
        final(turns).count == old(turns).count + 1,
        final(universe).wf_at(final(turns).count as int),
        fleets_wf(final(fleets)@, final(universe).galaxy@, final(universe).n_players()),
        final(fleets)@.len() <= old(fleets)@.len(),
        final(universe).galaxy@ == old(universe).galaxy@,
        final(universe).n_players() == old(universe).n_players(),
        sorted_by_order(final(turns).messages@),
        final(turns).messages@.contains(Message::Turn(final(turns).count)),
        final(turns).messages@.contains(
            Message::Lose { condition: LoseCondition::NoMoreColonies },
        ) <==> lose_no_colonies_cond(*final(universe)),
        final(turns).messages@.contains(Message::Lose { condition: LoseCondition::Deficit })
            <==> lose_deficit_cond(*final(universe)),
        final(turns).messages@.contains(Message::Win) <==> win_cond(*final(universe)),
        // Exactly one turn header, and no header of any other turn.
        forall|k: int|
            0 <= k < final(turns).messages@.len() && (#[trigger] final(turns).messages@[k])
                is Turn ==> final(turns).messages@[k] == Message::Turn(final(turns).count),
        final(turns).messages@.to_multiset().count(Message::Turn(final(turns).count)) == 1,
        // Star stocks move only with the economy: combat never harvests,
        // and on the very first turn nothing grows either.
        forall|s: int|
            0 <= s < old(universe).n_stars()
                ==> (#[trigger] final(universe).star_details@[s]).resources == if old(
                turns,
            ).count != 0 {
                old(universe).spec_economy_detail(old(turns).count as int, s).resources as int
            } else {
                old(universe).star_details@[s].resources as int
            },
        old(turns).count == 0 ==> forall|s: int|
            0 <= s < old(universe).n_stars()
                ==> ((#[trigger] final(universe).star_details@[s]).population <= old(
                universe,
            ).star_details@[s].population || final(universe).star_details@[s].population
                <= POP_SEED),
        // A lone colony ship arriving this call at an unowned star founds
        // the colony: ownership, the population seed, the arrival turn, the
        // owner's vision, the ship's consumption, and the human player's
        // message are all pinned.
        forall|s: int|
            0 <= s < old(universe).n_stars() && #[trigger] lone_colonist_arrival(
                old(fleets)@,
                *old(universe),
                s,
            ) ==> {
                let who = old(fleets)@[0].owner.0;
                &&& final(universe).star_details@[s] == (StarDetails {
                    population: POP_SEED,
                    resources: old(universe).star_details@[s].resources,
                    owner: who,
                    owned_since: old(turns).count,
                })
                &&& final(fleets)@.len() == 0
                &&& final(universe).players@[who as int].vision@[s] == StarState::Owned(who)
                &&& (who == HUMAN_PLAYER ==> final(turns).messages@.contains(
                    Message::ColonyFounded {
                        star_name: old(universe).galaxy@[s].name,
                        index: old(fleets)@[0].order->Move_to,
                    },
                ))
            },
        // On the very first turn, a lone fighter fleet arriving at a star a
        // hostile population defends resolves population combat exactly:
        // wiping the population consumes one fighter per 10.00 population
        // rounded up and unowns the star, anything less consumes the fleet;
        // a human attacker reads the full fight report.
        old(turns).count == 0 ==> forall|s: int|
            0 <= s < old(universe).n_stars() && #[trigger] lone_fighter_attack(
                old(fleets)@,
                *old(universe),
                s,
            ) ==> {
                let f = old(fleets)@[0];
                let a = f.owner.0;
                let d = old(universe).star_details@[s].owner;
                let pop = old(universe).star_details@[s].population;
                let needed = fighters_needed(pop as int);
                &&& (needed <= f.size.0 ==> {
                    &&& final(universe).star_details@[s] == (StarDetails {
                        population: 0,
                        resources: old(universe).star_details@[s].resources,
                        owner: NO_OWNER,
                        owned_since: old(universe).star_details@[s].owned_since,
                    })
                    &&& (f.size.0 > needed ==> final(fleets)@.len() == 1 && final(fleets)@[0]
                        == (Fleet {
                        order: Order::Orbit(f.order->Move_to),
                        ship: f.ship,
                        size: FleetSize((f.size.0 - needed) as u32),
                        owner: f.owner,
                    }))
                    &&& (f.size.0 == needed ==> final(fleets)@.len() == 0)
                    &&& (a != HUMAN_PLAYER && d == HUMAN_PLAYER
                        ==> final(turns).messages@.contains(
                        Message::ColonyDestroyed {
                            star_name: old(universe).galaxy@[s].name,
                            index: f.order->Move_to,
                            player_name: old(universe).players@[a as int].name,
                        },
                    ))
                    &&& (a == HUMAN_PLAYER ==> final(turns).messages@.contains(
                        Message::Fight {
                            index: f.order->Move_to,
                            star_name: old(universe).galaxy@[s].name,
                            attacker: true,
                            ship_lost: needed as u32,
                            ship_destroyed: 0,
                            population_killed: pop,
                            player_name: old(universe).players@[d as int].name,
                        },
                    ))
                })
                &&& (needed > f.size.0 ==> {
                    &&& final(universe).star_details@[s] == (StarDetails {
                        population: (pop - f.size.0 * POP_PER_FIGHTER) as u64,
                        resources: old(universe).star_details@[s].resources,
                        owner: d,
                        owned_since: old(universe).star_details@[s].owned_since,
                    })
                    &&& final(fleets)@.len() == 0
                    &&& (a == HUMAN_PLAYER ==> final(turns).messages@.contains(
                        Message::Fight {
                            index: f.order->Move_to,
                            star_name: old(universe).galaxy@[s].name,
                            attacker: true,
                            ship_lost: f.size.0,
                            ship_destroyed: 0,
                            population_killed: (f.size.0 * POP_PER_FIGHTER) as u64,
                            player_name: old(universe).players@[d as int].name,
                        },
                    ))
                })
            },
        // The economic step is the only thing that moves accounts: on every
        // turn but the very first, each player's savings move by their
        // revenue and their stockpile by their harvest, both saturating;
        // on turn zero both stay put.
        forall|p: int|
            0 <= p < old(universe).n_players() ==> {
                let pl = #[trigger] final(universe).players@[p];
                let o = old(universe).players@[p];
                if old(turns).count != 0 {
                    &&& pl.savings == crate::math::clamp_i(
                        o.savings + old(universe).spec_player_revenue(p),
                        -crate::economy::SAVINGS_CAP as int,
                        crate::economy::SAVINGS_CAP as int,
                    )
                    &&& pl.resources == crate::math::clamp_i(
                        o.resources + old(universe).spec_player_harvest(p),
                        0,
                        crate::economy::STOCK_CAP as int,
                    )
                } else {
                    &&& pl.savings == o.savings
                    &&& pl.resources == o.resources
                }
            },
{
    let mut msgs: Vec<Message> = Vec::new();

    if turns.count != 0 {
        universe.economy_update(turns.count);
    }
    let ghost u_econ = *universe;
    proof {
        // The economy never touches an unowned star, so a lone-arrival
        // scenario of the input state is one of the economized state too.
        assert forall|s: int|
            0 <= s < old(universe).n_stars() && lone_colonist_arrival(
                fleets@,
                *old(universe),
                s,
            ) implies lone_colonist_arrival(fleets@, u_econ, s) by {
            if old(turns).count != 0 {
                assert(u_econ.star_details@[s] == old(universe).spec_economy_detail(
                    old(turns).count as int,
                    s,
                ));
            }
        }
        assert forall|s: int|
            0 <= s < old(universe).n_stars() && old(turns).count == 0 && lone_fighter_attack(
                fleets@,
                *old(universe),
                s,
            ) implies lone_fighter_attack(fleets@, u_econ, s) by {}
    }

    let (presence, mut fighters) = prescan_fleets(universe, fleets);
    let n = universe.galaxy.len();
    let mut reports: Vec<Option<FightReport>> = Vec::new();
    let mut s: usize = 0;
    while s < n
        invariant
            s <= n,
            reports@.len() == s,
            forall|j: int| 0 <= j < s ==> (#[trigger] reports@[j]) matches None,
        decreases n - s,
    {
        reports.push(None);
        s = s + 1;
    }

    let out = resolve_fleets(
        universe,
        fleets,
        turns.count,
        &presence,
        &mut fighters,
        &mut reports,
        &mut msgs,
    );
    let ghost n_fleets_before = fleets@.len();
    *fleets = out;
    let ghost combat_msgs = msgs@;
    let ghost combat_reports = reports@;

    emit_fight_messages(universe, &reports, &mut msgs);
    let ghost emit_msgs = msgs@;

    let rev = universe.player_revenue(HUMAN_PLAYER);
    if rev < 0 {
        msgs.push(
            Message::Story {
                title: "Revenue Alert!".to_owned(),
                details: "You have negative revenue.\nToo much debt and you'll lose\nthe game.".to_owned(),
                order: 0,
                index: None,
            },
        );
    }

    turns.count = turns.count + 1;
    let c = turns.count;
    let ghost before_turn = msgs@;
    proof {
        assert(forall|k: int|
            0 <= k < before_turn.len() ==> !((#[trigger] before_turn[k]) is Turn)) by {
            assert forall|k: int| 0 <= k < before_turn.len() implies !((
            #[trigger] before_turn[k]) is Turn) by {
                if before_turn[k] is Turn {
                    assert(before_turn[k].spec_order() == 0);
                }
            }
        }
    }
    msgs.push(Message::Turn(c));
    let ghost ti = msgs@.len() - 1;
    if c == 1 {
        msgs.push(
            Message::Story {
                title: "You can see your starting\nstar system".to_owned(),
                details: "Click on it for more details.".to_owned(),
                order: 0,
                index: None,
            },
        );
        let start = universe.players[HUMAN_PLAYER].start;
        msgs.push(
            Message::Story {
                title: "Fleet panel".to_owned(),
                details: "Drag and drop your colony ship\nto another star to launch it.".to_owned(),
                order: 1,
                index: Some(start),
            },
        );
        msgs.push(
            Message::Story {
                title: "Ending turn".to_owned(),
                details: "You can end your turn with the\nbutton in the bottom right corner.".to_owned(),
                order: 1,
                index: None,
            },
        );
        msgs.push(
            Message::Story {
                title: "Let's explore!".to_owned(),
                details: "".to_owned(),
                order: 4,
                index: None,
            },
        );
    }

    // Terminal conditions, evaluated on the post-combat world state.
    let owns_any = human_owns_any_exec(universe);
    let deficit = universe.players[HUMAN_PLAYER].savings < DEFICIT_LIMIT;
    let enemies = enemy_owns_any_exec(universe);
    let ghost pre_outcome = msgs@;
    proof {
        assert(pre_outcome[ti] == Message::Turn(c));
        assert(pre_outcome.contains(Message::Turn(c)));
        assert(forall|k: int|
            0 <= k < pre_outcome.len() ==> (#[trigger] pre_outcome[k].spec_order()) != 5);
    }
    if !owns_any {
        msgs.push(Message::Lose { condition: LoseCondition::NoMoreColonies });
    } else if deficit {
        msgs.push(Message::Lose { condition: LoseCondition::Deficit });
    } else if !enemies {
        msgs.push(Message::Win);
    }
    let ghost pre_sort = msgs@;
    proof {
        let lnc = Message::Lose { condition: LoseCondition::NoMoreColonies };
        let ld = Message::Lose { condition: LoseCondition::Deficit };
        if !owns_any {
            assert(pre_sort == pre_outcome.push(lnc));
            assert(lnc.spec_order() == 5);
        } else if deficit {
            assert(pre_sort == pre_outcome.push(ld));
            assert(ld.spec_order() == 5);
        } else if !enemies {
            assert(pre_sort == pre_outcome.push(Message::Win));
            assert(Message::Win.spec_order() == 5);
        } else {
            assert(pre_sort == pre_outcome);
        }
        assert(pre_sort.contains(Message::Turn(c))) by {
            assert(pre_sort[ti] == Message::Turn(c));
        }
        lemma_contains_outcome(pre_outcome, pre_sort, lnc);
        lemma_contains_outcome(pre_outcome, pre_sort, ld);
        lemma_contains_outcome(pre_outcome, pre_sort, Message::Win);
        assert(pre_sort.contains(lnc) <==> lose_no_colonies_cond(*universe));
        assert(pre_sort.contains(ld) <==> lose_deficit_cond(*universe));
        assert(pre_sort.contains(Message::Win) <==> win_cond(*universe));
        assert forall|k: int| 0 <= k < pre_sort.len() && k != ti implies !((
        #[trigger] pre_sort[k]) is Turn) by {
            if k < before_turn.len() {
                assert(pre_sort[k] == before_turn[k]);
            }
        }
        lemma_turn_count_one(pre_sort, ti, c);
    }
    sort_messages(&mut msgs);
    proof {
        broadcast use group_to_multiset_ensures;

        assert(msgs@.to_multiset().count(Message::Turn(c)) == 1);
        assert forall|k: int| 0 <= k < msgs@.len() && (#[trigger] msgs@[k]) is Turn implies
            msgs@[k] == Message::Turn(c) by {
            let x = msgs@[k];
            assert(msgs@.contains(x));
            assert(msgs@.to_multiset().count(x) > 0);
            assert(pre_sort.to_multiset().count(x) > 0);
            assert(pre_sort.contains(x));
            let j = choose|j: int| 0 <= j < pre_sort.len() && pre_sort[j] == x;
            assert(j == ti);
        }
        lemma_multiset_same_contains(pre_sort, msgs@, Message::Turn(c));
        lemma_multiset_same_contains(
            pre_sort,
            msgs@,
            Message::Lose { condition: LoseCondition::NoMoreColonies },
        );
        lemma_multiset_same_contains(
            pre_sort,
            msgs@,
            Message::Lose { condition: LoseCondition::Deficit },
        );
        lemma_multiset_same_contains(pre_sort, msgs@, Message::Win);
        // The world-state half of the lone-arrival scenarios.
        assert forall|s: int|
            0 <= s < old(universe).n_stars() && lone_colonist_arrival(
                old(fleets)@,
                *old(universe),
                s,
            ) implies ({
            let who = old(fleets)@[0].owner.0;
            &&& universe.star_details@[s] == (StarDetails {
                population: POP_SEED,
                resources: old(universe).star_details@[s].resources,
                owner: who,
                owned_since: old(turns).count,
            })
            &&& fleets@.len() == 0
            &&& universe.players@[who as int].vision@[s] == StarState::Owned(who)
        }) by {
            let who = old(fleets)@[0].owner.0;
            assert(lone_colonist_arrival(old(fleets)@, u_econ, s));
            assert(u_econ.star_details@[s] == old(universe).star_details@[s]) by {
                if old(turns).count != 0 {
                    assert(u_econ.star_details@[s] == old(universe).spec_economy_detail(
                        old(turns).count as int,
                        s,
                    ));
                }
            }
            assert(universe.star_details@ == u_econ.star_details@.update(
                s,
                StarDetails {
                    population: POP_SEED,
                    resources: u_econ.star_details@[s].resources,
                    owner: who,
                    owned_since: old(turns).count,
                },
            ));
            assert(universe.players@[who as int].vision@ == u_econ.players@[
                who as int
            ].vision@.update(s, StarState::Owned(who)));
        }
        if old(turns).count == 0 {
            assert forall|s: int|
                0 <= s < old(universe).n_stars() && lone_fighter_attack(
                    old(fleets)@,
                    *old(universe),
                    s,
                ) implies ({
                let f = old(fleets)@[0];
                let d = old(universe).star_details@[s].owner;
                let pop = old(universe).star_details@[s].population;
                let needed = fighters_needed(pop as int);
                &&& (needed <= f.size.0 ==> universe.star_details@[s] == (StarDetails {
                    population: 0,
                    resources: old(universe).star_details@[s].resources,
                    owner: NO_OWNER,
                    owned_since: old(universe).star_details@[s].owned_since,
                }) && (f.size.0 > needed ==> fleets@.len() == 1 && fleets@[0] == (Fleet {
                    order: Order::Orbit(f.order->Move_to),
                    ship: f.ship,
                    size: FleetSize((f.size.0 - needed) as u32),
                    owner: f.owner,
                })) && (f.size.0 == needed ==> fleets@.len() == 0))
                &&& (needed > f.size.0 ==> universe.star_details@[s] == (StarDetails {
                    population: (pop - f.size.0 * POP_PER_FIGHTER) as u64,
                    resources: old(universe).star_details@[s].resources,
                    owner: d,
                    owned_since: old(universe).star_details@[s].owned_since,
                }) && fleets@.len() == 0)
            }) by {
                assert(lone_fighter_attack(old(fleets)@, u_econ, s));
                assert(u_econ == *old(universe));
            }
        }
        // Scenario messages survive the later pushes and the sort.
        assert forall|s: int|
            0 <= s < old(universe).n_stars() && lone_colonist_arrival(
                old(fleets)@,
                *old(universe),
                s,
            ) && old(fleets)@[0].owner.0 == HUMAN_PLAYER implies msgs@.contains(
            Message::ColonyFounded {
                star_name: old(universe).galaxy@[s].name,
                index: old(fleets)@[0].order->Move_to,
            },
        ) by {
            let m = Message::ColonyFounded {
                star_name: old(universe).galaxy@[s].name,
                index: old(fleets)@[0].order->Move_to,
            };
            assert(lone_colonist_arrival(old(fleets)@, u_econ, s));
            assert(combat_msgs.contains(m));
            lemma_extension_keeps_contains(combat_msgs, emit_msgs, m);
            lemma_extension_keeps_contains(emit_msgs, pre_sort, m);
            lemma_multiset_same_contains(pre_sort, msgs@, m);
        }
        if old(turns).count == 0 {
            assert forall|s: int|
                0 <= s < old(universe).n_stars() && lone_fighter_attack(
                    old(fleets)@,
                    *old(universe),
                    s,
                ) implies ({
                let f = old(fleets)@[0];
                let a = f.owner.0;
                let d = old(universe).star_details@[s].owner;
                let pop = old(universe).star_details@[s].population;
                let needed = fighters_needed(pop as int);
                &&& (needed <= f.size.0 && a != HUMAN_PLAYER && d == HUMAN_PLAYER
                    ==> msgs@.contains(
                    Message::ColonyDestroyed {
                        star_name: old(universe).galaxy@[s].name,
                        index: f.order->Move_to,
                        player_name: old(universe).players@[a as int].name,
                    },
                ))
                &&& (needed <= f.size.0 && a == HUMAN_PLAYER ==> msgs@.contains(
                    Message::Fight {
                        index: f.order->Move_to,
                        star_name: old(universe).galaxy@[s].name,
                        attacker: true,
                        ship_lost: needed as u32,
                        ship_destroyed: 0,
                        population_killed: pop,
                        player_name: old(universe).players@[d as int].name,
                    },
                ))
                &&& (needed > f.size.0 && a == HUMAN_PLAYER ==> msgs@.contains(
                    Message::Fight {
                        index: f.order->Move_to,
                        star_name: old(universe).galaxy@[s].name,
                        attacker: true,
                        ship_lost: f.size.0,
                        ship_destroyed: 0,
                        population_killed: (f.size.0 * POP_PER_FIGHTER) as u64,
                        player_name: old(universe).players@[d as int].name,
                    },
                ))
            }) by {
                let f = old(fleets)@[0];
                let a = f.owner.0;
                let d = old(universe).star_details@[s].owner;
                let pop = old(universe).star_details@[s].population;
                let needed = fighters_needed(pop as int);
                let st = f.order->Move_to;
                assert(lone_fighter_attack(old(fleets)@, u_econ, s));
                if needed <= f.size.0 && a != HUMAN_PLAYER && d == HUMAN_PLAYER {
                    let m = Message::ColonyDestroyed {
                        star_name: old(universe).galaxy@[s].name,
                        index: st,
                        player_name: old(universe).players@[a as int].name,
                    };
                    assert(combat_msgs.contains(m));
                    lemma_extension_keeps_contains(combat_msgs, emit_msgs, m);
                    lemma_extension_keeps_contains(emit_msgs, pre_sort, m);
                    lemma_multiset_same_contains(pre_sort, msgs@, m);
                }
                if a == HUMAN_PLAYER {
                    let lost: u32 = if needed <= f.size.0 {
                        needed as u32
                    } else {
                        f.size.0
                    };
                    let killed: u64 = if needed <= f.size.0 {
                        pop
                    } else {
                        (f.size.0 * POP_PER_FIGHTER) as u64
                    };
                    let m = Message::Fight {
                        index: st,
                        star_name: old(universe).galaxy@[s].name,
                        attacker: true,
                        ship_lost: lost,
                        ship_destroyed: 0,
                        population_killed: killed,
                        player_name: old(universe).players@[d as int].name,
                    };
                    assert(combat_reports[st as int] == Some(
                        FightReport {
                            against: d,
                            attacker: true,
                            ship_lost: lost,
                            ship_destroyed: 0,
                            population_killed: killed,
                        },
                    ));
                    assert(emit_msgs.contains(m));
                    lemma_extension_keeps_contains(emit_msgs, pre_sort, m);
                    lemma_multiset_same_contains(pre_sort, msgs@, m);
                }
            }
        }
    }
    turns.messages = msgs;
}

/// A message with category priority 5 appended (or not) to a sequence with
/// no priority-5 messages is contained in the result exactly when it is the
/// appended one.
proof fn lemma_contains_outcome(base: Seq<Message>, full: Seq<Message>, m: Message)
    requires
        m.spec_order() == 5,
        forall|k: int| 0 <= k < base.len() ==> (#[trigger] base[k].spec_order()) != 5,
        full == base || exists|x: Message| x.spec_order() == 5 && full == base.push(x),
    ensures
        full.contains(m) <==> (full.len() == base.len() + 1 && full[base.len() as int] == m),
{
    if full == base {
        if full.contains(m) {
            let k = choose|k: int| 0 <= k < full.len() && full[k] == m;
            assert(base[k].spec_order() != 5);
            assert(false);
        }
    } else {
        let x = choose|x: Message| x.spec_order() == 5 && full == base.push(x);
        if full.contains(m) {
            let k = choose|k: int| 0 <= k < full.len() && full[k] == m;
            if k < base.len() {
                assert(base[k].spec_order() != 5);
                assert(false);
            }
        }
        if full[base.len() as int] == m {
            assert(full.contains(m));
        }
    }
}

/// A sequence with no turn header holds none in its multiset either.
proof fn lemma_no_turn_count_zero(s: Seq<Message>, c: u32)
    requires
        forall|k: int| 0 <= k < s.len() ==> !((#[trigger] s[k]) is Turn),
    ensures
        s.to_multiset().count(Message::Turn(c)) == 0,
{
    broadcast use group_to_multiset_ensures;

    if s.to_multiset().count(Message::Turn(c)) > 0 {
        assert(s.contains(Message::Turn(c)));
        let j = choose|j: int| 0 <= j < s.len() && s[j] == Message::Turn(c);
        assert(!(s[j] is Turn));
        assert(false);
    }
}

/// A sequence whose only turn header sits at index `i` counts it once.
proof fn lemma_turn_count_one(s: Seq<Message>, i: int, c: u32)
    requires
        0 <= i < s.len(),
        s[i] == Message::Turn(c),
        forall|k: int| 0 <= k < s.len() && k != i ==> !((#[trigger] s[k]) is Turn),
    ensures
        s.to_multiset().count(Message::Turn(c)) == 1,
    decreases s.len(),
{
    broadcast use group_to_multiset_ensures;

    let d = s.drop_last();
    assert(s =~= d.push(s.last()));
    assert(s.to_multiset() =~= d.to_multiset().insert(s.last()));
    if i == s.len() - 1 {
        lemma_no_turn_count_zero(d, c);
    } else {
        lemma_turn_count_one(d, i, c);
        assert(!(s.last() is Turn));
        assert(s.last() != Message::Turn(c));
    }
}

/// A sequence extended at the end still contains what it contained.
proof fn lemma_extension_keeps_contains(a: Seq<Message>, b: Seq<Message>, m: Message)
    requires
        a.contains(m),
        a.len() <= b.len(),
        forall|k: int| 0 <= k < a.len() ==> a[k] == b[k],
    ensures
        b.contains(m),
{
    let w = choose|w: int| 0 <= w < a.len() && a[w] == m;
    assert(b[w] == m);
}

/// Two sequences with the same multiset contain the same values.
proof fn lemma_multiset_same_contains(a: Seq<Message>, b: Seq<Message>, m: Message)
    requires
        a.to_multiset() == b.to_multiset(),
    ensures
        a.contains(m) <==> b.contains(m),
{
    broadcast use group_to_multiset_ensures;

    assert(a.contains(m) <==> a.to_multiset().count(m) > 0);
    assert(b.contains(m) <==> b.to_multiset().count(m) > 0);
}

} // verus!
