//! The mutable world state: star ownership, players, and the per-turn
//! economy.
//!
//! `Universe` owns the immutable galaxy together with the per-star ownership
//! bookkeeping and the players.  Its economic step runs once per turn for
//! every player: each owned star grows its population and is harvested, and
//! each player's savings move by the revenue of their colonies.
use vstd::prelude::*;
use crate::galaxy::Star;
use crate::economy::{POP_CAP, RES_CAP, STOCK_CAP, SAVINGS_CAP, star_revenue_centi,
    pop_after_growth, res_after_harvest, harvest_take, grow_population, harvest,
    star_revenue_exec};
use crate::math::{clamp_i, add_clamp_i64, add_clamp_u64};

verus! {

/// The owner index of a star nobody holds.
pub const NO_OWNER: usize = usize::MAX;

/// A galaxy never holds more stars than this.
pub const MAX_STARS: usize = 100_000;

/// The population a freshly founded colony starts with (10.00).
pub const POP_SEED: u64 = 1000;

/// Per-star ownership and economic bookkeeping, parallel to the galaxy.
#[derive(Clone, Copy, PartialEq, Eq, Structural, Debug)]
pub struct StarDetails {
    pub population: u64,
    pub resources: u64,
    pub owner: usize,
    pub owned_since: u32,
}

/// What one player knows about one star.  Knowledge is only updated when a
/// fleet of that player arrives, so it may lag the ground truth.
#[derive(Clone, Copy, PartialEq, Eq, Structural, Debug)]
pub enum StarState {
    Owned(usize),
    Unknown,
    Uninhabited,
}

/// One participant: a starting star, a fog-of-war map, and an account.
pub struct Player {
    pub start: usize,
    pub vision: Vec<StarState>,
    pub savings: i64,
    pub resources: u64,
    pub first_colony_done: bool,
    pub name: String,
}

/// The world state the turn engine owns and mutates.
pub struct Universe {
    pub galaxy: Vec<Star>,
    pub players: Vec<Player>,
    pub star_details: Vec<StarDetails>,
}

impl StarDetails {
    /// Owner is a player or the sentinel, and the stocks respect their caps.
    pub open spec fn wf(self, n_players: int) -> bool {
        &&& (self.owner == NO_OWNER || self.owner < n_players)
        &&& self.population <= POP_CAP
        &&& self.resources <= RES_CAP
    }
}

impl Player {
    /// Starting star and vision fit the galaxy; the account is in range.
    pub open spec fn wf(self, n_stars: int) -> bool {
        &&& self.start < n_stars
        &&& self.vision@.len() == n_stars
        &&& -SAVINGS_CAP <= self.savings <= SAVINGS_CAP
        &&& self.resources <= STOCK_CAP
    }
}

impl Universe {
    pub open spec fn n_stars(self) -> int {
        self.galaxy@.len() as int
    }

    pub open spec fn n_players(self) -> int {
        self.players@.len() as int
    }

    /// Structural well-formedness, independent of the turn counter.
    pub open spec fn wf_core(self) -> bool {
        &&& self.star_details@.len() == self.galaxy@.len()
        &&& self.galaxy@.len() <= MAX_STARS
        &&& 1 <= self.players@.len()
        &&& self.players@.len() < NO_OWNER
        &&& (forall|i: int| 0 <= i < self.n_stars() ==> (#[trigger] self.galaxy@[i]).wf())
        &&& (forall|i: int|
            0 <= i < self.n_players() ==> (#[trigger] self.players@[i]).wf(self.n_stars()))
        &&& (forall|i: int|
            0 <= i < self.n_stars() ==> (#[trigger] self.star_details@[i]).wf(self.n_players()))
    }

    /// Well-formedness at turn `count`: additionally, no star has been owned
    /// since a future turn.
    pub open spec fn wf_at(self, count: int) -> bool {
        &&& self.wf_core()
        &&& (forall|i: int|
            0 <= i < self.n_stars() && (#[trigger] self.star_details@[i]).owner != NO_OWNER
                ==> self.star_details@[i].owned_since <= count)
    }

    /// Does star `s` have the color of player `p`'s home star?
    pub open spec fn ideal_color(self, s: int, p: int) -> bool {
        self.galaxy@[s].color == self.galaxy@[self.players@[p].start as int].color
    }

    /// Does star `s` have the size of player `p`'s home star?
    pub open spec fn ideal_size(self, s: int, p: int) -> bool {
        self.galaxy@[s].size == self.galaxy@[self.players@[p].start as int].size
    }

    /// The revenue of star `s` for its current owner.
    pub open spec fn spec_star_revenue(self, s: int) -> int {
        star_revenue_centi(
            self.star_details@[s].population as int,
            self.ideal_color(s, self.star_details@[s].owner as int),
        )
    }

    /// Revenue of player `p` over the first `n` stars.
    pub open spec fn revenue_prefix(self, p: int, n: int) -> int
        decreases n,
    {
        if n <= 0 {
            0
        } else {
            self.revenue_prefix(p, n - 1) + if self.star_details@[n - 1].owner == p {
                self.spec_star_revenue(n - 1)
            } else {
                0
            }
        }
    }

    /// The revenue of a player: the sum, over every star that player owns,
    /// of the per-star revenue.
    pub open spec fn spec_player_revenue(self, p: int) -> int {
        self.revenue_prefix(p, self.n_stars())
    }

    /// Harvest of player `p` over the first `n` stars.
    pub open spec fn harvest_prefix(self, p: int, n: int) -> int
        decreases n,
    {
        if n <= 0 {
            0
        } else {
            self.harvest_prefix(p, n - 1) + if self.star_details@[n - 1].owner == p {
                harvest_take(self.star_details@[n - 1].resources as int, self.ideal_color(n - 1, p))
            } else {
                0
            }
        }
    }

    /// Everything player `p` harvests from their stars in one turn.
    pub open spec fn spec_player_harvest(self, p: int) -> int {
        self.harvest_prefix(p, self.n_stars())
    }

    /// Population of player `p` over the first `n` stars.
    pub open spec fn population_prefix(self, p: int, n: int) -> int
        decreases n,
    {
        if n <= 0 {
            0
        } else {
            self.population_prefix(p, n - 1) + if self.star_details@[n - 1].owner == p {
                self.star_details@[n - 1].population as int
            } else {
                0
            }
        }
    }

    /// The total population of a player's stars.
    pub open spec fn spec_player_population(self, p: int) -> int {
        self.population_prefix(p, self.n_stars())
    }

    /// A player's revenue is the sum, star by star, of the same per-star
    /// revenue the economic step credits: each prefix of the sum extends
    /// the previous one by the revenue of the next owned star, and the
    /// whole-galaxy prefix is the player's revenue.
    pub proof fn lemma_player_revenue_is_sum(self, p: int, n: int)
        requires
            0 <= n <= self.n_stars(),
        ensures
            n > 0 ==> self.revenue_prefix(p, n) == self.revenue_prefix(p, n - 1) + (
            if self.star_details@[n - 1].owner == p {
                self.spec_star_revenue(n - 1)
            } else {
                0int
            }),
            self.spec_player_revenue(p) == self.revenue_prefix(p, self.n_stars()),
    {
    }

    /// What one star can yield in a turn is small, so harvest totals stay
    /// tiny compared to the stockpile cap.
    pub proof fn lemma_harvest_prefix_bounds(self, p: int, n: int)
        requires
            n >= 0,
        ensures
            0 <= self.harvest_prefix(p, n) <= 150 * n,
        decreases n,
    {
        if n > 0 {
            self.lemma_harvest_prefix_bounds(p, n - 1);
        }
    }

    /// What one turn of the economy does to star `s`.
    pub open spec fn spec_economy_detail(self, count: int, s: int) -> StarDetails {
        let d = self.star_details@[s];
        if d.owner == NO_OWNER {
            d
        } else {
            StarDetails {
                population: pop_after_growth(
                    d.population as int,
                    count,
                    d.owned_since as int,
                    self.ideal_color(s, d.owner as int),
                    self.ideal_size(s, d.owner as int),
                ) as u64,
                resources: res_after_harvest(
                    d.resources as int,
                    self.ideal_color(s, d.owner as int),
                ) as u64,
                ..d
            }
        }
    }

    /// The revenue one owned star currently yields for its owner.
    pub fn star_revenue(&self, star_index: usize) -> (r: i64)
        requires
            self.wf_core(),
            star_index < self.n_stars(),
            self.star_details@[star_index as int].owner != NO_OWNER,
        ensures
            r == self.spec_star_revenue(star_index as int),
    {
        let d = self.star_details[star_index];
        let home = self.players[d.owner].start;
        let ideal = self.galaxy[star_index].color == self.galaxy[home].color;
        star_revenue_exec(d.population, ideal)
    }

    /// The extractable resource level of star `s` for its owner: the raw
    /// stock filtered through the harvest power law.
    pub open spec fn spec_star_ressource(self, s: int) -> int {
        if self.ideal_color(s, self.star_details@[s].owner as int) {
            crate::economy::pow45_centi(self.star_details@[s].resources as int)
        } else {
            crate::economy::pow32_centi(self.star_details@[s].resources as int * 12 / 10)
        }
    }

    /// The extractable resources of one owned star.
    pub fn star_ressource(&self, star_index: usize) -> (r: u64)
        requires
            self.wf_core(),
            star_index < self.n_stars(),
            self.star_details@[star_index as int].owner != NO_OWNER,
        ensures
            r == self.spec_star_ressource(star_index as int),
    {
        let d = self.star_details[star_index];
        let home = self.players[d.owner].start;
        let ideal = self.galaxy[star_index].color == self.galaxy[home].color;
        if ideal {
            crate::economy::pow45_exec(d.resources)
        } else {
            crate::economy::pow32_exec(d.resources * 12 / 10)
        }
    }

    /// The total population of a player's colonies.
    pub fn player_population(&self, player: usize) -> (p: u64)
        requires
            self.wf_core(),
            player < self.n_players(),
        ensures
            p == self.spec_player_population(player as int),
    {
        let n = self.star_details.len();
        let mut acc: u64 = 0;
        let mut i: usize = 0;
        while i < n
            invariant
                self.wf_core(),
                player < self.n_players(),
                n == self.n_stars(),
                i <= n,
                acc == self.population_prefix(player as int, i as int),
                acc <= i * POP_CAP,
            decreases n - i,
        {
            if self.star_details[i].owner == player {
                acc = acc + self.star_details[i].population;
            }
            i = i + 1;
        }
        acc
    }

    /// The net revenue of a player: the sum of the revenue of each star the
    /// player owns, as the economic step and the loss check use it.
    pub fn player_revenue(&self, player: usize) -> (r: i64)
        requires
            self.wf_core(),
            player < self.n_players(),
        ensures
            r == self.spec_player_revenue(player as int),
            -200 * self.n_stars() <= r <= 1_000_000 * self.n_stars(),
    {
        let n = self.star_details.len();
        let mut acc: i64 = 0;
        let mut i: usize = 0;
        while i < n
            invariant
                self.wf_core(),
                player < self.n_players(),
                n == self.n_stars(),
                i <= n,
                acc == self.revenue_prefix(player as int, i as int),
                -200 * i <= acc <= 1_000_000 * i,
            decreases n - i,
        {
            let d = self.star_details[i];
            if d.owner == player {
                let home = self.players[player].start;
                let ideal = self.galaxy[i].color == self.galaxy[home].color;
                let r = star_revenue_exec(d.population, ideal);
                acc = acc + r;
            }
            i = i + 1;
        }
        acc
    }

    /// Record what player `p` now knows about star `s`.
    pub fn set_vision(&mut self, p: usize, s: usize, st: StarState)
        requires
            p < old(self).n_players(),
            s < old(self).players@[p as int].vision@.len(),
        ensures
            final(self).galaxy == old(self).galaxy,
            final(self).star_details == old(self).star_details,
            final(self).players@.len() == old(self).players@.len(),
            forall|j: int|
                0 <= j < old(self).n_players() && j != p ==> final(self).players@[j] == old(
                    self,
                ).players@[j],
            final(self).players@[p as int].vision@ == old(self).players@[p as int].vision@.update(
                s as int,
                st,
            ),
            final(self).players@[p as int].start == old(self).players@[p as int].start,
            final(self).players@[p as int].savings == old(self).players@[p as int].savings,
            final(self).players@[p as int].resources == old(self).players@[p as int].resources,
            final(self).players@[p as int].first_colony_done == old(self).players@[
                p as int
            ].first_colony_done,
            final(self).players@[p as int].name == old(self).players@[p as int].name,
            forall|c: int| old(self).wf_at(c) ==> final(self).wf_at(c),
    {
        self.players[p].vision[s] = st;
        proof {
            assert forall|c: int| old(self).wf_at(c) implies self.wf_at(c) by {
                assert forall|i: int|
                    0 <= i < self.n_players() implies (#[trigger] self.players@[i]).wf(
                    self.n_stars(),
                ) by {
                    assert(old(self).players@[i].wf(old(self).n_stars()));
                }
            }
        }
    }

    /// One turn of the economy, for every player at once: every owned star
    /// grows and is harvested, every player's stockpile takes in what their
    /// stars yielded, and every player's savings move by their revenue.
    /// Savings and stockpiles saturate at their caps.
    pub fn economy_update(&mut self, count: u32)
        requires
            old(self).wf_at(count as int),
        ensures
            final(self).wf_at(count as int),
            final(self).galaxy == old(self).galaxy,
            final(self).n_players() == old(self).n_players(),
            final(self).n_stars() == old(self).n_stars(),
            forall|s: int|
                0 <= s < old(self).n_stars() ==> final(self).star_details@[s]
                    == old(self).spec_economy_detail(count as int, s),
            forall|p: int|
                0 <= p < old(self).n_players() ==> {
                    let pl = #[trigger] final(self).players@[p];
                    let o = old(self).players@[p];
                    &&& pl.savings == clamp_i(
                        o.savings + old(self).spec_player_revenue(p),
                        -SAVINGS_CAP as int,
                        SAVINGS_CAP as int,
                    )
                    &&& pl.resources == clamp_i(
                        o.resources + old(self).spec_player_harvest(p),
                        0,
                        STOCK_CAP as int,
                    )
                    &&& pl.start == o.start
                    &&& pl.vision == o.vision
                    &&& pl.first_colony_done == o.first_colony_done
                    &&& pl.name == o.name
                },
    {
        let ghost orig: Universe = *self;
        let n_players = self.players.len();
        let n = self.star_details.len();

        // Revenues and harvest totals are computed against the pre-update
        // state; star ownership is disjoint, so per-player order cannot
        // matter.
        let mut revenues: Vec<i64> = Vec::new();
        let mut p: usize = 0;
        while p < n_players
            invariant
                *self == orig,
                orig.wf_at(count as int),
                n_players == orig.n_players(),
                p <= n_players,
                revenues@.len() == p,
                forall|q: int| 0 <= q < p ==> revenues@[q] == orig.spec_player_revenue(q),
            decreases n_players - p,
        {
            let r = self.player_revenue(p);
            revenues.push(r);
            p = p + 1;
        }

        let mut harvested: Vec<u64> = Vec::new();
        let mut q: usize = 0;
        while q < n_players
            invariant
                q <= n_players,
                harvested@.len() == q,
                forall|j: int| 0 <= j < q ==> harvested@[j] == 0,
            decreases n_players - q,
        {
            harvested.push(0);
            q = q + 1;
        }

        let mut s: usize = 0;
        while s < n
            invariant
                orig.wf_at(count as int),
                n == orig.n_stars(),
                n_players == orig.n_players(),
                s <= n,
                self.galaxy == orig.galaxy,
                self.players == orig.players,
                self.star_details@.len() == n,
                harvested@.len() == n_players,
                forall|j: int|
                    0 <= j < n ==> #[trigger] self.star_details@[j] == if j < s {
                        orig.spec_economy_detail(count as int, j)
                    } else {
                        orig.star_details@[j]
                    },
                forall|j: int|
                    0 <= j < n_players ==> #[trigger] harvested@[j]
                        == orig.harvest_prefix(j, s as int),
            decreases n - s,
        {
            let d = self.star_details[s];
            if d.owner != NO_OWNER {
                let o = d.owner;
                let home = self.players[o].start;
                let cm = self.galaxy[s].color == self.galaxy[home].color;
                let sm = self.galaxy[s].size == self.galaxy[home].size;
                let newpop = grow_population(d.population, count, d.owned_since, cm, sm);
                let (nres, take) = harvest(d.resources, cm);
                self.star_details[s] = StarDetails {
                    population: newpop,
                    resources: nres,
                    owner: d.owner,
                    owned_since: d.owned_since,
                };
                proof {
                    orig.lemma_harvest_prefix_bounds(o as int, s as int);
                }
                let cur = harvested[o];
                harvested[o] = cur + take;
            }
            s = s + 1;
        }

        let mut p2: usize = 0;
        while p2 < n_players
            invariant
                orig.wf_at(count as int),
                n_players == orig.n_players(),
                p2 <= n_players,
                revenues@.len() == n_players,
                harvested@.len() == n_players,
                forall|j: int| 0 <= j < n_players ==> revenues@[j] == orig.spec_player_revenue(j),
                forall|j: int|
                    0 <= j < n_players ==> #[trigger] harvested@[j]
                        == orig.harvest_prefix(j, orig.n_stars()),
                self.galaxy == orig.galaxy,
                self.star_details@.len() == orig.n_stars(),
                forall|j: int|
                    0 <= j < orig.n_stars() ==> #[trigger] self.star_details@[j]
                        == orig.spec_economy_detail(count as int, j),
                self.players@.len() == n_players,
                forall|j: int|
                    p2 <= j < n_players ==> #[trigger] self.players@[j] == orig.players@[j],
                forall|j: int|
                    0 <= j < p2 ==> {
                        let pl = #[trigger] self.players@[j];
                        let o = orig.players@[j];
                        &&& pl.savings == clamp_i(
                            o.savings + orig.spec_player_revenue(j),
                            -SAVINGS_CAP as int,
                            SAVINGS_CAP as int,
                        )
                        &&& pl.resources == clamp_i(
                            o.resources + orig.spec_player_harvest(j),
                            0,
                            STOCK_CAP as int,
                        )
                        &&& pl.start == o.start
                        &&& pl.vision == o.vision
                        &&& pl.first_colony_done == o.first_colony_done
                        &&& pl.name == o.name
                    },
            decreases n_players - p2,
        {
            let new_savings = add_clamp_i64(
                self.players[p2].savings,
                revenues[p2],
                -SAVINGS_CAP,
                SAVINGS_CAP,
            );
            let new_resources = add_clamp_u64(self.players[p2].resources, harvested[p2], STOCK_CAP);
            self.players[p2].savings = new_savings;
            self.players[p2].resources = new_resources;
            p2 = p2 + 1;
        }
    }
}

} // verus!
