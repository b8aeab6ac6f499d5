//! Player build requests and fleet orders.
//!
//! The presentation layer queues commands between turns: build a ship at an
//! owned star, or send an orbiting fleet somewhere.  Both are validated
//! here against the same cost and state rules the bots use, and newly
//! commissioned fleets join the world when the next turn begins.
use vstd::prelude::*;
use crate::fleet::{Fleet, FleetSize, FleetsToSpawn, Order, Owner, Ship, ShipKind, fleet_wf,
    fleets_wf};
use crate::universe::Universe;

verus! {

/// Why a build request was refused.
#[derive(Clone, Copy, PartialEq, Eq, Structural, Debug)]
pub enum BuildError {
    InsufficientSavings,
    InsufficientResources,
}

/// Build one ship of `kind` for `player`, in orbit of `star`.  The request
/// succeeds exactly when the player's savings cover the credit cost and
/// their stockpile covers the resource cost; both are deducted at once and
/// the new fleet joins the spawn queue.  On refusal nothing changes.
pub fn build_fleet(
    universe: &mut Universe,
    fleets_to_spawn: &mut FleetsToSpawn,
    player: usize,
    star: usize,
    kind: ShipKind,
) -> (r: Result<(), BuildError>)
    requires
        old(universe).wf_core(),
        player < old(universe).n_players(),
        star < old(universe).n_stars(),
    ensures
        final(universe).wf_core(),
        final(universe).galaxy == old(universe).galaxy,
        final(universe).star_details == old(universe).star_details,
        final(universe).n_players() == old(universe).n_players(),
        r is Ok <==> old(universe).players@[player as int].savings >= kind.spec_cost_credits()
            && old(universe).players@[player as int].resources >= kind.spec_cost_resources(),
        r == Result::<(), BuildError>::Err(BuildError::InsufficientSavings) <==> old(
            universe,
        ).players@[player as int].savings < kind.spec_cost_credits(),
        r == Result::<(), BuildError>::Err(BuildError::InsufficientResources) <==> old(
            universe,
        ).players@[player as int].savings >= kind.spec_cost_credits() && old(
            universe,
        ).players@[player as int].resources < kind.spec_cost_resources(),
        r is Ok ==> {
            &&& final(universe).players@[player as int].savings == old(universe).players@[
                player as int
            ].savings - kind.spec_cost_credits()
            &&& final(universe).players@[player as int].resources == old(universe).players@[
                player as int
            ].resources - kind.spec_cost_resources()
            &&& final(fleets_to_spawn).0@ == old(fleets_to_spawn).0@.push(
                Fleet {
                    order: Order::Orbit(star),
                    ship: Ship { kind },
                    size: FleetSize(1),
                    owner: Owner(player),
                },
            )
        },
        !(r is Ok) ==> *final(universe) == *old(universe) && final(fleets_to_spawn).0 == old(
            fleets_to_spawn,
        ).0,
        forall|p: int|
            0 <= p < old(universe).n_players() && p != player ==> final(universe).players@[p]
                == old(universe).players@[p],
{
    let cost_c = kind.cost_credits();
    let cost_r = kind.cost_resources();
    if universe.players[player].savings < cost_c as i64 {
        return Err(BuildError::InsufficientSavings);
    }
    if universe.players[player].resources < cost_r {
        return Err(BuildError::InsufficientResources);
    }
    universe.players[player].savings = universe.players[player].savings - cost_c as i64;
    universe.players[player].resources = universe.players[player].resources - cost_r;
    fleets_to_spawn.0.push(
        Fleet {
            order: Order::Orbit(star),
            ship: Ship { kind },
            size: FleetSize(1),
            owner: Owner(player),
        },
    );
    Ok(())
}

/// Send the fleet at `fleet_index` from its orbit toward `to`, starting a
/// fresh move.  Returns whether the order was accepted: only an orbiting
/// fleet can be retargeted.
pub fn set_fleet_order(
    universe: &Universe,
    fleets: &mut Vec<Fleet>,
    fleet_index: usize,
    to: usize,
) -> (r: bool)
    requires
        universe.wf_core(),
        fleets_wf(old(fleets)@, universe.galaxy@, universe.n_players()),
        fleet_index < old(fleets)@.len(),
        to < universe.n_stars(),
    ensures
        fleets_wf(final(fleets)@, universe.galaxy@, universe.n_players()),
        final(fleets)@.len() == old(fleets)@.len(),
        r <==> old(fleets)@[fleet_index as int].order is Orbit,
        r ==> final(fleets)@ == old(fleets)@.update(
            fleet_index as int,
            Fleet {
                order: Order::Move {
                    from: old(fleets)@[fleet_index as int].order->Orbit_0,
                    to,
                    step: 0,
                },
                ..old(fleets)@[fleet_index as int]
            },
        ),
        !r ==> final(fleets)@ == old(fleets)@,
{
    let f = fleets[fleet_index];
    proof {
        assert(fleet_wf(old(fleets)@[fleet_index as int], universe.galaxy@,
            universe.n_players()));
    }
    match f.order {
        Order::Orbit(from) => {
            proof {
                crate::fleet::lemma_travel_time_basics(
                    universe.galaxy@[from as int].position,
                    universe.galaxy@[to as int].position,
                );
            }
            fleets[fleet_index] = Fleet {
                order: Order::Move { from, to, step: 0 },
                ship: f.ship,
                size: f.size,
                owner: f.owner,
            };
            true
        },
        Order::Move { .. } => false,
    }
}

/// Move every queued fleet into the world's fleet collection.
pub fn commission_fleets(universe: &Universe, fleets: &mut Vec<Fleet>, queued: &mut FleetsToSpawn)
    requires
        universe.wf_core(),
        fleets_wf(old(fleets)@, universe.galaxy@, universe.n_players()),
        fleets_wf(old(queued).0@, universe.galaxy@, universe.n_players()),
    ensures
        final(fleets)@ == old(fleets)@ + old(queued).0@,
        final(queued).0@.len() == 0,
        fleets_wf(final(fleets)@, universe.galaxy@, universe.n_players()),
{
    fleets.append(&mut queued.0);
}

} // verus!
