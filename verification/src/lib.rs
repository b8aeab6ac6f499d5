//! Core simulation library for a turn-based space-conquest game.
//!
//! The library owns the galaxy, player, and fleet state of a running game and
//! advances it one turn at a time: population growth and resource harvesting,
//! fleet movement, exploration, combat resolution, and the ordered narrative
//! messages shown after each turn.  All quantities that the rules act on are
//! plain integers; economic values (population, resources, credits) are held
//! in fixed point with two decimal places, so one unit of population is
//! stored as `100`.
pub mod bots;
pub mod economy;
pub mod fleet;
pub mod galaxy;
pub mod math;
pub mod names;
pub mod rng;
pub mod setup;
pub mod shipyard;
pub mod turns;
pub mod universe;
