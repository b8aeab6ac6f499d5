//! Stars and the galaxy they form.
//!
//! A galaxy is a sequence of stars, each with an integer position, a size, a
//! color (the "climate" axis of the game), a unique name drawn from a finite
//! pool, and an optional starting-slot marker.  Stars are immutable after
//! generation and are identified by their index in the sequence.
use vstd::prelude::*;
use crate::rng::rand_below;

verus! {

/// Positions live on an integer grid; every coordinate stays within this
/// bound, which keeps all distance arithmetic far away from overflow.
pub const COORD_LIMIT: i64 = 1_000_000;

/// A point of the galaxy map.
#[derive(Clone, Copy, PartialEq, Eq, Structural, Debug)]
pub struct Position {
    pub x: i64,
    pub y: i64,
}

impl Position {
    /// Both coordinates within `COORD_LIMIT`.
    pub open spec fn in_bounds(self) -> bool {
        -COORD_LIMIT <= self.x <= COORD_LIMIT && -COORD_LIMIT <= self.y <= COORD_LIMIT
    }
}

/// Squared Euclidean distance between two positions.
pub open spec fn dist2(a: Position, b: Position) -> int {
    (a.x - b.x) * (a.x - b.x) + (a.y - b.y) * (a.y - b.y)
}

/// The squared distance is symmetric and never negative.
pub proof fn lemma_dist2_basics(a: Position, b: Position)
    ensures
        dist2(a, b) == dist2(b, a),
        dist2(a, b) >= 0,
{
    assert((a.x - b.x) * (a.x - b.x) == (b.x - a.x) * (b.x - a.x) && (a.x - b.x) * (a.x - b.x)
        >= 0) by (nonlinear_arith);
    assert((a.y - b.y) * (a.y - b.y) == (b.y - a.y) * (b.y - a.y) && (a.y - b.y) * (a.y - b.y)
        >= 0) by (nonlinear_arith);
}

/// Squared distance, as executable code.
pub fn dist2_exec(a: Position, b: Position) -> (d: u64)
    requires
        a.in_bounds(),
        b.in_bounds(),
    ensures
        d == dist2(a, b),
{
    let dx = a.x - b.x;
    let dy = a.y - b.y;
    proof {
        assert(dx * dx >= 0 && dx * dx <= 4_000_000_000_000) by (nonlinear_arith)
            requires -2_000_000 <= dx <= 2_000_000;
        assert(dy * dy >= 0 && dy * dy <= 4_000_000_000_000) by (nonlinear_arith)
            requires -2_000_000 <= dy <= 2_000_000;
    }
    (dx * dx + dy * dy) as u64
}

/// The categorical "climate" of a star.  A colony on a star whose color
/// matches the owner's home star grows faster but yields fewer resources.
#[derive(Clone, Copy, PartialEq, Eq, Structural, Debug)]
pub enum StarColor {
    Blue,
    Yellow,
    Orange,
}

/// The size class of a star.  A mismatch with the home star's size halves
/// population growth.
#[derive(Clone, Copy, PartialEq, Eq, Structural, Debug)]
pub enum StarSize {
    Dwarf,
    Subgiant,
    Giant,
}

/// The overall shape of a generated galaxy.
#[derive(Clone, Copy, Debug)]
pub enum GalaxyKind {
    Spiral,
}

/// One star system.
pub struct Star {
    pub position: Position,
    pub size: StarSize,
    pub color: StarColor,
    pub start: Option<usize>,
    pub name: String,
}

impl Star {
    /// A star is well formed when its position is on the bounded grid.
    pub open spec fn wf(&self) -> bool {
        self.position.in_bounds()
    }
}

/// Generates the stars of a new galaxy one by one.  `size` and `density`
/// are scale factors in hundredths (a size of 3.0 is 300); the galaxy
/// radius in map units equals `size`, and the base minimum separation
/// between stars is `10000 / density` units.
pub struct GalaxyCreator {
    pub nb_players: u32,
    pub size: u64,
    pub density: u64,
    pub kind: GalaxyKind,
    pub generated: Vec<Star>,
    pub names: Vec<String>,
}

/// Placement gives up on the separation constraint after this many
/// collisions, which guarantees generation terminates.
pub const MAX_PLACEMENT_FAILS: u64 = 10_000;

impl GalaxyCreator {
    /// Plausible generation parameters.
    pub open spec fn params_wf(self) -> bool {
        &&& 1 <= self.nb_players <= 8
        &&& 100 <= self.size <= 1000
        &&& 100 <= self.density <= 1000
        &&& (forall|i: int| 0 <= i < self.generated@.len() ==> (#[trigger] self.generated@[
            i
        ]).wf())
    }

    /// How many stars this galaxy will have.
    pub open spec fn target_count(self) -> int {
        self.nb_players * self.size * self.density * 4 / 10000
    }

    /// The number of stars a galaxy aims for: four per player, scaled by
    /// size and density.
    pub fn target(&self) -> (t: u64)
        requires
            self.params_wf(),
        ensures
            t == self.target_count(),
            t <= 1_600_000,
    {
        proof {
            assert(0 <= self.nb_players as int * self.size as int <= 8000 && 0
                <= self.nb_players as int * self.size as int * self.density as int
                <= 8_000_000 && self.nb_players as int * self.size as int * self.density as int
                * 4 <= 32_000_000) by (nonlinear_arith)
                requires
                    1 <= self.nb_players <= 8,
                    100 <= self.size <= 1000,
                    100 <= self.density <= 1000,
            ;
        }
        self.nb_players as u64 * self.size * self.density * 4 / 10000
    }

    /// Place the next star, or report that the galaxy is complete.  A
    /// candidate position is drawn uniformly from the galaxy square and
    /// rejected while it sits closer to an existing star than the minimum
    /// separation; each collision relaxes the constraint a little, and
    /// after `MAX_PLACEMENT_FAILS` collisions it is waived entirely, so
    /// placement always terminates.
    pub fn next_star(&mut self) -> (r: Option<Star>)
        requires
            old(self).params_wf(),
            old(self).generated@.len() < old(self).target_count() ==> old(self).names@.len()
                >= 1,
        ensures
            final(self).params_wf(),
            final(self).nb_players == old(self).nb_players,
            final(self).size == old(self).size,
            final(self).density == old(self).density,
            r is None <==> old(self).generated@.len() >= old(self).target_count(),
            r is None ==> *final(self) == *old(self),
            r matches Some(star) ==> {
                &&& star.wf()
                &&& star.start is None
                &&& -(old(self).size as int) <= star.position.x <= old(self).size as int
                &&& -(old(self).size as int) <= star.position.y <= old(self).size as int
                &&& final(self).generated@ == old(self).generated@.push(star)
                // The name is drawn from the pool without replacement.
                &&& exists|k: int|
                    0 <= k < old(self).names@.len() && star.name == old(self).names@[k]
                        && final(self).names@ == old(self).names@.remove(k)
            },
    {
        let target = self.target();
        if self.generated.len() as u64 >= target {
            return None;
        }

        let radius = self.size as i64;
        let mut attempts: u64 = 0;
        let mut candidate = Position { x: 0, y: 0 };
        let mut placed = false;
        while attempts < MAX_PLACEMENT_FAILS && !placed
            invariant
                self.params_wf(),
                *self == *old(self),
                attempts <= MAX_PLACEMENT_FAILS,
                radius == self.size as i64,
                placed ==> -radius <= candidate.x <= radius && -radius <= candidate.y
                    <= radius,
            decreases MAX_PLACEMENT_FAILS - attempts,
        {
            attempts = attempts + 1;
            let x = rand_below(2 * self.size + 1) as i64 - radius;
            let y = rand_below(2 * self.size + 1) as i64 - radius;
            candidate = Position { x, y };
            // The separation constraint, relaxed a little by every failed
            // attempt so far.
            proof {
                assert(100_000 <= self.density * (1000 + attempts) <= 11_000_000)
                    by (nonlinear_arith)
                    requires
                        100 <= self.density <= 1000,
                        0 <= attempts <= 10_000,
                ;
                vstd::arithmetic::div_mod::lemma_div_is_ordered_by_denominator(
                    10_000_000,
                    100_000,
                    self.density as int * (1000 + attempts as int),
                );
            }
            let relaxed = 10000 * 1000 / (self.density * (1000 + attempts));
            let mut ok = true;
            let mut i: usize = 0;
            while i < self.generated.len()
                invariant
                    self.params_wf(),
                    candidate.in_bounds(),
                    i <= self.generated@.len(),
                    relaxed <= 100,
                decreases self.generated@.len() - i,
            {
                let d2 = dist2_exec(candidate, self.generated[i].position);
                proof {
                    assert(relaxed * relaxed <= 10000) by (nonlinear_arith)
                        requires 0 <= relaxed <= 100;
                }
                if d2 < relaxed * relaxed {
                    ok = false;
                }
                i = i + 1;
            }
            if ok {
                placed = true;
            }
        }
        if !placed {
            // Persistent collisions: waive the constraint so that
            // generation always finishes.
            let x = rand_below(2 * self.size + 1) as i64 - radius;
            let y = rand_below(2 * self.size + 1) as i64 - radius;
            candidate = Position { x, y };
        }

        let name_idx = rand_below(self.names.len() as u64) as usize;
        let ghost names_before = self.names@;
        let name = self.names.remove(name_idx);
        let size_draw = rand_below(61);
        let size = if size_draw < 30 {
            StarSize::Dwarf
        } else if size_draw < 60 {
            StarSize::Subgiant
        } else {
            StarSize::Giant
        };
        let color_draw = rand_below(3);
        let color = if color_draw == 0 {
            StarColor::Blue
        } else if color_draw == 1 {
            StarColor::Orange
        } else {
            StarColor::Yellow
        };
        let star = Star { position: candidate, size, color, start: None, name };
        let copy = Star {
            position: candidate,
            size,
            color,
            start: None,
            name: star.name.clone(),
        };
        self.generated.push(star);
        proof {
            assert(copy.name == names_before[name_idx as int]);
            assert(self.names@ == names_before.remove(name_idx as int));
        }
        Some(copy)
    }
}

} // verus!
