//! The economic curves of the game.
//!
//! All quantities are fixed point with two decimal places ("hundredths").
//! Population growth follows a logistic-like S-curve built from cubic eases;
//! resource extraction and revenue follow power laws with fractional
//! exponents (1.5, 0.8, 1.4, ...).  A fractional power `x^(p/q)` of a
//! fixed-point value is the floor of the `q`-th root of `x^p`, rescaled, so
//! every curve below is exact integer arithmetic.
use vstd::prelude::*;
use vstd::arithmetic::power::pow;
use crate::math::{kroot, kth_root, pow_exec, lemma_root_upper, lemma_pow_base_increases,
    lemma_pow_nat_nonneg};

verus! {

/// `x^1.5` on hundredths: `(x/100)^(3/2) * 100`.
pub open spec fn pow32_centi(x: int) -> int {
    kroot((pow(x, 3) / 100) as nat, 2) as int
}

/// `x^(2/3)` on hundredths, the inverse of `pow32_centi`.
pub open spec fn pow23_centi(x: int) -> int {
    kroot((pow(x, 2) * 100) as nat, 3) as int
}

/// `x^0.8` on hundredths: `(x/100)^(4/5) * 100`.
pub open spec fn pow45_centi(x: int) -> int {
    kroot((pow(x, 4) * 100) as nat, 5) as int
}

/// `x^1.25` on hundredths, the inverse of `pow45_centi`.
pub open spec fn pow54_centi(x: int) -> int {
    kroot((pow(x, 5) / 100) as nat, 4) as int
}

/// `x^1.4` on hundredths: `(x/100)^(7/5) * 100`.
pub open spec fn pow75_centi(x: int) -> int {
    kroot((pow(x, 7) / 10000) as nat, 5) as int
}

/// `x^1.5` on hundredths, for `x` up to 2e9.
pub fn pow32_exec(x: u64) -> (r: u64)
    requires
        x <= 2_000_000_000,
    ensures
        r == pow32_centi(x as int),
        r < 10_000_000_000_000,
{
    proof {
        lemma_pow_base_increases(x as nat, 2_000_000_000nat, 3);
        assert(pow(2_000_000_000int, 3) == 8_000_000_000_000_000_000_000_000_000int) by {
            reveal_with_fuel(pow, 4);
        }
        lemma_pow_nat_nonneg(x as nat, 3);
        vstd::arithmetic::div_mod::lemma_div_is_ordered(
            pow(x as int, 3),
            8_000_000_000_000_000_000_000_000_000int,
            100int,
        );
        assert(pow(10_000_000_000_000int, 2) == 100_000_000_000_000_000_000_000_000int) by {
            reveal_with_fuel(pow, 3);
        }
        lemma_root_upper(
            (pow(x as int, 3) / 100) as nat,
            2,
            10_000_000_000_000nat,
        );
        vstd::arithmetic::div_mod::lemma_div_pos_is_pos(pow(x as int, 3), 100int);
    }
    let cube = pow_exec(x, 3);
    let r = kth_root(cube / 100, 2);
    r as u64
}

/// `x^(2/3)` on hundredths, for `x` up to 1e13.
pub fn pow23_exec(x: u64) -> (r: u64)
    requires
        x <= 10_000_000_000_000,
    ensures
        r == pow23_centi(x as int),
        r < 10_000_000_000,
{
    proof {
        lemma_pow_base_increases(x as nat, 10_000_000_000_000nat, 2);
        assert(pow(10_000_000_000_000int, 2) == 100_000_000_000_000_000_000_000_000int) by {
            reveal_with_fuel(pow, 3);
        }
        lemma_pow_nat_nonneg(x as nat, 2);
        assert(pow(10_000_000_000int, 3) == 1_000_000_000_000_000_000_000_000_000_000int) by {
            reveal_with_fuel(pow, 4);
        }
        lemma_root_upper((pow(x as int, 2) * 100) as nat, 3, 10_000_000_000nat);
    }
    let sq = pow_exec(x, 2);
    let r = kth_root(sq * 100, 3);
    r as u64
}

/// `x^0.8` on hundredths, for `x` up to 1e9.
pub fn pow45_exec(x: u64) -> (r: u64)
    requires
        x <= 1_000_000_000,
    ensures
        r == pow45_centi(x as int),
        r < 40_000_000,
{
    proof {
        lemma_pow_base_increases(x as nat, 1_000_000_000nat, 4);
        assert(pow(1_000_000_000int, 4) == 1_000_000_000_000_000_000_000_000_000_000_000_000int) by {
            reveal_with_fuel(pow, 5);
        }
        lemma_pow_nat_nonneg(x as nat, 4);
        assert(pow(40_000_000int, 5) == 102_400_000_000_000_000_000_000_000_000_000_000_000int) by {
            reveal_with_fuel(pow, 6);
        }
        lemma_root_upper((pow(x as int, 4) * 100) as nat, 5, 40_000_000nat);
    }
    let p = pow_exec(x, 4);
    let r = kth_root(p * 100, 5);
    r as u64
}

/// `x^1.25` on hundredths, for `x` up to 4e7.
pub fn pow54_exec(x: u64) -> (r: u64)
    requires
        x <= 40_000_000,
    ensures
        r == pow54_centi(x as int),
        r < 2_000_000_000,
{
    proof {
        lemma_pow_base_increases(x as nat, 40_000_000nat, 5);
        assert(pow(40_000_000int, 5) == 102_400_000_000_000_000_000_000_000_000_000_000_000int) by {
            reveal_with_fuel(pow, 6);
        }
        lemma_pow_nat_nonneg(x as nat, 5);
        vstd::arithmetic::div_mod::lemma_div_is_ordered(
            pow(x as int, 5),
            102_400_000_000_000_000_000_000_000_000_000_000_000int,
            100int,
        );
        assert(pow(2_000_000_000int, 4) == 16_000_000_000_000_000_000_000_000_000_000_000_000int) by {
            reveal_with_fuel(pow, 5);
        }
        lemma_root_upper((pow(x as int, 5) / 100) as nat, 4, 2_000_000_000nat);
        vstd::arithmetic::div_mod::lemma_div_pos_is_pos(pow(x as int, 5), 100int);
    }
    let p = pow_exec(x, 5);
    let r = kth_root(p / 100, 4);
    r as u64
}

/// `x^1.4` on hundredths, for `x` up to 2.2e5 (population times 1.1).
pub fn pow75_exec(x: u64) -> (r: u64)
    requires
        x <= 220_000,
    ensures
        r == pow75_centi(x as int),
        r < 40_000_000,
{
    proof {
        lemma_pow_base_increases(x as nat, 220_000nat, 7);
        assert(pow(220_000int, 7) == 24_943_578_880_000_000_000_000_000_000_000_000_000int) by {
            reveal_with_fuel(pow, 8);
        }
        lemma_pow_nat_nonneg(x as nat, 7);
        vstd::arithmetic::div_mod::lemma_div_is_ordered(
            pow(x as int, 7),
            24_943_578_880_000_000_000_000_000_000_000_000_000int,
            10000int,
        );
        assert(pow(40_000_000int, 5) == 102_400_000_000_000_000_000_000_000_000_000_000_000int) by {
            reveal_with_fuel(pow, 6);
        }
        lemma_root_upper((pow(x as int, 7) / 10000) as nat, 5, 40_000_000nat);
        vstd::arithmetic::div_mod::lemma_div_pos_is_pos(pow(x as int, 7), 10000int);
    }
    let p = pow_exec(x, 7);
    let r = kth_root(p / 10000, 5);
    r as u64
}

/// Population saturates at 2000.00; the growth cap formulas stay far below
/// this in any reasonable game length.
pub const POP_CAP: u64 = 200_000;

/// A star's local resource stock never exceeds this.
pub const RES_CAP: u64 = 1_000_000_000;

/// A player's stockpiled resources saturate here.
pub const STOCK_CAP: u64 = 1_000_000_000_000_000;

/// A player's savings saturate at plus or minus this.
pub const SAVINGS_CAP: i64 = 1_000_000_000_000_000;

/// The population a star supports, in hundredths: colonies in the owner's
/// ideal climate support far more, and both caps ramp up with the number of
/// turns the star has been held.
pub open spec fn max_population_centi(count: int, owned_since: int, color_match: bool) -> int {
    if color_match {
        12000 + (count - owned_since) * 20
    } else {
        1000 + (count - owned_since) * 10
    }
}

/// Population as a fraction of the cap, in thousandths, capped at 1.2.
pub open spec fn growth_lerp(pop: int, maxp: int) -> int {
    let l = pop * 1000 / maxp;
    if l > 1200 {
        1200
    } else {
        l
    }
}

/// The cubic-ease growth increment, in hundredths of population: a fast
/// cubic ramp below half the cap, an easing-out cubic up to the cap, and
/// cubic decay beyond it (an overcrowded colony shrinks).
pub open spec fn growth_factor_centi(lerp: int) -> int {
    if lerp < 500 {
        lerp * lerp * lerp / 10000
    } else if lerp < 1000 {
        100 - (2000 - 2 * lerp) * (2000 - 2 * lerp) * (2000 - 2 * lerp) / 20_000_000
    } else {
        100 - (4000 - 2 * lerp) * (4000 - 2 * lerp) * (4000 - 2 * lerp) / 20_000_000
    }
}

/// Halving a signed increment, rounding toward zero.
pub open spec fn halved(g: int) -> int {
    if g >= 0 {
        g / 2
    } else {
        -((-g) / 2)
    }
}

/// The population of an owned star after one turn of growth.  The growth
/// increment is halved when the star's size differs from the owner's home
/// star's size.
pub open spec fn pop_after_growth(
    pop: int,
    count: int,
    owned_since: int,
    color_match: bool,
    size_match: bool,
) -> int {
    let maxp = max_population_centi(count, owned_since, color_match);
    let lerp = growth_lerp(pop, maxp);
    let g = growth_factor_centi(lerp);
    let g2 = if size_match {
        g
    } else {
        halved(g)
    };
    crate::math::clamp_i(pop + g2, 0, POP_CAP as int)
}

/// The extractable resource level of a star: `(resources * 1.2)^1.5`.
pub open spec fn harvest_current(res: int) -> int {
    pow32_centi(res * 12 / 10)
}

/// What one turn harvests from a star: a small fixed draw on an ideal-color
/// colony, a much larger draw elsewhere, never more than is extractable.
pub open spec fn harvest_take(res: int, color_match: bool) -> int {
    let cur = harvest_current(res);
    let want: int = if color_match {
        20
    } else {
        150
    };
    if want <= cur {
        want
    } else {
        cur
    }
}

/// The star's resource stock after one turn of harvesting.  Extraction is
/// undone through the inverse power law, so depletion decelerates as the
/// stock shrinks; the stock never grows and never goes negative.
pub open spec fn res_after_harvest(res: int, color_match: bool) -> int {
    let cur = harvest_current(res);
    let take = harvest_take(res, color_match);
    let cand = if !color_match {
        pow23_centi(cur - take) * 10 / 12
    } else {
        let base = pow45_centi(res);
        let w = if base >= take {
            base - take
        } else {
            0
        };
        pow54_centi(w)
    };
    if cand > res {
        res
    } else {
        cand
    }
}

/// Revenue of one owned star, in hundredths of a credit: a power law in its
/// population, stronger when the star's color matches the owner's home
/// color, always discounted by a flat upkeep of two credits.
pub open spec fn star_revenue_centi(pop: int, ideal: bool) -> int {
    if ideal {
        pow75_centi(pop * 11 / 10) / 100 - 200
    } else {
        pow45_centi(pop) / 100 - 200
    }
}

/// One turn of population growth for an owned star.
pub fn grow_population(
    pop: u64,
    count: u32,
    owned_since: u32,
    color_match: bool,
    size_match: bool,
) -> (p: u64)
    requires
        pop <= POP_CAP,
        owned_since <= count,
    ensures
        p == pop_after_growth(pop as int, count as int, owned_since as int, color_match,
            size_match),
        p <= POP_CAP,
{
    let held = (count - owned_since) as u64;
    let maxp: u64 = if color_match {
        12000 + held * 20
    } else {
        1000 + held * 10
    };
    let lerp_raw = pop * 1000 / maxp;
    let lerp = if lerp_raw > 1200 {
        1200
    } else {
        lerp_raw
    };
    let g: i64 = if lerp < 500 {
        proof {
            assert(lerp * lerp < 500 * 500 && lerp * lerp * lerp < 500 * 500 * 500)
                by (nonlinear_arith)
                requires 0 <= lerp < 500;
        }
        (lerp * lerp * lerp / 10000) as i64
    } else if lerp < 1000 {
        let c = 2000 - 2 * lerp;
        proof {
            assert(c * c <= 2000 * 2000 && c * c * c <= 2000 * 2000 * 2000)
                by (nonlinear_arith)
                requires 0 <= c <= 2000;
        }
        100 - (c * c * c / 20_000_000) as i64
    } else {
        let c = 4000 - 2 * lerp;
        proof {
            assert(c * c <= 2000 * 2000 && c * c * c <= 2000 * 2000 * 2000)
                by (nonlinear_arith)
                requires 0 <= c <= 2000;
        }
        100 - (c * c * c / 20_000_000) as i64
    };
    let g2: i64 = if size_match {
        g
    } else {
        if g >= 0 {
            g / 2
        } else {
            -((-g) / 2)
        }
    };
    let next = pop as i64 + g2;
    if next < 0 {
        0
    } else if next > POP_CAP as i64 {
        POP_CAP
    } else {
        next as u64
    }
}

/// One turn of harvesting for an owned star: the new stock and the amount
/// collected.
pub fn harvest(res: u64, color_match: bool) -> (out: (u64, u64))
    requires
        res <= RES_CAP,
    ensures
        out.0 == res_after_harvest(res as int, color_match),
        out.1 == harvest_take(res as int, color_match),
        out.0 <= res,
{
    let cur = pow32_exec(res * 12 / 10);
    let want: u64 = if color_match {
        20
    } else {
        150
    };
    let take = if want <= cur {
        want
    } else {
        cur
    };
    let cand: u64 = if !color_match {
        pow23_exec(cur - take) * 10 / 12
    } else {
        let base = pow45_exec(res);
        let w = if base >= take {
            base - take
        } else {
            0
        };
        pow54_exec(w)
    };
    let nr = if cand > res {
        res
    } else {
        cand
    };
    (nr, take)
}

/// Revenue of one owned star with the given population.
pub fn star_revenue_exec(pop: u64, ideal: bool) -> (r: i64)
    requires
        pop <= POP_CAP,
    ensures
        r == star_revenue_centi(pop as int, ideal),
        -200 <= r <= 1_000_000,
{
    if ideal {
        let v = pow75_exec(pop * 11 / 10);
        (v / 100) as i64 - 200
    } else {
        let v = pow45_exec(pop);
        (v / 100) as i64 - 200
    }
}

} // verus!
