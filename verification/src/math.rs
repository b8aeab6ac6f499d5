//! Integer root extraction and ordering lemmas.
//!
//! The economic curves of the game raise fixed-point quantities to fractional
//! powers such as 1.4 or 0.8.  A power `x^(p/q)` over fixed-point integers is
//! computed as the floor of the `q`-th root of `x^p` (suitably rescaled), so
//! everything below is built on one primitive: the floor of the `k`-th root
//! of a natural number.
use vstd::prelude::*;
use vstd::arithmetic::power::{pow, lemma_pow_positive, lemma_pow_increases, lemma_pow_adds,
    lemma_pow1, lemma0_pow};
use vstd::arithmetic::mul::{lemma_mul_inequality, lemma_mul_strict_inequality,
    lemma_mul_is_commutative, lemma_mul_by_zero_is_zero};

verus! {

/// Floor of the `k`-th root of `x`: the largest `r` with `r^k <= x`.
pub open spec fn kroot(x: nat, k: nat) -> nat
    recommends
        k >= 1,
    decreases x,
{
    if x == 0 {
        0
    } else {
        let r = kroot((x - 1) as nat, k);
        if pow((r + 1) as int, k) <= x {
            (r + 1) as nat
        } else {
            r
        }
    }
}

/// Every power of a natural number is non-negative.
pub proof fn lemma_pow_nat_nonneg(b: nat, k: nat)
    ensures
        0 <= pow(b as int, k),
{
    reveal(pow);
    if b == 0 {
        if k != 0 {
            lemma0_pow(k);
        }
    } else {
        lemma_pow_positive(b as int, k);
    }
}

/// Raising to a power is monotone in the base.
pub proof fn lemma_pow_base_increases(a: nat, b: nat, k: nat)
    requires
        a <= b,
    ensures
        pow(a as int, k) <= pow(b as int, k),
    decreases k,
{
    reveal(pow);
    if k >= 1 {
        let km1 = (k - 1) as nat;
        lemma_pow_base_increases(a, b, km1);
        lemma_pow_nat_nonneg(a, km1);
        lemma_pow_nat_nonneg(b, km1);
        assert(pow(a as int, k) == a as int * pow(a as int, km1));
        assert(pow(b as int, k) == b as int * pow(b as int, km1));
        assert(a as int * pow(a as int, km1) <= b as int * pow(a as int, km1)) by {
            lemma_mul_inequality(a as int, b as int, pow(a as int, km1));
        }
        assert(b as int * pow(a as int, km1) <= b as int * pow(b as int, km1)) by {
            lemma_mul_inequality(pow(a as int, km1), pow(b as int, km1), b as int);
            lemma_mul_is_commutative(b as int, pow(a as int, km1));
            lemma_mul_is_commutative(b as int, pow(b as int, km1));
        }
    }
}

/// Raising to a power `k >= 1` is strictly monotone in the base.
pub proof fn lemma_pow_base_strictly_increases(a: nat, b: nat, k: nat)
    requires
        a < b,
        k >= 1,
    ensures
        pow(a as int, k) < pow(b as int, k),
{
    reveal(pow);
    let km1 = (k - 1) as nat;
    lemma_pow_base_increases(a, b, km1);
    lemma_pow_nat_nonneg(a, km1);
    lemma_pow_positive(b as int, km1);
    assert(pow(a as int, k) == a as int * pow(a as int, km1));
    assert(pow(b as int, k) == b as int * pow(b as int, km1));
    assert(a as int * pow(a as int, km1) <= a as int * pow(b as int, km1)) by {
        lemma_mul_inequality(pow(a as int, km1), pow(b as int, km1), a as int);
        lemma_mul_is_commutative(a as int, pow(a as int, km1));
        lemma_mul_is_commutative(a as int, pow(b as int, km1));
    }
    assert(a as int * pow(b as int, km1) < b as int * pow(b as int, km1)) by {
        lemma_mul_strict_inequality(a as int, b as int, pow(b as int, km1));
    }
}

/// `kroot(x, k)` really is the floor of the `k`-th root.
pub proof fn lemma_kroot_bounds(x: nat, k: nat)
    requires
        k >= 1,
    ensures
        pow(kroot(x, k) as int, k) <= x,
        x < pow((kroot(x, k) + 1) as int, k),
    decreases x,
{
    if x == 0 {
        lemma0_pow(k);
        assert(pow(1int, k) == 1) by {
            vstd::arithmetic::power::lemma1_pow(k);
        }
    } else {
        lemma_kroot_bounds((x - 1) as nat, k);
        let r = kroot((x - 1) as nat, k);
        if pow((r + 1) as int, k) <= x {
            assert(x == pow((r + 1) as int, k));
            lemma_pow_base_strictly_increases(r + 1, r + 2, k);
        }
    }
}

/// The floor of the `k`-th root is monotone.
pub proof fn lemma_kroot_monotonic(x: nat, y: nat, k: nat)
    requires
        x <= y,
        k >= 1,
    ensures
        kroot(x, k) <= kroot(y, k),
{
    lemma_kroot_bounds(x, k);
    lemma_kroot_bounds(y, k);
    if kroot(x, k) > kroot(y, k) {
        lemma_pow_base_increases(kroot(y, k) + 1, kroot(x, k), k);
        assert(false);
    }
}

/// Any `r` in the floor-root window equals `kroot(x, k)`.
pub proof fn lemma_kroot_unique(x: nat, k: nat, r: nat)
    requires
        k >= 1,
        pow(r as int, k) <= x,
        x < pow((r + 1) as int, k),
    ensures
        r == kroot(x, k),
{
    lemma_kroot_bounds(x, k);
    if r < kroot(x, k) {
        lemma_pow_base_increases(r + 1, kroot(x, k), k);
        assert(false);
    }
    if r > kroot(x, k) {
        lemma_pow_base_increases(kroot(x, k) + 1, r, k);
        assert(false);
    }
}

/// Decides `b^k <= x` without ever overflowing.
fn pow_le(b: u128, k: u32, x: u128) -> (res: bool)
    requires
        k >= 1,
    ensures
        res == (pow(b as int, k as nat) <= x),
{
    let mut acc: u128 = 1;
    let mut i: u32 = 0;
    proof {
        reveal(pow);
    }
    while i < k
        invariant
            i <= k,
            k >= 1,
            acc == pow(b as int, i as nat),
            i > 0 ==> acc <= x,
        decreases k - i,
    {
        acc = match acc.checked_mul(b) {
            Some(v) => v,
            None => {
                proof {
                    if b == 0 {
                        lemma_mul_by_zero_is_zero(acc as int);
                        assert(false);
                    }
                    assert(acc * b == pow(b as int, (i + 1) as nat)) by {
                        lemma_pow_adds(b as int, i as nat, 1nat);
                        lemma_pow1(b as int);
                    }
                    lemma_pow_increases(b as nat, (i + 1) as nat, k as nat);
                }
                return false;
            },
        };
        proof {
            assert(acc == pow(b as int, (i + 1) as nat)) by {
                lemma_pow_adds(b as int, i as nat, 1nat);
                lemma_pow1(b as int);
            }
        }
        if acc > x {
            proof {
                if b == 0 {
                    lemma0_pow((i + 1) as nat);
                    assert(false);
                }
                lemma_pow_increases(b as nat, (i + 1) as nat, k as nat);
            }
            return false;
        }
        i = i + 1;
    }
    true
}

/// A bound on a power bounds the root: if `x < bound^k` then the `k`-th
/// root of `x` is below `bound`.
pub proof fn lemma_root_upper(x: nat, k: nat, bound: nat)
    requires
        k >= 1,
        x < pow(bound as int, k),
    ensures
        kroot(x, k) < bound,
{
    lemma_kroot_bounds(x, k);
    if kroot(x, k) >= bound {
        lemma_pow_base_increases(bound, kroot(x, k), k);
        assert(false);
    }
}

/// `b` raised to the `k`-th power, for results that fit in a `u128`.
pub fn pow_exec(b: u64, k: u32) -> (r: u128)
    requires
        1 <= k,
        pow(b as int, k as nat) <= u128::MAX,
    ensures
        r == pow(b as int, k as nat),
{
    let mut acc: u128 = 1;
    let mut i: u32 = 0;
    proof {
        reveal(pow);
    }
    while i < k
        invariant
            i <= k,
            k >= 1,
            acc == pow(b as int, i as nat),
            pow(b as int, k as nat) <= u128::MAX,
        decreases k - i,
    {
        proof {
            assert(acc * b == pow(b as int, (i + 1) as nat)) by {
                lemma_pow_adds(b as int, i as nat, 1nat);
                lemma_pow1(b as int);
            }
            if b == 0 {
                lemma_mul_by_zero_is_zero(acc as int);
            } else {
                lemma_pow_increases(b as nat, (i + 1) as nat, k as nat);
            }
        }
        acc = acc * (b as u128);
        i = i + 1;
    }
    acc
}

/// Floor of the `k`-th root of `x`, by binary search.
pub fn kth_root(x: u128, k: u32) -> (r: u128)
    requires
        1 <= k,
        x < u128::MAX,
    ensures
        r as nat == kroot(x as nat, k as nat),
        pow(r as int, k as nat) <= x,
        x < pow((r + 1) as int, k as nat),
{
    let mut lo: u128 = 0;
    let mut hi: u128 = x + 1;
    proof {
        lemma0_pow(k as nat);
        lemma_pow1((x + 1) as int);
        lemma_pow_increases((x + 1) as nat, 1nat, k as nat);
    }
    while lo + 1 < hi
        invariant
            lo < hi,
            hi <= x + 1,
            1 <= k,
            x < u128::MAX,
            pow(lo as int, k as nat) <= x,
            x < pow(hi as int, k as nat),
        decreases hi - lo,
    {
        let mid = lo + (hi - lo) / 2;
        if pow_le(mid, k, x) {
            lo = mid;
        } else {
            hi = mid;
        }
    }
    proof {
        lemma_kroot_unique(x as nat, k as nat, lo as nat);
    }
    lo
}

/// Clamp `v` into `[lo, hi]`.
pub open spec fn clamp_i(v: int, lo: int, hi: int) -> int {
    if v < lo {
        lo
    } else if v > hi {
        hi
    } else {
        v
    }
}

/// Signed saturating addition with explicit bounds.
pub fn add_clamp_i64(a: i64, b: i64, lo: i64, hi: i64) -> (r: i64)
    requires
        lo <= hi,
    ensures
        r == clamp_i(a + b, lo as int, hi as int),
{
    let s: i128 = a as i128 + b as i128;
    if s < lo as i128 {
        lo
    } else if s > hi as i128 {
        hi
    } else {
        s as i64
    }
}

/// Unsigned saturating addition with an explicit ceiling.
pub fn add_clamp_u64(a: u64, b: u64, hi: u64) -> (r: u64)
    ensures
        r == clamp_i(a + b, 0, hi as int),
{
    let s: u128 = a as u128 + b as u128;
    if s > hi as u128 {
        hi
    } else {
        s as u64
    }
}

} // verus!
