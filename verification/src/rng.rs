//! The library's single source of randomness.
//!
//! Galaxy generation and the bot decision module draw random numbers.  All of
//! those draws go through one primitive, a uniform draw below a bound; every
//! range, choice or weighted pick the library needs is derived from it in
//! verified code.
use vstd::prelude::*;

verus! {

/// Relies on rand: `thread_rng().gen_range(0..n)` returns a value in `0..n`.
/// Nothing else can be promised of a random draw.
#[verifier::external_body]
pub fn rand_below(n: u64) -> (r: u64)
    requires
        n > 0,
    ensures
        r < n,
{
    rand::Rng::gen_range(&mut rand::thread_rng(), 0..n)
}

/// A uniform draw from `lo..hi`, derived from `rand_below`.
pub fn rand_range(lo: u64, hi: u64) -> (r: u64)
    requires
        lo < hi,
    ensures
        lo <= r < hi,
{
    lo + rand_below(hi - lo)
}

} // verus!
