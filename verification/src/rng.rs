//! Trusted access to the thread-local random number generator. The
//! synthesis engine only needs uniform draws from half-open integer ranges;
//! everything proved about synthesis holds for every value these draws can
//! return.

use vstd::prelude::*;

verus! {

#[verifier::external_type_specification]
#[verifier::external_body]
pub struct ExThreadRng(rand::rngs::ThreadRng);

/// Relies on rand::thread_rng: a handle to the thread-local generator.
#[verifier::external_body]
pub fn fresh_rng() -> rand::rngs::ThreadRng {
    rand::thread_rng()
}

/// Relies on rand::Rng::gen_range over `0..n`: a uniform draw from the
/// half-open range, which panics only on an empty range.
#[verifier::external_body]
pub fn rand_index(rng: &mut rand::rngs::ThreadRng, n: usize) -> (r: usize)
    requires
        n > 0,
    ensures
        r < n,
{
    rand::Rng::gen_range(rng, 0..n)
}

/// Relies on rand::Rng::gen_range over `lo..hi`: a uniform draw from the
/// half-open range, which panics only on an empty range.
#[verifier::external_body]
pub fn rand_range_i64(rng: &mut rand::rngs::ThreadRng, lo: i64, hi: i64) -> (r: i64)
    requires
        lo < hi,
    ensures
        lo <= r < hi,
{
    rand::Rng::gen_range(rng, lo..hi)
}

} // verus!
