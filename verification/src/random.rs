//! The source of randomness: uniform draws of fixed-point numbers.
use vstd::prelude::*;
use rand::Rng;
use crate::scalar::{Scalar, ONE_RAW};

verus! {

/// A draw from `rand`'s thread-local generator: `Rng::gen_range` on
/// `rand::thread_rng()` with the half-open range `lo..hi`.
///
/// Trusted, not proved: `gen_range` returns a value of the range it is given,
/// and panics where that range is empty, which the precondition leaves out.
/// Nothing is said of which value comes back, so two draws may differ.
/// `thread_rng` itself panics where the system cannot seed the generator of
/// the thread; no precondition can leave that out.
#[verifier::external_body]
fn uniform_raw(lo: i64, hi: i64) -> (r: i64)
    requires
        lo < hi,
    ensures
        lo <= r < hi,
{
    rand::thread_rng().gen_range(lo..hi)
}

/// A random number that is at least `lo` and less than `hi`.
pub fn random_between(lo: Scalar, hi: Scalar) -> (r: Scalar)
    requires
        lo@ < hi@,
    ensures
        lo@ <= r@ < hi@,
{
    Scalar { raw: uniform_raw(lo.raw, hi.raw) }
}

/// A random number that is at least zero and less than one.
pub fn random_fraction() -> (r: Scalar)
    ensures
        0 <= r@ < ONE_RAW,
{
    Scalar { raw: uniform_raw(0, ONE_RAW) }
}

} // verus!
