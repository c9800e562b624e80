use vstd::prelude::*;

use rand::RngExt;

verus! {

/// Relies on rand's `RngExt::random_range` over the thread rng: for the
/// half-open range starting at zero it returns a value below the bound.
/// The call panics on an empty range, so the bound must be positive; which
/// value comes back is not promised beyond its range.
#[verifier::external_body]
pub(crate) fn random_below(n: usize) -> (r: usize)
    requires
        n > 0,
    ensures
        r < n,
{
    rand::rng().random_range(0..n)
}

} // verus!
