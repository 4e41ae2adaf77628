//! The source of random coordinates.

use vstd::prelude::*;

verus! {

/// Draws a number below `n` with `rand::random_range`, from the generator
/// of the calling thread. Nothing is proved of this function: it is taken on
/// trust that the draw lies in the range `0..n` that it is asked for. The
/// range must not be empty, since `random_range` panics on an empty one.
#[verifier::external_body]
pub(crate) fn random_below(n: usize) -> (r: usize)
    requires
        n > 0,
    ensures
        r < n,
{
    rand::random_range(0..n)
}

} // verus!
