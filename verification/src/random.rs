//! The one place where chance enters the library.

use vstd::prelude::*;

verus! {

/// A random number below `n`, drawn by `rand::Rng::gen_range` on the range
/// `0..n` from the generator that `rand::thread_rng` hands out. The range must
/// not be empty, or `gen_range` panics. All that is claimed of the number is
/// that it lies in the range; which one comes is left open.
#[verifier::external_body]
pub(crate) fn random_below(n: u32) -> (r: u32)
    requires
        n > 0,
    ensures
        r < n,
{
    rand::Rng::gen_range(&mut rand::thread_rng(), 0..n)
}

} // verus!
