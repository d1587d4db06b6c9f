//! Random numbers.

use rand::Rng;
use vstd::prelude::*;

verus! {

/// `rand::thread_rng` and, on it, `rand::Rng::gen_range` over the inclusive
/// range from zero to `top`: a number drawn uniformly from that range. The
/// range is never empty, so the call does not panic on it. Which number comes
/// is left open; only that it lies in the range is claimed.
#[verifier::external_body]
pub(crate) fn draw_up_to(top: u32) -> (number: u32)
    ensures
        number <= top,
{
    rand::thread_rng().gen_range(0..=top)
}

} // verus!
