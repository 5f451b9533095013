//! The host's source of random numbers.

use vstd::prelude::*;

verus! {

/// Draws an integer with `fastrand::i32` from the inclusive range `start..=end`.
/// `fastrand` panics on an empty range, so the range must hold a number; what
/// comes back lies in it. Which number it is depends on the generator's state:
/// two draws may differ.
#[verifier::external_body]
pub(crate) fn draw(start: i32, end: i32) -> (value: i32)
    requires
        start <= end,
    ensures
        start <= value <= end,
{
    fastrand::i32(start..=end)
}

} // verus!
