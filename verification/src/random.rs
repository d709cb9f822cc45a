//! The source of randomness: a seedable generator that callers hand in.

use vstd::prelude::*;
use batbox::rng::{Rng, StdRng};
use crate::fixed::Fixed;

verus! {

/// The seedable generator `StdRng` of `rand`, which `batbox` hands on under
/// `batbox::rng`. It is declared so that a caller's generator can be passed
/// through to the draws; nothing is claimed of its state.
#[verifier::external_type_specification]
#[verifier::external_body]
pub struct ExStdRng(batbox::rng::StdRng);

/// Calls `Rng::gen_range` on the inclusive range from `low` to `high`. The
/// contract claims only what the method documents: that it panics on an
/// empty range, which `requires` leaves out, and that the value returned
/// lies in the range. Which value that is depends on the generator's state.
#[verifier::external_body]
pub(crate) fn draw_between(rng: &mut StdRng, low: i64, high: i64) -> (r: i64)
    requires
        low <= high,
    ensures
        low <= r <= high,
{
    rng.gen_range(low..=high)
}

/// Draws a number between `low` and `high`, both included.
pub fn draw_fixed(rng: &mut StdRng, low: Fixed, high: Fixed) -> (r: Fixed)
    requires
        low.raw <= high.raw,
    ensures
        low.raw <= r.raw <= high.raw,
{
    Fixed { raw: draw_between(rng, low.raw, high.raw) }
}

/// Draws a place in a sequence of `count` items.
pub fn draw_index(rng: &mut StdRng, count: usize) -> (r: usize)
    requires
        count > 0,
    ensures
        r < count,
{
    let last: u64 = (count - 1) as u64;
    let high: i64 = if last > i64::MAX as u64 {
        i64::MAX
    } else {
        last as i64
    };
    let drawn: i64 = draw_between(rng, 0, high);
    drawn as usize
}

/// Draws one of two sides.
pub fn draw_side(rng: &mut StdRng) -> (r: bool) {
    draw_between(rng, 0, 1) == 1
}

} // verus!
