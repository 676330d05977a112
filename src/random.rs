use vstd::prelude::*;
use rand::Rng;

verus! {

/// Relies on `rand::thread_rng` and `rand::Rng::gen_range` over an inclusive
/// range: the value drawn lies within the range (which must not be empty).
#[verifier::external_body]
pub(crate) fn draw_between(lo: i64, hi: i64) -> (r: i64)
    requires
        lo <= hi,
    ensures
        lo <= r <= hi,
{
    rand::thread_rng().gen_range(lo..=hi)
}

/// Relies on `rand::thread_rng` and `rand::Rng::gen_ratio`: `true` with chance
/// `numerator / denominator`, always `true` when they are equal and always
/// `false` when `numerator` is zero.
#[verifier::external_body]
pub(crate) fn draw_chance(numerator: u32, denominator: u32) -> (r: bool)
    requires
        0 < denominator,
        numerator <= denominator,
    ensures
        numerator == denominator ==> r,
        numerator == 0 ==> !r,
{
    rand::thread_rng().gen_ratio(numerator, denominator)
}

} // verus!
