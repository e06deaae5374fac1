//! The draws that the game makes from its source of randomness.
//!
//! The source is a generator of the `rand` crate, which the caller seeds and
//! hands in. Nothing here is proved: each contract says what the crate
//! documents of the call, and that holds of every draw.

use rand::rngs::StdRng;
use rand::seq::SliceRandom;
use rand::Rng;
use vstd::prelude::*;

verus! {

/// `rand::rngs::StdRng`, the generator that the draws are made from. Nothing
/// is known of what it holds.
#[verifier::external_type_specification]
#[verifier::external_body]
pub struct ExStdRng(rand::rngs::StdRng);

/// `rand::Rng::gen_range` on two `i64`: a number that is at least `low` and
/// less than `high`. The crate panics where `low` is not less than `high`.
#[verifier::external_body]
pub(crate) fn gen_range(rng: &mut StdRng, low: i64, high: i64) -> (drawn: i64)
    requires
        low < high,
    ensures
        low <= drawn < high,
{
    rng.gen_range(low, high)
}

/// `rand::Rng::gen_ratio`: true with a chance of `numerator` in
/// `denominator`, so always where the two are equal and never where
/// `numerator` is zero. The crate panics where `denominator` is zero or
/// less than `numerator`.
#[verifier::external_body]
pub(crate) fn gen_ratio(rng: &mut StdRng, numerator: u32, denominator: u32) -> (drawn: bool)
    requires
        0 < denominator,
        numerator <= denominator,
    ensures
        numerator == denominator ==> drawn,
        numerator == 0 ==> !drawn,
{
    rng.gen_ratio(numerator, denominator)
}

/// `rand::seq::SliceRandom::choose` on a slice of positions: one of its
/// items, or nothing where the slice is empty.
#[verifier::external_body]
pub(crate) fn choose_one(rng: &mut StdRng, items: &Vec<usize>) -> (chosen: Option<usize>)
    ensures
        chosen is None <==> items@.len() == 0,
        chosen matches Some(item) ==> items@.contains(item),
{
    items.choose(rng).copied()
}

} // verus!
