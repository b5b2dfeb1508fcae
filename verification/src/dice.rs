//! The random number generator that the world draws from.

use vstd::prelude::*;
use rltk::RandomNumberGenerator;

verus! {

/// Makes `rltk::RandomNumberGenerator` known as a type whose inside is
/// not looked at: values of it are only handed to the two functions
/// below.
#[verifier::external_type_specification]
#[verifier::external_body]
pub struct ExRandomNumberGenerator(RandomNumberGenerator);

/// Calls `RandomNumberGenerator::roll_dice`, which adds up `n` draws from
/// `1..=die_type`: the sum is at least `n` and at most `n * die_type`. No
/// more is claimed, since the value depends on the generator's state.
#[verifier::external_body]
pub(crate) fn roll_dice(rng: &mut RandomNumberGenerator, n: i32, die_type: i32) -> (r: i32)
    requires
        0 <= n,
        1 <= die_type < i32::MAX,
        n * die_type <= i32::MAX,
    ensures
        n <= r <= n * die_type,
{
    rng.roll_dice(n, die_type)
}

/// Calls `RandomNumberGenerator::range`, which draws from `min..max`: the
/// lower end included, the upper one not.
#[verifier::external_body]
pub(crate) fn range(rng: &mut RandomNumberGenerator, min: i32, max: i32) -> (r: i32)
    requires
        min < max,
    ensures
        min <= r < max,
{
    rng.range(min, max)
}

} // verus!
