//! The random source: what is taken on trust of the dice of `rltk`.

use vstd::prelude::*;

verus! {

/// The generator of `rltk`. Nothing of its state is visible here.
#[verifier::external_type_specification]
#[verifier::external_body]
pub struct ExRandomNumberGenerator(rltk::RandomNumberGenerator);

/// `RandomNumberGenerator::new` seeds a generator from the machine. Nothing
/// is claimed of it.
pub assume_specification[ rltk::RandomNumberGenerator::new ]() -> (rng: rltk::RandomNumberGenerator);

/// `RandomNumberGenerator::roll_dice` adds up `n` dice of `die_type` sides,
/// each of which shows a number from 1 to `die_type`. With no dice the sum is
/// 0. With at least one, a die needs a side, `die_type + 1` must not
/// overflow, and the largest sum must fit.
pub assume_specification[ rltk::RandomNumberGenerator::roll_dice ](
    rng: &mut rltk::RandomNumberGenerator,
    n: i32,
    die_type: i32,
) -> (sum: i32)
    requires
        n > 0 ==> 1 <= die_type < i32::MAX && n * die_type <= i32::MAX,
    ensures
        n <= 0 ==> sum == 0,
        n > 0 ==> n <= sum <= n * die_type,
;

} // verus!
