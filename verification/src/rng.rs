//! Dice rolling, provided by the rltk collaborator.
//!
//! The simulation draws every random number through the generator's
//! dice-roll call, so a fixed seed reproduces a whole session; the
//! collaborator that owns the session seeds the generator.

use vstd::prelude::*;

verus! {

/// rltk's seedable random number generator, carried opaquely.
#[verifier::external_type_specification]
#[verifier::external_body]
pub struct ExRandomNumberGenerator(rltk::RandomNumberGenerator);

/// Relies on rltk::RandomNumberGenerator::roll_dice: the sum of `n` dice
/// of `die_type` sides, each die uniform in `1 ..= die_type`.
pub assume_specification[ rltk::RandomNumberGenerator::roll_dice ](
    rng: &mut rltk::RandomNumberGenerator,
    n: i32,
    die_type: i32,
) -> (r: i32)
    requires
        1 <= n <= 1000,
        1 <= die_type <= 10000,
    ensures
        n <= r <= n * die_type,
;

} // verus!
