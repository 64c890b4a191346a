//! Random draws, taken from the thread's generator.

use vstd::prelude::*;
use rand::Rng;
use crate::fixed::{lemma_mul_fixed_bound, mul_fixed, mul_fixed_spec, LIMIT, SCALE};
use crate::vec3::Vec2;

verus! {

/// Draws an integer from `low` up to, but not including, `high`.
///
/// Calls `rand::rng()`, the generator of the calling thread, and
/// `Rng::random_range` on the half-open range. The call panics on an empty
/// range, which the precondition excludes; all that is claimed of the
/// result, and not proved here, is that it lies in the range. The
/// generator itself panics if the operating system gives it no entropy,
/// which no argument decides.
#[verifier::external_body]
pub fn random_range(low: i64, high: i64) -> (r: i64)
    requires
        low < high,
    ensures
        low <= r < high,
{
    rand::rng().random_range(low..high)
}

/// Draws `true` with probability `numerator / denominator`.
///
/// Calls `rand::rng()`, the generator of the calling thread, and
/// `Rng::random_ratio`. The call panics on a zero denominator or a ratio
/// above one, which the precondition excludes. As its documentation says, a
/// ratio of zero always gives `false` and a ratio of one always gives
/// `true`; this is claimed and not proved here, and nothing else is claimed
/// of the result. The generator itself panics if the operating system gives
/// it no entropy, which no argument decides.
#[verifier::external_body]
pub fn random_chance(numerator: u32, denominator: u32) -> (b: bool)
    requires
        0 < denominator,
        numerator <= denominator,
    ensures
        numerator == 0 ==> !b,
        numerator == denominator ==> b,
{
    rand::rng().random_ratio(numerator, denominator)
}

/// The point at distance `r` from the origin in the direction of the unit
/// vector `direction`.
pub open spec fn polar_spec(r: int, direction: Vec2) -> (int, int) {
    (mul_fixed_spec(r, direction.x as int), mul_fixed_spec(r, direction.y as int))
}

/// The point at distance `r` from the origin in the direction of the unit
/// vector `direction`.
pub fn polar(r: i64, direction: Vec2) -> (v: Vec2)
    requires
        -LIMIT <= r <= LIMIT,
        direction.bounded(SCALE as int),
    ensures
        (v.x as int, v.y as int) == polar_spec(r as int, direction),
        v.bounded(LIMIT as int),
{
    proof {
        lemma_mul_fixed_bound(r as int, direction.x as int, LIMIT as int, SCALE as int);
        lemma_mul_fixed_bound(r as int, direction.y as int, LIMIT as int, SCALE as int);
    }
    Vec2 { x: mul_fixed(r, direction.x), y: mul_fixed(r, direction.y) }
}

/// Draws a point in the direction of the unit vector `direction`, at a
/// distance drawn from `rmin` up to, but not including, `rmax`.
pub fn random_vec(rmin: i64, rmax: i64, direction: Vec2) -> (v: Vec2)
    requires
        -LIMIT <= rmin < rmax <= LIMIT,
        direction.bounded(SCALE as int),
    ensures
        exists|r: int| rmin <= r < rmax && (v.x as int, v.y as int) == #[trigger] polar_spec(r, direction),
        v.bounded(LIMIT as int),
{
    let r = random_range(rmin, rmax);
    polar(r, direction)
}

} // verus!
