//! The easiness factor of an item and how a review changes it.

use crate::quality::Quality;
use vstd::prelude::*;

verus! {

/// The Ease Factor (EF) of an item, in hundredths: `250` is the factor 2.5.
pub type Ease = u32;

/// The initial EF of an item: 2.5.
pub const INITIAL_EF: Ease = 250;

/// The minimum EF value: 1.3.
pub const MIN_EF: Ease = 130;

/// The largest EF that an item can hold. An update that would pass it stops
/// here.
pub const MAX_EF: Ease = 4294967295;

/// The given EF, or the minimum where the EF is below it.
pub open spec fn at_least_min(ef: int) -> int {
    if ef < MIN_EF {
        MIN_EF as int
    } else {
        ef
    }
}

/// What a review of the given quality adds to the EF, in hundredths.
///
/// For the grade `q` on the 0 to 5 scale this is
/// `-0.8 + 0.28 * q - 0.02 * q * q`, as [`lemma_adjustment_formula`] shows:
/// only a perfect response raises the EF.
pub open spec fn adjustment(q: Quality) -> int {
    match q {
        Quality::Blackout => -80,
        Quality::Incorrect => -54,
        Quality::IncorrectEasy => -32,
        Quality::Hard => -14,
        Quality::Good => 0,
        Quality::Perfect => 10,
    }
}

/// The adjustment of the EF is the SM-2 formula
/// `-0.8 + 0.28 * q - 0.02 * q * q` in hundredths, for the grade `q` of the
/// quality.
pub proof fn lemma_adjustment_formula(q: Quality)
    ensures
        adjustment(q) == 28 * q.value() - 2 * (q.value() * q.value()) - 80,
{
    let grade = q.value() as int;
    assert(grade * grade == match q {
        Quality::Blackout => 0int,
        Quality::Incorrect => 1,
        Quality::IncorrectEasy => 4,
        Quality::Hard => 9,
        Quality::Good => 16,
        Quality::Perfect => 25,
    }) by (nonlinear_arith)
        requires
            grade == match q {
                Quality::Blackout => 0int,
                Quality::Incorrect => 1,
                Quality::IncorrectEasy => 2,
                Quality::Hard => 3,
                Quality::Good => 4,
                Quality::Perfect => 5,
            },
    ;
}

/// The EF after a review of the given quality: the old EF is raised to the
/// minimum, adjusted, and raised to the minimum again. The result stops at
/// the largest EF.
pub open spec fn easiness_after(ef: nat, q: Quality) -> nat {
    let next = at_least_min(at_least_min(ef as int) + adjustment(q));
    if next > MAX_EF {
        MAX_EF as nat
    } else {
        next as nat
    }
}

/// If the given EF is below the minimum, return the minimum.
fn min(ef: Ease) -> (raised: Ease)
    ensures
        raised == at_least_min(ef as int),
{
    if ef < MIN_EF {
        MIN_EF
    } else {
        ef
    }
}

/// Update EF after a review.
pub fn next_easiness(ef: Ease, q: Quality) -> (next: Ease)
    ensures
        next == easiness_after(ef as nat, q),
        next >= MIN_EF,
{
    let ef = min(ef);
    let grade: u64 = q.value() as u64;
    proof {
        lemma_adjustment_formula(q);
    }
    assert(grade * grade <= 25) by (nonlinear_arith)
        requires
            grade <= 5,
    ;
    let gain: u64 = ef as u64 + 28 * grade;
    let loss: u64 = 80 + 2 * (grade * grade);
    let raw: u64 = gain - loss;
    if raw > MAX_EF as u64 {
        MAX_EF
    } else {
        min(raw as Ease)
    }
}

} // verus!
