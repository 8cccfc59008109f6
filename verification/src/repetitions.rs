//! The count of successful recalls in a row and how a review changes it.

use crate::quality::Quality;
use vstd::prelude::*;

verus! {

/// The number of times in a row an item was recalled correctly.
pub type Repetitions = u32;

/// The repetitions after a review of the given quality: none after a
/// failure, one more after a success.
pub open spec fn repetitions_after(rep: nat, q: Quality) -> nat {
    if q.forgot() {
        0
    } else {
        rep + 1
    }
}

/// Update the repetitions after a review.
///
/// The count must have room for one more success; a failure is accepted at
/// any count.
pub fn next_repetitions(rep: Repetitions, q: Quality) -> (next: Repetitions)
    requires
        q.forgot() || rep < u32::MAX,
    ensures
        next == repetitions_after(rep as nat, q),
        q.forgot() ==> next == 0,
        !q.forgot() ==> next == rep + 1,
{
    if q.forgot() {
        0
    } else {
        rep + 1
    }
}

} // verus!
