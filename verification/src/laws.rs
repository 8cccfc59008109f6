//! What holds of every schedule, whatever the reviews.
//!
//! The statements are over [`Schedule`], which every [`crate::Item`] stands
//! for, and [`reviewed`], which is what [`crate::Item::review`] computes.

use crate::easiness::MIN_EF;
use crate::item::{reviewed, Schedule};
use crate::quality::Quality;
use vstd::prelude::*;

verus! {

/// The schedule after reviews of the given qualities, one after another.
pub open spec fn reviewed_all(s: Schedule, qs: Seq<Quality>) -> Schedule
    decreases qs.len(),
{
    if qs.len() == 0 {
        s
    } else {
        reviewed(reviewed_all(s, qs.drop_last()), qs.last())
    }
}

/// The easiness is never below the minimum after a review: whatever the
/// schedule at the start, also one with an easiness below the minimum, and
/// whatever the qualities, it is at least the minimum after the first review
/// and after each one that follows.
pub proof fn lemma_easiness_never_below_min(s: Schedule, qs: Seq<Quality>)
    ensures
        forall|i: int|
            1 <= i <= qs.len() ==> (#[trigger] reviewed_all(s, qs.take(i))).easiness >= MIN_EF,
{
}

/// A review is not idempotent. A second review of the same quality leaves
/// the schedule as the first one made it in one case only: after a failure
/// that brought the easiness down to the minimum. After a success the
/// repetitions differ, and above the minimum a failure lowers the easiness
/// once more.
pub proof fn lemma_review_not_idempotent(s: Schedule, q: Quality)
    ensures
        reviewed(reviewed(s, q), q) == reviewed(s, q)
            <==> q.forgot() && reviewed(s, q).easiness == MIN_EF,
{
}

} // verus!
