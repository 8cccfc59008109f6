//! An item of knowledge and its scheduling state.

use crate::easiness::{easiness_after, next_easiness, Ease, INITIAL_EF, MIN_EF};
use crate::interval::{capped, grown_interval, interval_days, Interval};
use crate::quality::Quality;
use crate::repetitions::{next_repetitions, repetitions_after, Repetitions};
use vstd::prelude::*;

verus! {

/// What an [`Item`] stands for: the successful recalls in a row since the
/// last failure, and the easiness in hundredths.
pub struct Schedule {
    pub repetitions: nat,
    pub easiness: nat,
}

/// The schedule after a review of the given quality.
pub open spec fn reviewed(s: Schedule, q: Quality) -> Schedule {
    Schedule {
        repetitions: repetitions_after(s.repetitions, q),
        easiness: easiness_after(s.easiness, q),
    }
}

/// An item of knowledge.
#[derive(Debug, Copy, Clone)]
pub struct Item {
    n: Repetitions,
    ef: Ease,
}

impl View for Item {
    type V = Schedule;

    closed spec fn view(&self) -> Schedule {
        Schedule { repetitions: self.n as nat, easiness: self.ef as nat }
    }
}

impl Item {
    /// Construct an item from a repetition count and an EF.
    ///
    /// Any EF is accepted, also one below the minimum: the next review
    /// raises it.
    pub fn new(r: Repetitions, e: Ease) -> (item: Self)
        ensures
            item@ == (Schedule { repetitions: r as nat, easiness: e as nat }),
    {
        Self { n: r, ef: e }
    }

    /// The item's number of repetitions.
    pub fn repetitions(&self) -> (r: Repetitions)
        ensures
            r == self@.repetitions,
    {
        self.n
    }

    /// The item's easiness factor.
    pub fn easiness(&self) -> (e: Ease)
        ensures
            e == self@.easiness,
    {
        self.ef
    }

    /// The item after a review of the given quality. The item itself is
    /// left as it was.
    ///
    /// A failure sets the repetitions to zero, a success adds one; the count
    /// must have room for it.
    #[must_use]
    pub fn review(self, q: Quality) -> (next: Self)
        requires
            q.forgot() || self@.repetitions < u32::MAX,
        ensures
            next@ == reviewed(self@, q),
            next@.easiness >= MIN_EF,
            q.forgot() ==> next@.repetitions == 0,
            !q.forgot() ==> next@.repetitions == self@.repetitions + 1,
    {
        Self { n: next_repetitions(self.n, q), ef: next_easiness(self.ef, q) }
    }

    /// The interval when the item will be reviewed next.
    ///
    /// The EF is taken as it is, also where it is below the minimum.
    pub fn interval(&self) -> (days: Interval)
        ensures
            days == capped(interval_days(self@.repetitions, self@.easiness)),
    {
        match self.n {
            0 => 0,
            1 => 1,
            2 => 6,
            _ => grown_interval(self.ef, self.n - 2),
        }
    }
}

impl Default for Item {
    /// A new item: never recalled, with the initial EF.
    fn default() -> (item: Self)
        ensures
            item@ == (Schedule { repetitions: 0, easiness: INITIAL_EF as nat }),
    {
        Self { n: 0, ef: INITIAL_EF }
    }
}

} // verus!
