//! The grade given to a single review.

use vstd::prelude::*;

verus! {

/// Recall quality, from complete blackout (0) to perfect response (5).
#[derive(Debug, Copy, Clone, PartialEq, Eq, Structural)]
pub enum Quality {
    /// Complete blackout.
    Blackout,
    /// Incorrect response; the correct one remembered.
    Incorrect,
    /// Incorrect response; where the correct one seemed easy to recall.
    IncorrectEasy,
    /// Correct response recalled with serious difficulty.
    Hard,
    /// Correct response after a hesitation.
    Good,
    /// Perfect response.
    Perfect,
}

impl Quality {
    /// The grade as a number on the 0 to 5 scale.
    pub open spec fn spec_value(self) -> u8 {
        match self {
            Quality::Blackout => 0,
            Quality::Incorrect => 1,
            Quality::IncorrectEasy => 2,
            Quality::Hard => 3,
            Quality::Good => 4,
            Quality::Perfect => 5,
        }
    }

    /// The grades that count as a failure to recall.
    pub open spec fn spec_forgot(self) -> bool {
        self is Blackout || self is Incorrect || self is IncorrectEasy
    }

    /// The grades after which the item is shown again in the same session:
    /// every failure, and a correct response that was hard to recall.
    pub open spec fn spec_repeat(self) -> bool {
        self is Blackout || self is Incorrect || self is IncorrectEasy || self is Hard
    }

    /// The grade as a number on the 0 to 5 scale.
    #[verifier::when_used_as_spec(spec_value)]
    pub fn value(self) -> (v: u8)
        ensures
            v == self.spec_value(),
            v <= 5,
    {
        match self {
            Quality::Blackout => 0,
            Quality::Incorrect => 1,
            Quality::IncorrectEasy => 2,
            Quality::Hard => 3,
            Quality::Good => 4,
            Quality::Perfect => 5,
        }
    }

    /// True for quality levels representing failure.
    #[verifier::when_used_as_spec(spec_forgot)]
    pub fn forgot(self) -> (failed: bool)
        ensures
            failed == self.spec_forgot(),
            failed <==> self.spec_value() < 3,
    {
        match self {
            Quality::Blackout | Quality::Incorrect | Quality::IncorrectEasy => true,
            Quality::Hard | Quality::Good | Quality::Perfect => false,
        }
    }

    /// Should the item be repeated at the end of the session?
    #[verifier::when_used_as_spec(spec_repeat)]
    pub fn repeat(self) -> (again: bool)
        ensures
            again == self.spec_repeat(),
            again <==> self.spec_forgot() || self is Hard,
    {
        match self {
            Quality::Blackout | Quality::Incorrect | Quality::IncorrectEasy | Quality::Hard => true,
            Quality::Good | Quality::Perfect => false,
        }
    }
}

} // verus!
