//! SM-2 spaced-repetition scheduling for a single item of knowledge.
//!
//! A review is graded with a [`Quality`]; [`Item::review`] derives the next
//! repetition count and easiness factor from it, and [`Item::interval`] gives
//! the number of days until the item is due again.
//!
//! Easiness factors are held exactly, as whole hundredths (`250` is the
//! factor 2.5). Every constant of the SM-2 update is a multiple of 0.01, so
//! the update never rounds, and the interval is the exact ceiling of
//! `6 * factor^(repetitions - 2)`.

mod base100;
pub mod easiness;
pub mod interval;
pub mod item;
pub mod laws;
pub mod quality;
pub mod repetitions;

pub use easiness::{Ease, INITIAL_EF, MAX_EF, MIN_EF};
pub use interval::{Interval, MAX_INTERVAL};
pub use item::Item;
pub use quality::Quality;
pub use repetitions::Repetitions;
