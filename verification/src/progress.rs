//! The progress indicator.

use vstd::prelude::*;

verus! {

/// The upper bound of a progress indicator that was given none.
pub const DEFAULT_MAX: u16 = 100;

/// What a progress indicator displays: an upper bound and the progress made
/// towards it.
///
/// The progress is shown as it was given.  It is neither clamped to the range
/// from zero to `max` nor rejected when it lies outside of it: what an
/// indicator draws for such a value is left to whatever draws it.
#[derive(Clone, Copy, Debug, PartialEq, Eq, Structural)]
pub struct ProgressBar {
    /// The value at which the indicator is full.
    pub max: u16,
    /// How much progress is displayed.
    pub progress: i32,
}

impl ProgressBar {
    /// An indicator with the default upper bound, [`DEFAULT_MAX`].
    pub fn new(progress: i32) -> (bar: ProgressBar)
        ensures
            bar.max == DEFAULT_MAX,
            bar.progress == progress,
    {
        ProgressBar { max: DEFAULT_MAX, progress }
    }

    /// An indicator with the upper bound `max`.
    pub fn with_max(max: u16, progress: i32) -> (bar: ProgressBar)
        ensures
            bar.max == max,
            bar.progress == progress,
    {
        ProgressBar { max, progress }
    }

    /// The indicator as it is drawn once its source reads `progress`: the
    /// bound stays, the displayed value follows the source.
    pub fn observe(self, progress: i32) -> (bar: ProgressBar)
        ensures
            bar.max == self.max,
            bar.progress == progress,
    {
        ProgressBar { max: self.max, progress }
    }
}

} // verus!
