//! A counter that goes up by one with every click.
//!
//! Besides the count the widget shows a doubled value, which is worked out
//! from the count whenever it is asked for, a style flag that is set while
//! the count is odd, and three progress indicators.  All of them are read
//! off the one count, so none of them can lag behind another.

use crate::progress::{ProgressBar, DEFAULT_MAX};
use vstd::prelude::*;

verus! {

/// The upper bound of the two indicators that are given one.
pub const SHORT_MAX: u16 = 50;

/// The count after one more click.
pub open spec fn incremented(count: int) -> int {
    count + 1
}

/// The doubled value that goes with `count`.
pub open spec fn doubled(count: int) -> int {
    count * 2
}

/// Whether `count` is odd.
pub open spec fn odd(count: int) -> bool {
    count % 2 == 1
}

/// The count of a counter that started at zero and was clicked `clicks`
/// times.
pub open spec fn after_clicks(clicks: nat) -> int
    decreases clicks,
{
    if clicks == 0 {
        0
    } else {
        incremented(after_clicks((clicks - 1) as nat))
    }
}

/// After `clicks` clicks the count is `clicks`, the doubled value is twice
/// that, and the style flag is set exactly when `clicks` is odd.
pub proof fn lemma_after_clicks(clicks: nat)
    ensures
        after_clicks(clicks) == clicks,
        doubled(after_clicks(clicks)) == 2 * clicks,
        odd(after_clicks(clicks)) == (clicks % 2 == 1),
    decreases clicks,
{
    if clicks > 0 {
        lemma_after_clicks((clicks - 1) as nat);
    }
}

/// A click counter.
pub struct Counter {
    count: i32,
}

impl View for Counter {
    type V = int;

    closed spec fn view(&self) -> int {
        self.count as int
    }
}

impl Counter {
    /// The invariant of the counter: it counts clicks, so it is never below
    /// zero, and it fits the machine.
    pub open spec fn wf(&self) -> bool {
        0 <= self@ <= i32::MAX
    }

    /// A counter that has not been clicked.
    pub fn new() -> (counter: Counter)
        ensures
            counter.wf(),
            counter@ == 0,
    {
        Counter { count: 0 }
    }

    /// The count.
    pub fn count(&self) -> (count: i32)
        ensures
            count == self@,
    {
        self.count
    }

    /// One click: the count goes up by one.
    pub fn increment(&mut self)
        requires
            old(self).wf(),
            old(self)@ < i32::MAX,
        ensures
            final(self).wf(),
            final(self)@ == incremented(old(self)@),
    {
        self.count = self.count + 1;
    }

    /// Twice the count, worked out anew from the count at every call.
    pub fn double_count(&self) -> (double: i32)
        requires
            self.wf(),
            doubled(self@) <= i32::MAX,
        ensures
            double == doubled(self@),
    {
        self.count * 2
    }

    /// Whether the count is odd, which is when the button is styled.
    pub fn is_odd(&self) -> (flag: bool)
        requires
            self.wf(),
        ensures
            flag == odd(self@),
    {
        self.count % 2 == 1
    }

    /// The three progress indicators of the widget, as they are drawn now:
    /// the count against [`SHORT_MAX`], the count against the default bound,
    /// and the doubled value against [`SHORT_MAX`].  The first two show the
    /// same value and the third shows twice that, whenever they are asked
    /// for.
    pub fn progress_bars(&self) -> (bars: Vec<ProgressBar>)
        requires
            self.wf(),
            doubled(self@) <= i32::MAX,
        ensures
            bars@.len() == 3,
            bars@[0] == (ProgressBar { max: SHORT_MAX, progress: self@ as i32 }),
            bars@[1] == (ProgressBar { max: DEFAULT_MAX, progress: self@ as i32 }),
            bars@[2] == (ProgressBar { max: SHORT_MAX, progress: doubled(self@) as i32 }),
    {
        let mut bars: Vec<ProgressBar> = Vec::new();
        bars.push(ProgressBar::with_max(SHORT_MAX, self.count()));
        bars.push(ProgressBar::new(self.count()));
        bars.push(ProgressBar::with_max(SHORT_MAX, self.double_count()));
        bars
    }
}

} // verus!
