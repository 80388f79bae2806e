//! A list of counters whose rows are fixed when it is made.
//!
//! Rows are neither added nor removed: only what the counters read changes,
//! and each counter changes by itself.

use vstd::prelude::*;

verus! {

/// What the rows of a new list of `length` counters read: the first reads
/// one, the next two, and so on.
pub open spec fn initial_rows(length: nat) -> Seq<int> {
    Seq::new(length, |i: int| i + 1)
}

/// The rows after a click on the row at `index`.
pub open spec fn clicked(rows: Seq<int>, index: int) -> Seq<int> {
    if 0 <= index < rows.len() {
        rows.update(index, rows[index] + 1)
    } else {
        rows
    }
}

/// The rows after a run of clicks, each on the row at one of `clicks`,
/// first to last.
pub open spec fn clicked_all(rows: Seq<int>, clicks: Seq<int>) -> Seq<int>
    decreases clicks.len(),
{
    if clicks.len() == 0 {
        rows
    } else {
        clicked(clicked_all(rows, clicks.drop_last()), clicks.last())
    }
}

/// How many of `clicks` were on the row at `index`.
pub open spec fn times_clicked(clicks: Seq<int>, index: int) -> nat
    decreases clicks.len(),
{
    if clicks.len() == 0 {
        0
    } else if clicks.last() == index {
        times_clicked(clicks.drop_last(), index) + 1
    } else {
        times_clicked(clicks.drop_last(), index)
    }
}

/// The rows of a list are fixed and its counters are independent: after any
/// run of clicks there are as many rows as before, and each row reads what
/// it read plus the number of clicks that were on it.  A click on one row
/// never shows on another.
pub proof fn lemma_clicked_all(rows: Seq<int>, clicks: Seq<int>)
    ensures
        clicked_all(rows, clicks).len() == rows.len(),
        forall|index: int|
            0 <= index < rows.len() ==> #[trigger] clicked_all(rows, clicks)[index] == rows[index]
                + times_clicked(clicks, index),
    decreases clicks.len(),
{
    if clicks.len() > 0 {
        lemma_clicked_all(rows, clicks.drop_last());
    }
}

/// A fixed number of independent counters.
pub struct StaticList {
    counters: Vec<usize>,
}

impl View for StaticList {
    type V = Seq<int>;

    closed spec fn view(&self) -> Seq<int> {
        Seq::new(self.counters@.len(), |i: int| self.counters@[i] as int)
    }
}

impl StaticList {
    /// A list of `length` counters.  The counter of each row reads the
    /// position of the row, counted from one.
    pub fn new(length: usize) -> (list: StaticList)
        ensures
            list@ == initial_rows(length as nat),
            list@.len() == length,
    {
        let mut counters: Vec<usize> = Vec::new();
        let mut index: usize = 0;
        while index < length
            invariant
                index <= length,
                counters@.len() == index,
                forall|i: int| 0 <= i < index ==> #[trigger] counters@[i] == i + 1,
            decreases length - index,
        {
            counters.push(index + 1);
            index = index + 1;
        }
        let list = StaticList { counters };
        assert(list@ =~= initial_rows(length as nat));
        list
    }

    /// How many rows the list has.
    pub fn len(&self) -> (n: usize)
        ensures
            n == self@.len(),
    {
        self.counters.len()
    }

    /// What the counter of the row at `index` reads.
    pub fn value(&self, index: usize) -> (value: usize)
        requires
            index < self@.len(),
        ensures
            value == self@[index as int],
    {
        self.counters[index]
    }

    /// What the counters read, first row to last.
    pub fn values(&self) -> (values: Vec<usize>)
        ensures
            values@.len() == self@.len(),
            forall|i: int| 0 <= i < values@.len() ==> #[trigger] values@[i] == self@[i],
    {
        let mut values: Vec<usize> = Vec::new();
        let mut index: usize = 0;
        while index < self.counters.len()
            invariant
                index <= self.counters@.len(),
                values@.len() == index,
                forall|i: int| 0 <= i < index ==> #[trigger] values@[i] == self.counters@[i],
            decreases self.counters@.len() - index,
        {
            values.push(self.counters[index]);
            index = index + 1;
        }
        values
    }

    /// A click on the row at `index`: its counter goes up by one.  The
    /// number of rows stays, and so does every other counter.
    pub fn increment(&mut self, index: usize)
        requires
            index < old(self)@.len(),
            old(self)@[index as int] < usize::MAX,
        ensures
            final(self)@ == clicked(old(self)@, index as int),
            final(self)@.len() == old(self)@.len(),
            final(self)@[index as int] == old(self)@[index as int] + 1,
            forall|other: int|
                0 <= other < old(self)@.len() && other != index ==> #[trigger] final(self)@[other]
                    == old(self)@[other],
    {
        let value = self.counters[index];
        self.counters.set(index, value + 1);
        assert(self@ =~= clicked(old(self)@, index as int));
    }
}

} // verus!
