//! A list of counters to which rows can be added and from which they can be
//! removed.
//!
//! Each row is known by an identifier, not by its position.  A rendering
//! layer that keys its rows by [`Entry::id`] therefore keeps a button wired
//! to the row it was made for when other rows leave and positions shift.

use crate::list_model::{lemma_add, lemma_increment, lemma_initial, lemma_remove};
use crate::list_model::{lemma_filter_rows, lemma_remove_absent, lemma_row_found};
use crate::list_model::{other_than, ListModel, Row};
use vstd::prelude::*;

verus! {

/// One row of a [`DynamicList`].
#[derive(Clone, Copy, Debug, PartialEq, Eq, Structural)]
pub struct Entry {
    /// The identifier the row is known by for as long as it lives.
    pub id: usize,
    /// What the counter of the row reads.
    pub value: usize,
}

impl View for Entry {
    type V = Row;

    open spec fn view(&self) -> Row {
        Row { id: self.id as int, value: self.value as int }
    }
}

/// The rows that `entries` stand for, in the same order.
pub open spec fn rows_of(entries: Seq<Entry>) -> Seq<Row> {
    Seq::new(entries.len(), |i: int| entries[i]@)
}

/// A list of counters that grows and shrinks.
///
/// The list owns the identifier that its next row will get.  That identifier
/// only ever moves up, so a row that is added later is never mistaken for
/// one that has left.
pub struct DynamicList {
    next_id: usize,
    entries: Vec<Entry>,
}

impl View for DynamicList {
    type V = ListModel;

    closed spec fn view(&self) -> ListModel {
        ListModel { next_id: self.next_id as int, rows: rows_of(self.entries@) }
    }
}

impl DynamicList {
    /// The invariant of the list: that of its model, and every number in it
    /// fits the machine.
    pub open spec fn wf(&self) -> bool {
        &&& self@.wf()
        &&& self@.next_id <= usize::MAX
        &&& forall|i: int|
            0 <= i < self@.rows.len() ==> 0 <= (#[trigger] self@.rows[i]).value <= usize::MAX
    }

    /// A list of `initial_length` rows.  Their identifiers count up from
    /// zero, and each counter reads one more than its identifier.
    pub fn new(initial_length: usize) -> (list: DynamicList)
        ensures
            list.wf(),
            list@ == ListModel::initial(initial_length as nat),
    {
        let mut entries: Vec<Entry> = Vec::new();
        let mut id: usize = 0;
        while id < initial_length
            invariant
                id <= initial_length,
                entries@.len() == id,
                forall|i: int|
                    0 <= i < id ==> (#[trigger] entries@[i]) == (Entry {
                        id: i as usize,
                        value: (i + 1) as usize,
                    }),
            decreases initial_length - id,
        {
            entries.push(Entry { id, value: id + 1 });
            id = id + 1;
        }
        let list = DynamicList { next_id: initial_length, entries };
        proof {
            lemma_initial(initial_length as nat);
            assert(list@.rows =~= ListModel::initial(initial_length as nat).rows);
        }
        list
    }

    /// How many rows the list has.
    pub fn len(&self) -> (n: usize)
        ensures
            n == self@.rows.len(),
    {
        self.entries.len()
    }

    /// The identifier that the next added row will get.
    pub fn next_id(&self) -> (id: usize)
        ensures
            id == self@.next_id,
    {
        self.next_id
    }

    /// The rows, first to last, as a rendering layer walks them.
    pub fn entries(&self) -> (rows: Vec<Entry>)
        ensures
            rows_of(rows@) == self@.rows,
    {
        let mut rows: Vec<Entry> = Vec::new();
        let mut i: usize = 0;
        while i < self.entries.len()
            invariant
                i <= self.entries@.len(),
                rows@ == self.entries@.take(i as int),
            decreases self.entries@.len() - i,
        {
            rows.push(self.entries[i]);
            assert(self.entries@.take(i + 1) =~= self.entries@.take(i as int).push(
                self.entries@[i as int],
            ));
            i = i + 1;
        }
        assert(self.entries@.take(i as int) =~= self.entries@);
        rows
    }

    /// What the counter of the row known by `id` reads, or `None` where no
    /// row is known by `id`.
    pub fn value_of(&self, id: usize) -> (value: Option<usize>)
        requires
            self.wf(),
        ensures
            match value {
                Some(v) => self@.value_of(id as int) == Some(v as int),
                None => self@.value_of(id as int).is_none(),
            },
    {
        let mut i: usize = 0;
        while i < self.entries.len()
            invariant
                self.wf(),
                i <= self.entries@.len(),
                forall|j: int| 0 <= j < i ==> (#[trigger] self@.rows[j]).id != id,
            decreases self.entries@.len() - i,
        {
            if self.entries[i].id == id {
                proof {
                    assert(self@.rows[i as int] == self.entries@[i as int]@);
                    lemma_row_found(self@, i as int);
                }
                return Some(self.entries[i].value);
            }
            assert(self@.rows[i as int] == self.entries@[i as int]@);
            i = i + 1;
        }
        assert(!self@.has_id(id as int));
        None
    }

    /// Appends a row and returns the identifier it is known by.  That is the
    /// identifier [`DynamicList::next_id`] reported before the call; no row
    /// of the list has it, and none ever had.  The counter of the new row
    /// reads one more than its identifier.
    pub fn add(&mut self) -> (id: usize)
        requires
            old(self).wf(),
            old(self)@.next_id < usize::MAX,
        ensures
            final(self).wf(),
            final(self)@ == old(self)@.add(),
            id == old(self)@.next_id,
            !old(self)@.has_id(id as int),
            final(self)@.value_of(id as int) == Some(id + 1),
            final(self)@.rows.len() == old(self)@.rows.len() + 1,
            forall|other: int|
                other != id ==> #[trigger] final(self)@.value_of(other) == old(self)@.value_of(
                    other,
                ),
    {
        let id = self.next_id;
        proof {
            lemma_add(self@);
        }
        self.entries.push(Entry { id, value: id + 1 });
        self.next_id = id + 1;
        assert(self@.rows =~= old(self)@.add().rows);
        id
    }

    /// Adds one to the counter of the row known by `id`.  No other counter
    /// changes and no row moves; where no row is known by `id`, nothing
    /// changes at all.
    pub fn increment(&mut self, id: usize)
        requires
            old(self).wf(),
            old(self)@.value_of(id as int) != Some(usize::MAX as int),
        ensures
            final(self).wf(),
            final(self)@ == old(self)@.increment(id as int),
            final(self)@.ids() == old(self)@.ids(),
            !old(self)@.has_id(id as int) ==> final(self)@ == old(self)@,
            final(self)@.value_of(id as int) == match old(self)@.value_of(id as int) {
                Some(value) => Some(value + 1),
                None => None,
            },
            forall|other: int|
                other != id ==> #[trigger] final(self)@.value_of(other) == old(self)@.value_of(
                    other,
                ),
    {
        let ghost before = self@;
        let mut i: usize = 0;
        while i < self.entries.len()
            invariant
                i <= self.entries@.len(),
                before == old(self)@,
                before.wf(),
                before.value_of(id as int) != Some(usize::MAX as int),
                self.next_id == old(self).next_id,
                self.entries@.len() == before.rows.len(),
                forall|j: int|
                    0 <= j < i ==> (#[trigger] self.entries@[j])@ == before.increment(
                        id as int,
                    ).rows[j],
                forall|j: int|
                    i <= j < self.entries@.len() ==> (#[trigger] self.entries@[j])@
                        == before.rows[j],
            decreases self.entries@.len() - i,
        {
            let entry = self.entries[i];
            if entry.id == id {
                proof {
                    lemma_row_found(before, i as int);
                }
                self.entries.set(i, Entry { id: entry.id, value: entry.value + 1 });
            }
            i = i + 1;
        }
        proof {
            lemma_increment(before, id as int);
            assert(self@.rows =~= before.increment(id as int).rows);
            assert forall|j: int| 0 <= j < self@.rows.len() implies 0 <= (#[trigger] self@.rows[j]).value
                <= usize::MAX by {
                assert(self@.rows[j] == self.entries@[j]@);
            }
        }
    }

    /// Takes out the row known by `id`.  The other rows stay, in their
    /// order and with what their counters read.  Where no row is known by
    /// `id`, nothing changes.  The identifier is not handed out again.
    pub fn remove(&mut self, id: usize)
        requires
            old(self).wf(),
        ensures
            final(self).wf(),
            final(self)@ == old(self)@.remove(id as int),
            !final(self)@.has_id(id as int),
            !old(self)@.has_id(id as int) ==> final(self)@ == old(self)@,
            final(self)@.rows.len() == old(self)@.rows.len() - (if old(self)@.has_id(id as int) {
                1int
            } else {
                0int
            }),
            forall|other: int|
                other != id ==> #[trigger] final(self)@.value_of(other) == old(self)@.value_of(
                    other,
                ),
    {
        let ghost before = self@;
        let mut kept: Vec<Entry> = Vec::new();
        let mut i: usize = 0;
        while i < self.entries.len()
            invariant
                i <= self.entries@.len(),
                self.entries@ == old(self).entries@,
                rows_of(kept@) == rows_of(self.entries@.take(i as int)).filter(
                    other_than(id as int),
                ),
            decreases self.entries@.len() - i,
        {
            let entry = self.entries[i];
            proof {
                let seen = rows_of(self.entries@.take(i as int));
                assert(rows_of(self.entries@.take(i + 1)) =~= seen.push(entry@));
                seen.lemma_filter_push(entry@, other_than(id as int));
                assert(rows_of(kept@.push(entry)) =~= rows_of(kept@).push(entry@));
            }
            if entry.id != id {
                kept.push(entry);
            }
            i = i + 1;
        }
        assert(self.entries@.take(i as int) =~= self.entries@);
        self.entries = kept;
        proof {
            lemma_remove(before, id as int);
            lemma_filter_rows(before.rows, id as int);
            assert forall|j: int| 0 <= j < self@.rows.len() implies 0 <= (#[trigger] self@.rows[j]).value
                <= usize::MAX by {
                assert(before.rows.contains(self@.rows[j]));
            }
            if !before.has_id(id as int) {
                lemma_remove_absent(before, id as int);
            }
        }
    }
}

} // verus!
