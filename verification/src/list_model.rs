//! The mathematical model of a list of counters that grows and shrinks.
//!
//! A list is a sequence of rows, each an identifier with the value of its
//! counter, and the identifier that the next new row will get.  The three
//! transitions of the list are total functions on that model; the laws below
//! say what they keep.

use vstd::prelude::*;

verus! {

/// One row of a list: the identifier it is known by and what its counter
/// reads.
pub struct Row {
    pub id: int,
    pub value: int,
}

/// A list of rows in the order in which they are shown.
#[verifier::ext_equal]
pub struct ListModel {
    /// The identifier that the next added row gets.
    pub next_id: int,
    /// The rows, first to last.
    pub rows: Seq<Row>,
}

/// One thing that can happen to a list.
pub enum ListOp {
    /// A row is appended.
    Add,
    /// The counter of the row with this identifier goes up by one.
    Increment(int),
    /// The row with this identifier leaves.
    Remove(int),
}

/// Holds of every row but the one known by `id`.
pub open spec fn other_than(id: int) -> spec_fn(Row) -> bool {
    |row: Row| row.id != id
}

/// Adds one to the counter of the row known by `id` and keeps any other row.
pub open spec fn bump(id: int) -> spec_fn(Row) -> Row {
    |row: Row|
        if row.id == id {
            Row { id: row.id, value: row.value + 1 }
        } else {
            row
        }
}

/// No two rows of `rows` share an identifier.
pub open spec fn distinct_ids(rows: Seq<Row>) -> bool {
    forall|i: int, j: int|
        #![trigger rows[i], rows[j]]
        0 <= i < j < rows.len() ==> rows[i].id != rows[j].id
}

impl ListModel {
    /// The list a widget starts with: `length` rows with the identifiers
    /// `0`, `1`, and so on, each counter reading one more than its
    /// identifier.
    pub open spec fn initial(length: nat) -> ListModel {
        ListModel {
            next_id: length as int,
            rows: Seq::new(length, |i: int| Row { id: i, value: i + 1 }),
        }
    }

    /// Identifiers are handed out from zero upwards.  Every identifier in
    /// the list was handed out before, so it lies below `next_id`, and no two
    /// rows share one.
    pub open spec fn wf(self) -> bool {
        &&& 0 <= self.next_id
        &&& forall|i: int|
            0 <= i < self.rows.len() ==> 0 <= (#[trigger] self.rows[i]).id < self.next_id
        &&& distinct_ids(self.rows)
    }

    /// Some row is known by `id`.
    pub open spec fn has_id(self, id: int) -> bool {
        exists|i: int| 0 <= i < self.rows.len() && (#[trigger] self.rows[i]).id == id
    }

    /// The position of a row that is known by `id`.
    pub open spec fn index_of(self, id: int) -> int {
        choose|i: int| 0 <= i < self.rows.len() && (#[trigger] self.rows[i]).id == id
    }

    /// What the counter of the row known by `id` reads, if there is such a
    /// row.
    pub open spec fn value_of(self, id: int) -> Option<int> {
        if self.has_id(id) {
            Some(self.rows[self.index_of(id)].value)
        } else {
            None
        }
    }

    /// The identifiers of the rows, first to last: the keys by which a
    /// rendering layer tells the rows apart.
    pub open spec fn ids(self) -> Seq<int> {
        Seq::new(self.rows.len(), |i: int| self.rows[i].id)
    }

    /// A new row is appended.  It is known by `next_id`, its counter reads
    /// one more than that, and `next_id` moves on.
    pub open spec fn add(self) -> ListModel {
        ListModel {
            next_id: self.next_id + 1,
            rows: self.rows.push(Row { id: self.next_id, value: self.next_id + 1 }),
        }
    }

    /// The counter of the row known by `id` goes up by one.
    pub open spec fn increment(self, id: int) -> ListModel {
        ListModel { next_id: self.next_id, rows: self.rows.map_values(bump(id)) }
    }

    /// The row known by `id` leaves; the others stay in their order.
    pub open spec fn remove(self, id: int) -> ListModel {
        ListModel { next_id: self.next_id, rows: self.rows.filter(other_than(id)) }
    }

    /// The list after `op`.
    pub open spec fn step(self, op: ListOp) -> ListModel {
        match op {
            ListOp::Add => self.add(),
            ListOp::Increment(id) => self.increment(id),
            ListOp::Remove(id) => self.remove(id),
        }
    }

    /// The list after all of `ops`, first to last.
    pub open spec fn run(self, ops: Seq<ListOp>) -> ListModel
        decreases ops.len(),
    {
        if ops.len() == 0 {
            self
        } else {
            self.run(ops.drop_last()).step(ops.last())
        }
    }

    /// The identifiers that the `Add`s among `ops` hand out, in the order in
    /// which they do.
    pub open spec fn issued(self, ops: Seq<ListOp>) -> Seq<int>
        decreases ops.len(),
    {
        if ops.len() == 0 {
            Seq::empty()
        } else {
            let earlier = self.issued(ops.drop_last());
            match ops.last() {
                ListOp::Add => earlier.push(self.run(ops.drop_last()).next_id),
                _ => earlier,
            }
        }
    }
}

/// What filtering by identifier keeps: nothing known by `id`, every other
/// row, nothing that was not there, and the distinctness of identifiers.
pub proof fn lemma_filter_rows(rows: Seq<Row>, id: int)
    ensures
        rows.filter(other_than(id)).len() <= rows.len(),
        forall|j: int|
            0 <= j < rows.filter(other_than(id)).len() ==> {
                &&& (#[trigger] rows.filter(other_than(id))[j]).id != id
                &&& rows.contains(rows.filter(other_than(id))[j])
            },
        forall|i: int|
            0 <= i < rows.len() && rows[i].id != id ==> rows.filter(other_than(id)).contains(
                #[trigger] rows[i],
            ),
        distinct_ids(rows) ==> distinct_ids(rows.filter(other_than(id))),
    decreases rows.len(),
{
    reveal(Seq::filter);
    let kept = rows.filter(other_than(id));
    if rows.len() > 0 {
        let front = rows.drop_last();
        let front_kept = front.filter(other_than(id));
        lemma_filter_rows(front, id);
        assert forall|j: int| 0 <= j < kept.len() implies (#[trigger] kept[j]).id != id
            && rows.contains(kept[j]) by {
            if j < front_kept.len() {
                assert(kept[j] == front_kept[j]);
                assert(front.contains(front_kept[j]));
                let k = choose|k: int| 0 <= k < front.len() && front[k] == front_kept[j];
                assert(rows[k] == kept[j]);
            } else {
                assert(kept[j] == rows.last());
                assert(rows[rows.len() - 1] == kept[j]);
            }
        }
        assert forall|i: int| 0 <= i < rows.len() && rows[i].id != id implies kept.contains(
            #[trigger] rows[i],
        ) by {
            if i < front.len() {
                assert(front[i] == rows[i]);
                assert(front_kept.contains(front[i]));
                let k = choose|k: int| 0 <= k < front_kept.len() && front_kept[k] == front[i];
                assert(kept[k] == rows[i]);
            } else {
                assert(kept[kept.len() - 1] == rows[i]);
            }
        }
        if distinct_ids(rows) {
            assert(distinct_ids(front)) by {
                assert forall|i: int, j: int| 0 <= i < j < front.len() implies front[i].id
                    != front[j].id by {
                    assert(rows[i].id != rows[j].id);
                }
            }
            assert forall|i: int, j: int| 0 <= i < j < kept.len() implies kept[i].id
                != kept[j].id by {
                if j < front_kept.len() {
                    assert(front_kept[i].id != front_kept[j].id);
                } else {
                    assert(front.contains(front_kept[i]));
                    let k = choose|k: int| 0 <= k < front.len() && front[k] == front_kept[i];
                    assert(rows[k].id != rows[rows.len() - 1].id);
                }
            }
        }
    }
}

/// Filtering by an identifier that no row has keeps every row.
pub proof fn lemma_filter_absent(rows: Seq<Row>, id: int)
    requires
        forall|i: int| 0 <= i < rows.len() ==> (#[trigger] rows[i]).id != id,
    ensures
        rows.filter(other_than(id)) == rows,
    decreases rows.len(),
{
    reveal(Seq::filter);
    if rows.len() > 0 {
        let front = rows.drop_last();
        assert forall|i: int| 0 <= i < front.len() implies (#[trigger] front[i]).id != id by {
            assert(rows[i].id != id);
        }
        lemma_filter_absent(front, id);
        assert(rows[rows.len() - 1].id != id);
        assert(front.push(rows.last()) =~= rows);
    }
}

/// Where no two rows share an identifier, filtering by one takes out one
/// row if a row is known by it, and none otherwise.
pub proof fn lemma_filter_len(rows: Seq<Row>, id: int)
    requires
        distinct_ids(rows),
    ensures
        rows.filter(other_than(id)).len() == rows.len() - (if exists|i: int|
            0 <= i < rows.len() && (#[trigger] rows[i]).id == id {
            1int
        } else {
            0int
        }),
    decreases rows.len(),
{
    reveal(Seq::filter);
    if rows.len() > 0 {
        let front = rows.drop_last();
        let last = rows.len() - 1;
        assert forall|i: int, j: int| 0 <= i < j < front.len() implies front[i].id
            != front[j].id by {
            assert(rows[i].id != rows[j].id);
        }
        if rows[last].id == id {
            assert forall|i: int| 0 <= i < front.len() implies (#[trigger] front[i]).id != id by {
                assert(rows[i].id != rows[last].id);
            }
            lemma_filter_absent(front, id);
        } else {
            lemma_filter_len(front, id);
            if exists|i: int| 0 <= i < front.len() && (#[trigger] front[i]).id == id {
                let i = choose|i: int| 0 <= i < front.len() && (#[trigger] front[i]).id == id;
                assert(rows[i].id == id);
            } else if exists|i: int| 0 <= i < rows.len() && (#[trigger] rows[i]).id == id {
                let i = choose|i: int| 0 <= i < rows.len() && (#[trigger] rows[i]).id == id;
                assert(front[i].id == id);
            }
        }
    }
}

/// In a well-formed list a row is found again by its identifier.
pub proof fn lemma_row_found(list: ListModel, i: int)
    requires
        list.wf(),
        0 <= i < list.rows.len(),
    ensures
        list.has_id(list.rows[i].id),
        list.index_of(list.rows[i].id) == i,
        list.value_of(list.rows[i].id) == Some(list.rows[i].value),
{
    let id = list.rows[i].id;
    let found = list.index_of(id);
    assert(0 <= found < list.rows.len() && list.rows[found].id == id);
    if found < i {
        assert(list.rows[found].id != list.rows[i].id);
    } else if i < found {
        assert(list.rows[i].id != list.rows[found].id);
    }
}

/// The starting list is well formed; its identifiers count up from zero and
/// each counter reads one more than its identifier.
pub proof fn lemma_initial(length: nat)
    ensures
        ListModel::initial(length).wf(),
        ListModel::initial(length).rows.len() == length,
        ListModel::initial(length).next_id == length,
        forall|id: int|
            0 <= id < length ==> #[trigger] ListModel::initial(length).value_of(id) == Some(
                id + 1,
            ),
        forall|id: int|
            !(0 <= id < length) ==> !#[trigger] ListModel::initial(length).has_id(id),
{
    let list = ListModel::initial(length);
    assert(list.wf());
    assert forall|id: int| 0 <= id < length implies #[trigger] list.value_of(id) == Some(
        id + 1,
    ) by {
        assert(list.rows[id].id == id);
        lemma_row_found(list, id);
    }
}

/// Adding keeps a list well formed.  The new row is known by an identifier
/// that no row had, its counter reads one more than that identifier, and
/// every other row reads what it read.
pub proof fn lemma_add(list: ListModel)
    requires
        list.wf(),
    ensures
        list.add().wf(),
        list.add().rows.len() == list.rows.len() + 1,
        !list.has_id(list.next_id),
        list.add().value_of(list.next_id) == Some(list.next_id + 1),
        forall|id: int|
            id != list.next_id ==> #[trigger] list.add().value_of(id) == list.value_of(id),
{
    let after = list.add();
    let last = list.rows.len() as int;
    assert(after.wf()) by {
        assert forall|i: int| 0 <= i < after.rows.len() implies 0 <= (#[trigger] after.rows[i]).id
            < after.next_id by {
            if i < last {
                assert(after.rows[i] == list.rows[i]);
            }
        }
        assert forall|i: int, j: int| 0 <= i < j < after.rows.len() implies after.rows[i].id
            != after.rows[j].id by {
            assert(after.rows[i] == list.rows[i]);
            if j < last {
                assert(after.rows[j] == list.rows[j]);
            }
        }
    }
    assert(after.rows[last].id == list.next_id);
    lemma_row_found(after, last);
    assert forall|id: int| id != list.next_id implies #[trigger] after.value_of(id)
        == list.value_of(id) by {
        if list.has_id(id) {
            let i = list.index_of(id);
            assert(after.rows[i] == list.rows[i]);
            lemma_row_found(after, i);
        } else if after.has_id(id) {
            let i = after.index_of(id);
            assert(i < last);
            assert(list.rows[i] == after.rows[i]);
        }
    }
}

/// Incrementing keeps a list well formed and keeps every row where it was.
/// The row known by `id` reads one more; every other row reads what it read.
pub proof fn lemma_increment(list: ListModel, id: int)
    requires
        list.wf(),
    ensures
        list.increment(id).wf(),
        list.increment(id).ids() == list.ids(),
        list.increment(id).next_id == list.next_id,
        !list.has_id(id) ==> list.increment(id) == list,
        list.increment(id).value_of(id) == match list.value_of(id) {
            Some(value) => Some(value + 1),
            None => None,
        },
        forall|other: int|
            other != id ==> #[trigger] list.increment(id).value_of(other) == list.value_of(
                other,
            ),
{
    let after = list.increment(id);
    assert(after.rows.len() == list.rows.len());
    assert forall|i: int| 0 <= i < list.rows.len() implies (#[trigger] after.rows[i]).id
        == list.rows[i].id by {}
    assert(after.ids() =~= list.ids());
    if !list.has_id(id) {
        assert(after.rows =~= list.rows);
    }
    assert(after.wf()) by {
        assert forall|i: int, j: int| 0 <= i < j < after.rows.len() implies after.rows[i].id
            != after.rows[j].id by {
            assert(list.rows[i].id != list.rows[j].id);
        }
    }
    assert forall|other: int| true implies #[trigger] after.value_of(other) == (if other == id {
        match list.value_of(id) {
            Some(value) => Some(value + 1),
            None => None,
        }
    } else {
        list.value_of(other)
    }) by {
        if list.has_id(other) {
            let i = list.index_of(other);
            assert(after.rows[i].id == other);
            lemma_row_found(after, i);
        } else if after.has_id(other) {
            let i = after.index_of(other);
            assert(list.rows[i].id == other);
        }
    }
}

/// Removing keeps a list well formed.  No row is known by `id` afterwards,
/// no row is new, and every other row is still there and reads what it read.
pub proof fn lemma_remove(list: ListModel, id: int)
    requires
        list.wf(),
    ensures
        list.remove(id).wf(),
        list.remove(id).next_id == list.next_id,
        list.remove(id).rows.len() == list.rows.len() - (if list.has_id(id) {
            1int
        } else {
            0int
        }),
        !list.remove(id).has_id(id),
        forall|other: int|
            other != id ==> #[trigger] list.remove(id).value_of(other) == list.value_of(other),
{
    let after = list.remove(id);
    lemma_filter_rows(list.rows, id);
    lemma_filter_len(list.rows, id);
    assert(after.wf()) by {
        assert forall|j: int| 0 <= j < after.rows.len() implies 0 <= (#[trigger] after.rows[j]).id
            < after.next_id by {
            assert(list.rows.contains(after.rows[j]));
            let i = choose|i: int| 0 <= i < list.rows.len() && list.rows[i] == after.rows[j];
            assert(0 <= list.rows[i].id < list.next_id);
        }
    }
    assert forall|other: int| other != id implies #[trigger] after.value_of(other)
        == list.value_of(other) by {
        if list.has_id(other) {
            let i = list.index_of(other);
            assert(after.rows.contains(list.rows[i]));
            let j = choose|j: int| 0 <= j < after.rows.len() && after.rows[j] == list.rows[i];
            lemma_row_found(after, j);
        } else if after.has_id(other) {
            let j = after.index_of(other);
            assert(list.rows.contains(after.rows[j]));
            let i = choose|i: int| 0 <= i < list.rows.len() && list.rows[i] == after.rows[j];
            assert(list.rows[i].id == other);
        }
    }
}

/// Removing an identifier that no row has changes nothing.
pub proof fn lemma_remove_absent(list: ListModel, id: int)
    requires
        !list.has_id(id),
    ensures
        list.remove(id) == list,
{
    assert forall|i: int| 0 <= i < list.rows.len() implies (#[trigger] list.rows[i]).id != id by {
        if list.rows[i].id == id {
            assert(list.has_id(id));
        }
    }
    lemma_filter_absent(list.rows, id);
}

/// Removing the same identifier a second time changes nothing more.
pub proof fn lemma_remove_twice(list: ListModel, id: int)
    ensures
        list.remove(id).remove(id) == list.remove(id),
{
    lemma_filter_rows(list.rows, id);
    lemma_filter_absent(list.remove(id).rows, id);
}

/// A row that is added after one has left is not known by the identifier of
/// the one that left: identifiers that were handed out are not handed out
/// again.
pub proof fn lemma_remove_then_add(list: ListModel, id: int)
    requires
        list.wf(),
        0 <= id < list.next_id,
    ensures
        list.remove(id).add().wf(),
        list.remove(id).add().rows.last().id == list.next_id,
        list.remove(id).add().rows.last().id != id,
{
    lemma_remove(list, id);
    lemma_add(list.remove(id));
}

/// Whatever happens to a well-formed list, in whatever order, it stays
/// well formed, and the identifiers that are handed out on the way count up
/// from where `next_id` stood, one by one.  So none of them is handed out
/// twice, none was in the list before, and none lies below the old
/// `next_id`, where the identifiers of rows that have left already lie.
pub proof fn lemma_run(list: ListModel, ops: Seq<ListOp>)
    requires
        list.wf(),
    ensures
        list.run(ops).wf(),
        list.run(ops).next_id == list.next_id + list.issued(ops).len(),
        forall|k: int|
            0 <= k < list.issued(ops).len() ==> #[trigger] list.issued(ops)[k] == list.next_id
                + k,
        forall|k: int|
            0 <= k < list.issued(ops).len() ==> !list.has_id(#[trigger] list.issued(ops)[k]),
        forall|j: int, k: int|
            #![trigger list.issued(ops)[j], list.issued(ops)[k]]
            0 <= j < k < list.issued(ops).len() ==> list.issued(ops)[j] != list.issued(ops)[k],
    decreases ops.len(),
{
    if ops.len() > 0 {
        let earlier = ops.drop_last();
        let before = list.run(earlier);
        lemma_run(list, earlier);
        match ops.last() {
            ListOp::Add => {
                lemma_add(before);
            },
            ListOp::Increment(id) => {
                lemma_increment(before, id);
            },
            ListOp::Remove(id) => {
                lemma_remove(before, id);
            },
        }
    }
    assert forall|k: int| 0 <= k < list.issued(ops).len() implies !list.has_id(
        #[trigger] list.issued(ops)[k],
    ) by {
        if list.has_id(list.issued(ops)[k]) {
            let i = list.index_of(list.issued(ops)[k]);
            assert(list.rows[i].id < list.next_id);
        }
    }
}

/// Every row of a list that has been through `ops` is known by an
/// identifier that the list started with or that one of the `Add`s handed
/// out.
pub proof fn lemma_run_ids(list: ListModel, ops: Seq<ListOp>)
    requires
        list.wf(),
    ensures
        forall|i: int|
            0 <= i < list.run(ops).rows.len() ==> {
                ||| list.has_id((#[trigger] list.run(ops).rows[i]).id)
                ||| list.issued(ops).contains(list.run(ops).rows[i].id)
            },
    decreases ops.len(),
{
    if ops.len() > 0 {
        let earlier = ops.drop_last();
        let before = list.run(earlier);
        let after = list.run(ops);
        let given = list.issued(ops);
        lemma_run_ids(list, earlier);
        lemma_run(list, earlier);
        assert forall|k: int| 0 <= k < list.issued(earlier).len() implies given.contains(
            #[trigger] list.issued(earlier)[k],
        ) by {
            assert(given[k] == list.issued(earlier)[k]);
        }
        assert forall|i: int| 0 <= i < after.rows.len() implies list.has_id(
            (#[trigger] after.rows[i]).id,
        ) || given.contains(after.rows[i].id) by {
            let id = after.rows[i].id;
            match ops.last() {
                ListOp::Add => {
                    if i < before.rows.len() {
                        assert(after.rows[i] == before.rows[i]);
                        if !list.has_id(id) {
                            assert(list.issued(earlier).contains(before.rows[i].id));
                        }
                    } else {
                        assert(given[given.len() - 1] == id);
                    }
                },
                ListOp::Increment(target) => {
                    assert(after.rows[i].id == before.rows[i].id);
                    if !list.has_id(id) {
                        assert(list.issued(earlier).contains(before.rows[i].id));
                    }
                },
                ListOp::Remove(target) => {
                    lemma_filter_rows(before.rows, target);
                    assert(before.rows.contains(after.rows[i]));
                    let j = choose|j: int|
                        0 <= j < before.rows.len() && before.rows[j] == after.rows[i];
                    if !list.has_id(id) {
                        assert(list.issued(earlier).contains(before.rows[j].id));
                    }
                },
            }
        }
    }
}

} // verus!
