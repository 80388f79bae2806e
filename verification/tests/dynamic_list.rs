use reactive_widgets::dynamic_list::{DynamicList, Entry};

fn ids(list: &DynamicList) -> Vec<usize> {
    list.entries().iter().map(|entry| entry.id).collect()
}

fn values(list: &DynamicList) -> Vec<usize> {
    list.entries().iter().map(|entry| entry.value).collect()
}

#[test]
fn new_list_counts_ids_from_zero_and_values_from_one() {
    let list = DynamicList::new(5);
    assert_eq!(list.len(), 5);
    assert_eq!(list.next_id(), 5);
    assert_eq!(ids(&list), vec![0, 1, 2, 3, 4]);
    assert_eq!(values(&list), vec![1, 2, 3, 4, 5]);
    assert_eq!(list.entries()[3], Entry { id: 3, value: 4 });
}

#[test]
fn empty_list_has_no_rows_and_starts_at_id_zero() {
    let mut list = DynamicList::new(0);
    assert_eq!(list.len(), 0);
    assert_eq!(list.next_id(), 0);
    assert!(list.entries().is_empty());
    assert_eq!(list.value_of(0), None);
    assert_eq!(list.add(), 0);
    assert_eq!(list.entries(), vec![Entry { id: 0, value: 1 }]);
}

#[test]
fn add_then_remove_then_increment() {
    let mut list = DynamicList::new(5);
    assert_eq!(ids(&list), vec![0, 1, 2, 3, 4]);
    assert_eq!(values(&list), vec![1, 2, 3, 4, 5]);

    let id = list.add();
    assert_eq!(id, 5);
    assert_eq!(list.len(), 6);
    assert_eq!(list.value_of(5), Some(6));

    list.remove(2);
    assert_eq!(list.len(), 5);
    assert_eq!(ids(&list), vec![0, 1, 3, 4, 5]);

    list.increment(5);
    assert_eq!(list.value_of(5), Some(7));
    assert_eq!(values(&list), vec![1, 2, 4, 5, 7]);
}

#[test]
fn added_row_goes_last_with_value_one_more_than_its_id() {
    let mut list = DynamicList::new(2);
    let id = list.add();
    assert_eq!(id, 2);
    assert_eq!(list.next_id(), 3);
    assert_eq!(list.entries().last(), Some(&Entry { id: 2, value: 3 }));
}

#[test]
fn ids_are_never_handed_out_twice() {
    let mut list = DynamicList::new(3);
    let mut seen: Vec<usize> = ids(&list);
    let steps: [(u8, usize); 12] = [
        (0, 0),
        (2, 1),
        (0, 0),
        (2, 3),
        (2, 4),
        (1, 0),
        (0, 0),
        (2, 0),
        (2, 2),
        (2, 5),
        (0, 0),
        (0, 0),
    ];
    for (kind, id) in steps {
        match kind {
            0 => {
                let given = list.add();
                assert!(!seen.contains(&given), "id {given} was handed out before");
                seen.push(given);
            }
            1 => list.increment(id),
            _ => list.remove(id),
        }
        let mut now = ids(&list);
        let rows = now.len();
        now.sort();
        now.dedup();
        assert_eq!(now.len(), rows);
    }
    assert_eq!(seen, vec![0, 1, 2, 3, 4, 5, 6, 7]);
    assert_eq!(ids(&list), vec![6, 7]);
}

#[test]
fn removed_id_is_not_reused_by_a_later_add() {
    let mut list = DynamicList::new(3);
    list.remove(2);
    assert_eq!(ids(&list), vec![0, 1]);
    let id = list.add();
    assert_eq!(id, 3);
    assert_ne!(id, 2);
    assert_eq!(ids(&list), vec![0, 1, 3]);
    assert_eq!(list.value_of(2), None);
}

#[test]
fn removing_the_last_added_row_does_not_free_its_id() {
    let mut list = DynamicList::new(0);
    let first = list.add();
    list.remove(first);
    let second = list.add();
    assert_eq!(first, 0);
    assert_eq!(second, 1);
    assert_eq!(list.entries(), vec![Entry { id: 1, value: 2 }]);
}

#[test]
fn removing_an_unknown_id_changes_nothing() {
    let mut list = DynamicList::new(4);
    list.increment(1);
    let before = list.entries();
    let next = list.next_id();
    list.remove(17);
    assert_eq!(list.entries(), before);
    assert_eq!(list.next_id(), next);
}

#[test]
fn removing_twice_is_removing_once() {
    let mut once = DynamicList::new(4);
    once.remove(1);
    let mut twice = DynamicList::new(4);
    twice.remove(1);
    twice.remove(1);
    assert_eq!(twice.entries(), once.entries());
    assert_eq!(twice.next_id(), once.next_id());
    assert_eq!(ids(&twice), vec![0, 2, 3]);
}

#[test]
fn remove_keeps_the_other_rows_in_order_with_their_values() {
    let mut list = DynamicList::new(5);
    list.increment(0);
    list.increment(4);
    list.increment(4);
    list.remove(0);
    list.remove(3);
    assert_eq!(
        list.entries(),
        vec![
            Entry { id: 1, value: 2 },
            Entry { id: 2, value: 3 },
            Entry { id: 4, value: 7 },
        ]
    );
}

#[test]
fn increment_goes_by_id_not_by_position() {
    let mut list = DynamicList::new(4);
    list.remove(0);
    list.remove(1);
    // The row known by 3 now stands at position 1.
    list.increment(3);
    assert_eq!(
        list.entries(),
        vec![Entry { id: 2, value: 3 }, Entry { id: 3, value: 5 }]
    );
    list.increment(1);
    assert_eq!(
        list.entries(),
        vec![Entry { id: 2, value: 3 }, Entry { id: 3, value: 5 }]
    );
}

#[test]
fn increment_of_an_unknown_id_changes_nothing() {
    let mut list = DynamicList::new(3);
    let before = list.entries();
    list.increment(3);
    list.increment(usize::MAX);
    assert_eq!(list.entries(), before);
    assert_eq!(list.next_id(), 3);
}

#[test]
fn value_of_reads_the_row_known_by_the_id() {
    let mut list = DynamicList::new(3);
    assert_eq!(list.value_of(0), Some(1));
    assert_eq!(list.value_of(2), Some(3));
    assert_eq!(list.value_of(3), None);
    list.remove(0);
    assert_eq!(list.value_of(0), None);
    assert_eq!(list.value_of(2), Some(3));
}
