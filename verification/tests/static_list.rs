use reactive_widgets::static_list::StaticList;

#[test]
fn static_list_has_as_many_rows_as_asked_for() {
    for length in [0usize, 1, 2, 5, 64] {
        let list = StaticList::new(length);
        assert_eq!(list.len(), length);
        assert_eq!(list.values().len(), length);
    }
}

#[test]
fn static_list_rows_start_at_their_position_counted_from_one() {
    let list = StaticList::new(5);
    assert_eq!(list.values(), vec![1, 2, 3, 4, 5]);
    assert_eq!(list.value(0), 1);
    assert_eq!(list.value(4), 5);
}

#[test]
fn empty_static_list_has_no_rows() {
    let list = StaticList::new(0);
    assert_eq!(list.len(), 0);
    assert!(list.values().is_empty());
}

#[test]
fn click_on_one_row_leaves_the_others() {
    let mut list = StaticList::new(5);
    list.increment(2);
    assert_eq!(list.values(), vec![1, 2, 4, 4, 5]);
    list.increment(2);
    list.increment(0);
    assert_eq!(list.values(), vec![2, 2, 5, 4, 5]);
    assert_eq!(list.len(), 5);
}

#[test]
fn each_row_counts_its_own_clicks() {
    let mut list = StaticList::new(4);
    let clicks = [3usize, 0, 3, 1, 3, 0];
    for index in clicks {
        list.increment(index);
    }
    for index in 0..4 {
        let times = clicks.iter().filter(|click| **click == index).count();
        assert_eq!(list.value(index), index + 1 + times);
    }
    assert_eq!(list.values(), vec![3, 3, 3, 7]);
}
