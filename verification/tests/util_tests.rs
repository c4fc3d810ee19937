use vsrg_renderer::{index_at_time, object_at_time, sort_by_start_time, HasStartTime, Time};

#[derive(Clone, Debug, PartialEq)]
struct Item {
    start: Time,
}

impl HasStartTime for Item {
    fn start_time_spec(&self) -> Time {
        self.start
    }

    fn start_time(&self) -> Time {
        self.start
    }
}

#[test]
fn test_index_at_time() {
    let list = vec![Item { start: 10 }, Item { start: 20 }, Item { start: 30 }];

    assert_eq!(index_at_time(&list, 5), None);
    assert_eq!(index_at_time(&list, 10), Some(0));
    assert_eq!(index_at_time(&list, 15), Some(0));
    assert_eq!(index_at_time(&list, 25), Some(1));
    assert_eq!(index_at_time(&list, 30), Some(2));
    assert_eq!(index_at_time(&list, 35), Some(2));
}

#[test]
fn test_object_at_time() {
    let list = vec![Item { start: 10 }, Item { start: 20 }, Item { start: 30 }];

    assert!(object_at_time(&list, 5).is_none());
    assert_eq!(object_at_time(&list, 10).unwrap().start, 10);
    assert_eq!(object_at_time(&list, 15).unwrap().start, 10);
    assert_eq!(object_at_time(&list, 25).unwrap().start, 20);
    assert_eq!(object_at_time(&list, 30).unwrap().start, 30);
    assert_eq!(object_at_time(&list, 35).unwrap().start, 30);
}

#[test]
fn sort_keeps_equal_start_times_in_order() {
    let mut items: Vec<(i64, u8)> = vec![(30, 0), (10, 1), (30, 2), (20, 3), (10, 4)];
    let mut keyed: Vec<Tagged> = items.drain(..).map(|(t, tag)| Tagged { start: t, tag }).collect();
    sort_by_start_time(&mut keyed);
    let order: Vec<(i64, u8)> = keyed.iter().map(|x| (x.start, x.tag)).collect();
    assert_eq!(order, vec![(10, 1), (10, 4), (20, 3), (30, 0), (30, 2)]);
}

struct Tagged {
    start: Time,
    tag: u8,
}

impl HasStartTime for Tagged {
    fn start_time_spec(&self) -> Time {
        self.start
    }

    fn start_time(&self) -> Time {
        self.start
    }
}

#[test]
fn index_at_time_on_empty_list_is_none() {
    let list: Vec<Item> = Vec::new();
    assert_eq!(index_at_time(&list, 0), None);
    assert!(object_at_time(&list, 0).is_none());
}

#[test]
fn index_at_time_picks_last_of_equal_start_times() {
    let list: Vec<i64> = vec![10, 20, 20, 20, 30];
    assert_eq!(index_at_time(&list, 20), Some(3));
    assert_eq!(index_at_time(&list, 29), Some(3));
    assert_eq!(index_at_time(&list, 19), Some(0));
    assert_eq!(index_at_time(&list, i64::MIN), None);
    assert_eq!(index_at_time(&list, i64::MAX), Some(4));
}

#[test]
fn index_at_time_never_moves_back_as_time_goes_on() {
    let list: Vec<i64> = vec![-5, 0, 0, 7, 12, 12, 40];
    let mut last: Option<usize> = None;
    for t in -10..50 {
        let now = index_at_time(&list, t);
        assert!(now >= last);
        last = now;
    }
}

#[test]
fn sort_orders_by_start_time() {
    let mut items: Vec<i64> = vec![5, -3, 9, 0, 0, 12, -3];
    sort_by_start_time(&mut items);
    assert_eq!(items, vec![-3, -3, 0, 0, 5, 9, 12]);
    let mut empty: Vec<i64> = Vec::new();
    sort_by_start_time(&mut empty);
    assert!(empty.is_empty());
}

#[test]
fn sorted_list_lookup_after_sort() {
    let mut list = vec![Item { start: 30 }, Item { start: 10 }, Item { start: 20 }];
    sort_by_start_time(&mut list);
    assert_eq!(object_at_time(&list, 25), Some(&Item { start: 20 }));
}

#[test]
fn sorting_a_sorted_list_changes_nothing() {
    let mut tagged = vec![
        Tagged { start: 1, tag: 0 },
        Tagged { start: 1, tag: 1 },
        Tagged { start: 4, tag: 2 },
        Tagged { start: 9, tag: 3 },
    ];
    sort_by_start_time(&mut tagged);
    let order: Vec<u8> = tagged.iter().map(|x| x.tag).collect();
    assert_eq!(order, vec![0, 1, 2, 3]);
}

#[test]
fn object_at_time_is_item_at_index_at_time_even_unsorted() {
    let list: Vec<i64> = vec![30, 5, 20, 1, 40, 12];
    for t in -5..50 {
        let by_index = index_at_time(&list, t).map(|i| &list[i]);
        let by_object = object_at_time(&list, t);
        assert_eq!(by_object.is_some(), by_index.is_some());
        if let (Some(a), Some(b)) = (by_object, by_index) {
            assert!(std::ptr::eq(a, b));
        }
    }
}
