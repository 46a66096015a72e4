use gossip_glomers::counter::GrowOnlyCounter;

#[test]
fn test_sum_of_new_is_zero() {
    let grow_only_counter = GrowOnlyCounter::new(5);
    assert_eq!(grow_only_counter.sum(), 0)
}

#[test]
fn test_sum_after_add() {
    let mut grow_only_counter = GrowOnlyCounter::new(5);
    grow_only_counter
        .add_to_count(0, 1)
        .expect("Index 0 exists");
    grow_only_counter
        .add_to_count(0, 2)
        .expect("Index 0 exists");
    assert_eq!(grow_only_counter.sum(), 3)
}

#[test]
fn test_compare_after_add() {
    let mut grow_only_counter = GrowOnlyCounter::new(5);
    grow_only_counter
        .add_to_count(0, 1)
        .expect("Index 0 exists");
    grow_only_counter
        .add_to_count(0, 2)
        .expect("Index 0 exists");
    assert_eq!(grow_only_counter.sum(), 3);

    let mut other_grow_only_counter = GrowOnlyCounter::new(5);
    other_grow_only_counter
        .add_to_count(1, 3)
        .expect("Index 1 exists");
    other_grow_only_counter
        .add_to_count(1, 4)
        .expect("Index 1 exists");
    assert_eq!(other_grow_only_counter.sum(), 7);

    grow_only_counter.update_counts(other_grow_only_counter.counts());
    assert_eq!(grow_only_counter.sum(), 10);
    assert_eq!(other_grow_only_counter.sum(), 7);

    grow_only_counter
        .add_to_count(0, 5)
        .expect("Index 0 exists");
    other_grow_only_counter
        .add_to_count(1, 6)
        .expect("Index 0 exists");
    assert_eq!(grow_only_counter.sum(), 15);
    assert_eq!(other_grow_only_counter.sum(), 13);
}

#[test]
fn add_to_missing_node_is_refused() {
    let mut counter = GrowOnlyCounter::new(2);
    assert_eq!(counter.add_to_count(2, 4), None);
    assert_eq!(counter.counts(), &vec![0, 0]);
}

#[test]
fn merge_takes_larger_count_of_each_node() {
    let mut a = GrowOnlyCounter::new(3);
    a.add_to_count(0, 5).unwrap();
    a.add_to_count(2, 1).unwrap();
    let mut b = GrowOnlyCounter::new(3);
    b.add_to_count(0, 2).unwrap();
    b.add_to_count(1, 7).unwrap();
    a.update_counts(b.counts());
    assert_eq!(a.counts(), &vec![5, 7, 1]);
    assert_eq!(a.sum(), 13);
}
