use order_dashboard::book::LocalBook;

#[test]
fn new_book_is_empty() {
    let b: LocalBook<(f64, f64)> = LocalBook::new("BTC-PERPETUAL");
    assert!(b.is_empty());
    assert_eq!(b.top_bid(), None);
    assert_eq!(b.top_ask(), None);
    let s = b.to_snapshot(10);
    assert_eq!(s.instrument_name, "BTC-PERPETUAL");
    assert!(s.bids.is_empty() && s.asks.is_empty());
    assert_eq!(s.timestamp, 0);
}

#[test]
fn snapshot_replaces_the_book() {
    let mut b: LocalBook<(f64, f64)> = LocalBook::new("X");
    b.apply_snapshot(
        &[(100, Some((1.00, 2.0))), (101, Some((1.01, 1.0))), (99, None)],
        &[(105, Some((1.05, 3.0))), (104, Some((1.04, 0.5)))],
        7,
    );
    assert_eq!(b.top_bid(), Some((1.01, 1.0)));
    assert_eq!(b.top_ask(), Some((1.04, 0.5)));
    assert!(!b.is_empty());
    b.apply_snapshot(&[(50, Some((0.5, 1.0)))], &[], 8);
    assert_eq!(b.top_bid(), Some((0.5, 1.0)));
    assert_eq!(b.top_ask(), None);
    assert_eq!(b.to_snapshot(5).timestamp, 8);
    b.apply_snapshot(&[], &[], 9);
    assert!(b.is_empty());
}

#[test]
fn later_level_at_same_key_wins() {
    let mut b: LocalBook<u32> = LocalBook::new("X");
    b.apply_snapshot(&[(10, Some(1)), (10, Some(2))], &[], 1);
    assert_eq!(b.top_bid(), Some(2));
}

#[test]
fn delta_writes_and_removes() {
    let mut b: LocalBook<u32> = LocalBook::new("X");
    b.apply_snapshot(&[(10, Some(1)), (20, Some(2))], &[(30, Some(3)), (40, Some(4))], 1);
    b.apply_delta(&[(20, None), (15, Some(5))], &[(30, None), (35, Some(6))], 2);
    assert_eq!(b.top_bid(), Some(5));
    assert_eq!(b.top_ask(), Some(6));
    b.apply_delta(&[(99, None)], &[], 3);
    assert_eq!(b.top_bid(), Some(5));
    let s = b.to_snapshot(10);
    assert_eq!(s.bids, vec![5, 1]);
    assert_eq!(s.asks, vec![6, 4]);
    assert_eq!(s.timestamp, 3);
}

#[test]
fn snapshot_sides_are_best_first_and_cut_at_depth() {
    let mut b: LocalBook<i64> = LocalBook::new("ETH-USD");
    b.apply_snapshot(
        &[(1, Some(1)), (3, Some(3)), (2, Some(2))],
        &[(5, Some(5)), (4, Some(4)), (6, Some(6))],
        42,
    );
    let s = b.to_snapshot(2);
    assert_eq!(s.bids, vec![3, 2]);
    assert_eq!(s.asks, vec![4, 5]);
    assert_eq!(s.instrument_name, "ETH-USD");
    assert_eq!(b.to_snapshot(0).bids.len(), 0);
    assert_eq!(b.to_snapshot(10).asks, vec![4, 5, 6]);
}

#[test]
fn negative_keys_order_correctly() {
    let mut b: LocalBook<i64> = LocalBook::new("X");
    b.apply_snapshot(&[(-5, Some(-5)), (-1, Some(-1))], &[(-3, Some(-3)), (2, Some(2))], 0);
    assert_eq!(b.top_bid(), Some(-1));
    assert_eq!(b.top_ask(), Some(-3));
}

#[test]
fn delta_last_occurrence_decides_each_key() {
    let mut b: LocalBook<i32> = LocalBook::new("X");
    b.apply_snapshot(&[(10, Some(1)), (20, Some(2)), (30, Some(3))], &[], 1);
    // Key 10: written, then emptied; key 20: emptied, then written; key 40: written twice.
    b.apply_delta(&[(10, Some(7)), (20, None), (40, Some(8)), (10, None), (20, Some(9)), (40, Some(4))], &[], 5);
    let s = b.to_snapshot(10);
    assert_eq!(s.bids, vec![4, 3, 9]);
    assert_eq!(s.timestamp, 5);
    assert_eq!(s.instrument_name, "X");
}

#[test]
fn delta_last_update_at_a_key_decides() {
    let mut b: LocalBook<u32> = LocalBook::new("X");
    b.apply_snapshot(&[(10, Some(1)), (20, Some(2))], &[(30, Some(3))], 1);
    b.apply_delta(&[(20, None), (20, Some(5)), (15, Some(9)), (15, None)], &[], 2);
    assert_eq!(b.top_bid(), Some(5));
    b.apply_delta(&[(20, Some(6)), (20, None)], &[], 3);
    assert_eq!(b.top_bid(), Some(1));
    assert_eq!(b.top_ask(), Some(3));
    assert_eq!(b.to_snapshot(5).timestamp, 3);
}
