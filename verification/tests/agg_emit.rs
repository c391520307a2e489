use order_dashboard::agg_book::{emit_side, emitted_book_side, merge_book_side, EMIT_CONTRIBUTIONS, EMIT_LEVELS};

#[test]
fn emitted_updates_are_capped() {
    let mut keys: Vec<i64> = (0..25).collect();
    for _ in 0..9 {
        keys.push(24);
    }
    let bids = emitted_book_side(&keys, 200, true);
    assert_eq!(bids.len(), EMIT_LEVELS);
    assert_eq!(bids[0].0, 24);
    assert_eq!(bids[0].1, vec![24, 25, 26, 27, 28, 29, 30, 31]);
    assert_eq!(bids[0].1.len(), EMIT_CONTRIBUTIONS);
    assert_eq!(bids[19].0, 5);
    for w in bids.windows(2) {
        assert!(w[0].0 > w[1].0);
    }
    let asks = emitted_book_side(&keys, 200, false);
    assert_eq!(asks.len(), 20);
    assert_eq!(asks[0], (0, vec![0]));
    assert_eq!(asks[19].0, 19);
    for w in asks.windows(2) {
        assert!(w[0].0 < w[1].0);
    }
}

#[test]
fn short_books_are_emitted_whole() {
    let keys = vec![3, 1, 3, 2];
    let merged = merge_book_side(&keys, 10, false);
    assert_eq!(emit_side(&merged), merged);
    assert_eq!(emitted_book_side(&keys, 2, true), vec![(3, vec![0, 2]), (2, vec![3])]);
}
