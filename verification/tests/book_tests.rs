use quant_platform::book::{is_positive, is_zero, BookSide, BookUpdate, OrderBook, PUBLISHED_DEPTH, SNAPSHOT_DEPTH};

fn q(x: f64) -> u64 {
    x.to_bits()
}

fn level(p: f64, s: f64) -> (u64, u64) {
    (q(p), q(s))
}

#[test]
fn positivity_follows_the_numbers() {
    assert!(is_positive(q(0.5)));
    assert!(is_positive(q(100000.0)));
    assert!(is_positive(q(f64::INFINITY)));
    assert!(!is_positive(q(0.0)));
    assert!(!is_positive(q(-0.0)));
    assert!(!is_positive(q(-2.0)));
    assert!(!is_positive(q(f64::NAN)));
    assert!(is_zero(q(0.0)));
    assert!(is_zero(q(-0.0)));
    assert!(!is_zero(q(1e-300)));
}

#[test]
fn bit_order_is_price_order() {
    assert!(q(99.5) < q(100.0));
    assert!(q(100.0) < q(100.01));
}

#[test]
fn snapshot_keeps_positive_levels_sorted() {
    let mut book = OrderBook::new();
    let bids = vec![level(100.0, 1.0), level(99.5, 2.0), level(0.0, 1.0), level(101.0, 0.0), level(99.0, 3.0)];
    let asks = vec![level(101.5, 1.5), level(101.0, 0.5), level(-1.0, 2.0)];
    book.apply_snapshot(&bids, &asks);
    assert_eq!(book.top_bids(PUBLISHED_DEPTH), vec![level(100.0, 1.0), level(99.5, 2.0), level(99.0, 3.0)]);
    assert_eq!(book.top_asks(PUBLISHED_DEPTH), vec![level(101.0, 0.5), level(101.5, 1.5)]);
}

#[test]
fn snapshot_reads_only_its_first_entries() {
    let mut book = OrderBook::new();
    let bids: Vec<(u64, u64)> = (1..=100).map(|i| level(i as f64, 1.0)).collect();
    book.apply_snapshot(&bids, &[]);
    let all = book.top_bids(1000);
    assert_eq!(all.len(), SNAPSHOT_DEPTH);
    assert_eq!(all[0], level(80.0, 1.0));
    assert_eq!(all[SNAPSHOT_DEPTH - 1], level(1.0, 1.0));
}

#[test]
fn snapshot_replaces_previous_book() {
    let mut book = OrderBook::new();
    book.apply_snapshot(&[level(10.0, 1.0)], &[level(11.0, 1.0)]);
    book.apply_snapshot(&[level(20.0, 2.0)], &[]);
    assert_eq!(book.top_bids(5), vec![level(20.0, 2.0)]);
    assert!(book.top_asks(5).is_empty());
}

#[test]
fn snapshot_later_duplicate_wins() {
    let mut book = OrderBook::new();
    book.apply_snapshot(&[level(10.0, 1.0), level(10.0, 4.0)], &[]);
    assert_eq!(book.top_bids(5), vec![level(10.0, 4.0)]);
}

#[test]
fn change_sets_and_removes_levels() {
    let mut book = OrderBook::new();
    book.apply_change(BookSide::Buy, q(100.0), q(1.0));
    book.apply_change(BookSide::Sell, q(101.0), q(2.0));
    book.apply_change(BookSide::Buy, q(100.5), q(3.0));
    assert_eq!(book.top_bids(5), vec![level(100.5, 3.0), level(100.0, 1.0)]);
    assert_eq!(book.top_asks(5), vec![level(101.0, 2.0)]);
    book.apply_change(BookSide::Buy, q(100.5), q(0.0));
    assert_eq!(book.top_bids(5), vec![level(100.0, 1.0)]);
    book.apply_change(BookSide::Sell, q(101.0), q(-0.0));
    assert!(book.top_asks(5).is_empty());
}

#[test]
fn change_with_bad_price_or_side_is_ignored() {
    let mut book = OrderBook::new();
    book.apply_change(BookSide::Buy, q(100.0), q(1.0));
    book.apply_change(BookSide::Buy, q(0.0), q(1.0));
    book.apply_change(BookSide::Buy, q(-5.0), q(1.0));
    book.apply_change(BookSide::Other, q(99.0), q(1.0));
    book.apply_change(BookSide::Sell, q(f64::NAN), q(1.0));
    assert_eq!(book.top_bids(5), vec![level(100.0, 1.0)]);
    assert!(book.top_asks(5).is_empty());
}

#[test]
fn cancel_restores_book() {
    let mut book = OrderBook::new();
    book.apply_snapshot(&[level(100.0, 1.0), level(99.0, 2.0)], &[level(101.0, 1.0)]);
    let before_bids = book.top_bids(10);
    book.apply_change(BookSide::Buy, q(99.5), q(7.0));
    book.apply_change(BookSide::Buy, q(99.5), q(0.0));
    assert_eq!(book.top_bids(10), before_bids);
}

#[test]
fn last_change_at_a_price_wins() {
    let mut book = OrderBook::new();
    book.apply_change(BookSide::Sell, q(101.0), q(1.0));
    book.apply_change(BookSide::Sell, q(101.0), q(5.0));
    assert_eq!(book.top_asks(10), vec![level(101.0, 5.0)]);
}

#[test]
fn top_levels_are_bounded_by_depth() {
    let mut book = OrderBook::new();
    for i in 1..=30 {
        book.apply_change(BookSide::Buy, q(i as f64), q(1.0));
        book.apply_change(BookSide::Sell, q(100.0 + i as f64), q(1.0));
    }
    let bids = book.top_bids(PUBLISHED_DEPTH);
    let asks = book.top_asks(PUBLISHED_DEPTH);
    assert_eq!(bids.len(), 20);
    assert_eq!(asks.len(), 20);
    assert_eq!(bids[0], level(30.0, 1.0));
    assert_eq!(bids[19], level(11.0, 1.0));
    assert_eq!(asks[0], level(101.0, 1.0));
    assert_eq!(asks[19], level(120.0, 1.0));
    assert!(book.top_bids(0).is_empty());
}

#[test]
fn changes_at_different_prices_commute() {
    let mut first = OrderBook::new();
    first.apply_change(BookSide::Buy, q(100.0), q(1.0));
    first.apply_change(BookSide::Buy, q(99.0), q(2.0));
    let mut second = OrderBook::new();
    second.apply_change(BookSide::Buy, q(99.0), q(2.0));
    second.apply_change(BookSide::Buy, q(100.0), q(1.0));
    assert_eq!(first.top_bids(10), second.top_bids(10));
}

#[test]
fn update_message_changes_apply_in_order() {
    let mut book = OrderBook::new();
    book.apply_snapshot(&[level(100.0, 1.0), level(99.0, 2.0)], &[level(101.0, 1.0)]);
    book.apply_changes(&[
        (BookSide::Buy, q(99.0), q(0.0)),
        (BookSide::Buy, q(100.5), q(3.0)),
        (BookSide::Sell, q(101.0), q(4.0)),
        (BookSide::Other, q(50.0), q(1.0)),
        (BookSide::Sell, q(-1.0), q(1.0)),
        (BookSide::Buy, q(100.5), q(5.0)),
    ]);
    assert_eq!(book.top_bids(PUBLISHED_DEPTH), vec![level(100.5, 5.0), level(100.0, 1.0)]);
    assert_eq!(book.top_asks(PUBLISHED_DEPTH), vec![level(101.0, 4.0)]);
    book.apply_changes(&[]);
    assert_eq!(book.top_asks(PUBLISHED_DEPTH), vec![level(101.0, 4.0)]);
}

#[test]
fn feed_stream_keeps_snapshot_sizes_positive() {
    let mut book = OrderBook::new();
    book.apply_snapshot(&[level(10.0, 1.0), level(9.0, -1.0)], &[level(11.0, 2.0)]);
    book.apply_changes(&[(BookSide::Buy, q(8.0), q(-3.0))]);
    for (price, size) in book.top_bids(PUBLISHED_DEPTH) {
        assert!(f64::from_bits(price) > 0.0);
        assert!(f64::from_bits(size) != 0.0);
        if f64::from_bits(size) <= 0.0 {
            assert_eq!(price, q(8.0));
        }
    }
    assert_eq!(book.top_bids(PUBLISHED_DEPTH), vec![level(10.0, 1.0), level(8.0, -3.0)]);
}

#[test]
fn replay_builds_the_book_of_a_stream() {
    let updates = vec![
        BookUpdate::Snapshot(vec![level(100.0, 1.0), level(99.0, 2.0)], vec![level(101.0, 1.0)]),
        BookUpdate::Update(vec![
            (BookSide::Buy, q(100.0), q(0.0)),
            (BookSide::Sell, q(102.0), q(4.0)),
            (BookSide::Other, q(98.0), q(1.0)),
        ]),
        BookUpdate::Update(vec![(BookSide::Buy, q(99.5), q(3.0))]),
    ];
    let book = OrderBook::replay(&updates);
    assert_eq!(book.top_bids(PUBLISHED_DEPTH), vec![level(99.5, 3.0), level(99.0, 2.0)]);
    assert_eq!(book.top_asks(PUBLISHED_DEPTH), vec![level(101.0, 1.0), level(102.0, 4.0)]);

    let mut stepped = OrderBook::new();
    for u in &updates {
        stepped.apply_message(u);
    }
    assert_eq!(stepped.top_bids(PUBLISHED_DEPTH), book.top_bids(PUBLISHED_DEPTH));
    assert_eq!(stepped.top_asks(PUBLISHED_DEPTH), book.top_asks(PUBLISHED_DEPTH));
}
