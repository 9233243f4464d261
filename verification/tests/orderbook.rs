use scalper::fixed::SCALE;
use scalper::orderbook::{DepthSnapshot, DepthUpdate, LocalOrderBook, PriceLevel};

fn level(p: &str, q: &str) -> PriceLevel {
    PriceLevel { price: Some(p.to_string()), qty: Some(q.to_string()) }
}

fn snapshot(id: Option<u64>, bids: Vec<PriceLevel>, asks: Vec<PriceLevel>) -> DepthSnapshot {
    DepthSnapshot { last_update_id: id, bids: Some(bids), asks: Some(asks) }
}

fn update(id: u64, bids: Vec<PriceLevel>, asks: Vec<PriceLevel>) -> DepthUpdate {
    DepthUpdate { final_update_id: Some(id), bids: Some(bids), asks: Some(asks) }
}

fn sample_snapshot(id: u64) -> DepthSnapshot {
    snapshot(
        Some(id),
        vec![level("100.00", "1"), level("99.99", "2"), level("99.98", "3")],
        vec![level("100.01", "1"), level("100.02", "4"), level("100.03", "8")],
    )
}

#[test]
fn empty_book_has_balanced_ratio() {
    let book = LocalOrderBook::new();
    assert_eq!(book.calculate_imbalance(5), (0, 0, SCALE));
}

#[test]
fn imbalance_uses_best_levels() {
    let mut book = LocalOrderBook::new();
    book.init_from_snapshot(&sample_snapshot(5));
    // best two bids: 100.00 (1) and 99.99 (2); best two asks: 100.01 (1) and 100.02 (4)
    assert_eq!(book.calculate_imbalance(2), (3 * SCALE, 5 * SCALE, 60_000_000));
    assert_eq!(book.calculate_imbalance(1), (SCALE, SCALE, SCALE));
    assert_eq!(book.calculate_imbalance(10), (6 * SCALE, 13 * SCALE, 46_153_846));
    assert_eq!(book.calculate_imbalance(0), (0, 0, SCALE));
}

#[test]
fn updates_before_snapshot_are_replayed() {
    let mut book = LocalOrderBook::new();
    book.apply_depth_update(update(10, vec![level("100.00", "5")], vec![]));
    assert_eq!(book.calculate_imbalance(1), (0, 0, SCALE));
    book.init_from_snapshot(&sample_snapshot(5));
    assert_eq!(book.calculate_imbalance(1), (5 * SCALE, SCALE, 5 * SCALE));
}

#[test]
fn buffered_updates_older_than_snapshot_are_dropped() {
    let mut book = LocalOrderBook::new();
    book.apply_depth_update(update(4, vec![level("100.00", "5")], vec![]));
    book.init_from_snapshot(&sample_snapshot(5));
    assert_eq!(book.calculate_imbalance(1), (SCALE, SCALE, SCALE));
}

#[test]
fn stale_update_is_dropped() {
    let mut book = LocalOrderBook::new();
    book.init_from_snapshot(&sample_snapshot(5));
    book.apply_depth_update(update(9, vec![level("100.00", "7")], vec![]));
    book.apply_depth_update(update(9, vec![level("100.00", "8")], vec![]));
    book.apply_depth_update(update(3, vec![level("100.00", "9")], vec![]));
    assert_eq!(book.calculate_imbalance(1).0, 7 * SCALE);
}

#[test]
fn zero_quantity_removes_level() {
    let mut book = LocalOrderBook::new();
    book.init_from_snapshot(&sample_snapshot(5));
    book.apply_depth_update(update(6, vec![level("100.00", "0.00000000")], vec![level("100.01", "0")]));
    // best bid is now 99.99 (2), best ask 100.02 (4)
    assert_eq!(book.calculate_imbalance(1), (2 * SCALE, 4 * SCALE, 50_000_000));
}

#[test]
fn unreadable_quantity_removes_level() {
    let mut book = LocalOrderBook::new();
    book.init_from_snapshot(&sample_snapshot(5));
    book.apply_depth_update(update(6, vec![level("100.00", "abc")], vec![]));
    assert_eq!(book.calculate_imbalance(1).0, 2 * SCALE);
}

#[test]
fn update_adds_new_level() {
    let mut book = LocalOrderBook::new();
    book.init_from_snapshot(&sample_snapshot(5));
    book.apply_depth_update(update(6, vec![level("100.005", "0.5")], vec![]));
    // 100.005 rounds to 100.01 in cents, above the old best bid
    assert_eq!(book.calculate_imbalance(1).0, 50_000_000);
}

#[test]
fn snapshot_skips_non_positive_levels() {
    let mut book = LocalOrderBook::new();
    book.init_from_snapshot(&snapshot(
        Some(1),
        vec![level("100.00", "0"), level("-1", "5"), level("99.00", "2"), level("x", "1")],
        vec![PriceLevel { price: Some("101".to_string()), qty: None }, level("102", "3")],
    ));
    assert_eq!(book.calculate_imbalance(5), (2 * SCALE, 3 * SCALE, 66_666_666));
}

#[test]
fn snapshot_replaces_previous_levels() {
    let mut book = LocalOrderBook::new();
    book.init_from_snapshot(&sample_snapshot(5));
    book.init_from_snapshot(&snapshot(Some(20), vec![level("50", "1")], vec![]));
    assert_eq!(book.calculate_imbalance(10), (SCALE, 0, SCALE));
}

#[test]
fn snapshot_without_id_changes_nothing() {
    let mut book = LocalOrderBook::new();
    book.init_from_snapshot(&snapshot(None, vec![level("50", "1")], vec![]));
    assert_eq!(book.calculate_imbalance(10), (0, 0, SCALE));
    // still waiting for a snapshot: the update is buffered, not applied
    book.apply_depth_update(update(1, vec![level("50", "1")], vec![]));
    assert_eq!(book.calculate_imbalance(10), (0, 0, SCALE));
}

#[test]
fn update_without_id_is_ignored() {
    let mut book = LocalOrderBook::new();
    book.init_from_snapshot(&sample_snapshot(5));
    book.apply_depth_update(DepthUpdate { final_update_id: None, bids: Some(vec![level("100.00", "9")]), asks: None });
    assert_eq!(book.calculate_imbalance(1).0, SCALE);
}

#[test]
fn same_update_twice_is_applied_once() {
    let mut book = LocalOrderBook::new();
    book.init_from_snapshot(&sample_snapshot(5));
    let u = || update(6, vec![level("100.00", "0"), level("99.97", "2")], vec![level("100.01", "3")]);
    book.apply_depth_update(u());
    let once = book.calculate_imbalance(3);
    assert_eq!(once, (7 * SCALE, 15 * SCALE, 46_666_666));
    book.apply_depth_update(u());
    assert_eq!(book.calculate_imbalance(3), once);
}

#[test]
fn volumes_grow_with_the_level_count() {
    let mut book = LocalOrderBook::new();
    book.init_from_snapshot(&sample_snapshot(5));
    let mut last = (0, 0);
    for n in 0..5 {
        let (b, a, _) = book.calculate_imbalance(n);
        assert!(b >= last.0 && a >= last.1);
        last = (b, a);
    }
    assert_eq!(last, (6 * SCALE, 13 * SCALE));
}

#[test]
fn exponent_prices_are_keyed_in_cents() {
    let mut book = LocalOrderBook::new();
    book.init_from_snapshot(&snapshot(Some(1), vec![level("1e2", "2")], vec![level("1.0001E2", "1")]));
    assert_eq!(book.calculate_imbalance(1), (2 * SCALE, SCALE, 2 * SCALE));
    book.apply_depth_update(update(2, vec![level("100.00", "0")], vec![]));
    assert_eq!(book.calculate_imbalance(1).0, 0);
}
