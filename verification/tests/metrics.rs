use scalper::market::{CvdSnapshot, TradeEvent};
use scalper::metrics::{prune_snapshots, prune_trades};
use std::collections::VecDeque;

fn trade_at(ms: u64) -> TradeEvent {
    TradeEvent { timestamp_ms: ms, price: 1, qty: 1 }
}

#[test]
fn trades_older_than_the_limit_are_dropped() {
    let mut es: VecDeque<TradeEvent> = [0, 99_000, 100_000, 350_000].iter().map(|t| trade_at(*t)).collect();
    prune_trades(&mut es, 400_000, 300);
    // ages 400 s and 301 s go; 300 s (whole seconds) stays
    let kept: Vec<u64> = es.iter().map(|e| e.timestamp_ms).collect();
    assert_eq!(kept, vec![100_000, 350_000]);
}

#[test]
fn snapshots_older_than_the_limit_are_dropped() {
    let mut hs: VecDeque<CvdSnapshot> =
        [0, 9_000, 10_500].iter().map(|t| CvdSnapshot { timestamp_ms: *t, cvd: 0 }).collect();
    prune_snapshots(&mut hs, 20_000, 10);
    // ages 20 s and 11 s go; 9.5 s stays
    let kept: Vec<u64> = hs.iter().map(|h| h.timestamp_ms).collect();
    assert_eq!(kept, vec![10_500]);
}
