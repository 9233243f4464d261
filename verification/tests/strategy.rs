use scalper::fixed::SCALE;
use scalper::logger::TradeRecord;
use scalper::market::{
    AggTradeData, BookTickerData, ExitReason, MarkPriceData, MarketTick, MarketType, Side, SystemStatus,
};
use scalper::orderbook::{DepthSnapshot, PriceLevel};
use scalper::strategy::{EngineConfig, EngineSettings, StrategyEngine};

fn no_settings() -> EngineSettings {
    EngineSettings {
        market_type: None,
        leverage: None,
        trade_size_usdt: None,
        symbol: None,
        vol_spike_ratio: None,
        max_spread_pct: None,
        stop_loss_pct: None,
        take_profit_pct: None,
        cooldown_seconds: None,
    }
}

fn trade(price: &str, qty: &str, buyer_maker: bool) -> MarketTick {
    MarketTick::AggTrade(AggTradeData {
        price: Some(price.to_string()),
        qty: Some(qty.to_string()),
        is_buyer_maker: Some(buyer_maker),
    })
}

fn ticker(bid: &str, ask: &str) -> MarketTick {
    MarketTick::BookTicker(BookTickerData { bid: Some(bid.to_string()), ask: Some(ask.to_string()) })
}

fn level(p: &str, q: &str) -> PriceLevel {
    PriceLevel { price: Some(p.to_string()), qty: Some(q.to_string()) }
}

/// A book of `bid` BTC at 100.00 against `ask` BTC at 100.01.
fn depth(id: u64, bid: &str, ask: &str) -> MarketTick {
    MarketTick::Depth(DepthSnapshot {
        last_update_id: Some(id),
        bids: Some(vec![level("100.00", bid)]),
        asks: Some(vec![level("100.01", ask)]),
    })
}

/// Bids three times the asks, then a rising CVD: a long at 101 at t = 6 s.
fn engine_with_long_entry(settings: EngineSettings) -> StrategyEngine {
    let mut engine = StrategyEngine::new(settings);
    assert!(engine.process_tick(ticker("100.00", "100.01"), 0).is_none());
    assert!(engine.process_tick(depth(1, "3", "1"), 500).is_none());
    assert_eq!(engine.state().obi, 3 * SCALE);
    // the first trade gives no slope yet
    assert!(engine.process_tick(trade("100", "1", false), 1_000).is_none());
    assert!(engine.state().position.is_none());
    assert!(engine.process_tick(trade("101", "2", false), 6_000).is_none());
    engine
}

#[test]
fn default_configuration() {
    let c = EngineConfig::from_settings(no_settings());
    assert_eq!(c.market_type, MarketType::Futures);
    assert_eq!(c.fee_rate, 50_000);
    assert_eq!(c.leverage, 5 * SCALE);
    assert_eq!(c.trade_size_usdt, 10 * SCALE);
    assert_eq!(c.symbol, "BTCUSDT");
    assert_eq!(c.vol_spike_ratio, 3 * SCALE);
    assert_eq!(c.max_spread_pct, 2_000_000);
    assert_eq!(c.stop_loss_pct, 7_000_000);
    assert_eq!(c.take_profit_pct, 15_000_000);
    assert_eq!(c.cooldown_seconds, 5);
}

#[test]
fn configuration_from_settings() {
    let mut s = no_settings();
    s.market_type = Some("Spot".to_string());
    s.leverage = Some("10".to_string());
    s.trade_size_usdt = Some("not a number".to_string());
    s.symbol = Some("ETHUSDT".to_string());
    s.cooldown_seconds = Some("12".to_string());
    s.max_spread_pct = Some("5e-2".to_string());
    s.take_profit_pct = Some("1e-5000".to_string());
    s.vol_spike_ratio = Some("100000000000".to_string());
    s.stop_loss_pct = Some("0.1".to_string());
    let c = EngineConfig::from_settings(s);
    assert_eq!(c.market_type, MarketType::Spot);
    assert_eq!(c.fee_rate, 100_000);
    assert_eq!(c.leverage, 10 * SCALE);
    assert_eq!(c.trade_size_usdt, 10 * SCALE);
    assert_eq!(c.symbol, "ETHUSDT");
    assert_eq!(c.cooldown_seconds, 12);
    assert_eq!(c.stop_loss_pct, 10_000_000);
    assert_eq!(c.max_spread_pct, 5_000_000);
    assert_eq!(c.take_profit_pct, 0);
    assert_eq!(c.vol_spike_ratio, 100_000_000_000 * SCALE);
}

#[test]
fn market_type_ignores_case() {
    let mut s = no_settings();
    s.market_type = Some("FUTURE".to_string());
    assert_eq!(EngineConfig::from_settings(s).market_type, MarketType::Futures);
    let mut s = no_settings();
    s.market_type = Some("perpetual".to_string());
    assert_eq!(EngineConfig::from_settings(s).market_type, MarketType::Spot);
}

#[test]
fn new_engine_waits() {
    let engine = StrategyEngine::new(no_settings());
    let st = engine.state();
    assert_eq!(st.system_status, SystemStatus::Waiting);
    assert_eq!(st.market_type, MarketType::Futures);
    assert_eq!(st.fee_rate_pct, 5_000_000);
    assert_eq!(st.btc_price, 0);
    assert!(st.position.is_none());
    assert!(st.closed_trades.is_empty());
}

#[test]
fn spot_engine_shows_spot_fee() {
    let mut s = no_settings();
    s.market_type = Some("spot".to_string());
    let engine = StrategyEngine::new(s);
    assert_eq!(engine.state().market_type, MarketType::Spot);
    assert_eq!(engine.state().fee_rate_pct, 10_000_000);
}

#[test]
fn book_ticker_sets_spread_and_mid() {
    let mut engine = StrategyEngine::new(no_settings());
    engine.process_tick(ticker("100.00", "100.01"), 0);
    let st = engine.state();
    assert_eq!(st.spread, 1_000_000);
    assert_eq!(st.btc_price, 10_000_500_000);
    assert_eq!(st.mark_price, 10_000_500_000);
    // 0.01 / 100.005 * 100 = 0.0099995 %
    assert_eq!(st.spread_pct, 999_900);
}

#[test]
fn book_ticker_with_missing_side_is_ignored() {
    let mut engine = StrategyEngine::new(no_settings());
    engine.process_tick(MarketTick::BookTicker(BookTickerData { bid: None, ask: Some("1".to_string()) }), 0);
    assert_eq!(engine.state().btc_price, 0);
    assert_eq!(engine.state().spread, 0);
}

#[test]
fn trade_moves_cvd_by_taker_side() {
    let mut engine = StrategyEngine::new(no_settings());
    engine.process_tick(trade("100", "2", false), 1_000);
    assert_eq!(engine.state().cvd, 2 * SCALE);
    engine.process_tick(trade("100", "0.5", true), 2_000);
    assert_eq!(engine.state().cvd, 150_000_000);
    assert_eq!(engine.state().btc_price, 100 * SCALE);
}

#[test]
fn trade_without_positive_price_is_ignored() {
    let mut engine = StrategyEngine::new(no_settings());
    engine.process_tick(trade("0", "2", false), 1_000);
    engine.process_tick(trade("abc", "2", false), 1_000);
    engine.process_tick(MarketTick::AggTrade(AggTradeData { price: None, qty: Some("1".to_string()), is_buyer_maker: None }), 1_000);
    assert_eq!(engine.state().cvd, 0);
    assert_eq!(engine.state().btc_price, 0);
}

#[test]
fn volume_figures() {
    let mut engine = StrategyEngine::new(no_settings());
    engine.process_tick(trade("100", "1", false), 1_000);
    engine.process_tick(trade("100.5", "1", true), 55_000);
    engine.process_tick(trade("101", "10", false), 61_000);
    let st = engine.state();
    assert_eq!(st.volume_30s, 11 * SCALE);
    assert_eq!(st.avg_volume_30s, SCALE);
    assert_eq!(st.volume_ratio, 11 * SCALE);
    assert_eq!(st.local_high_60s, 10_050_000_000);
    assert_eq!(st.local_low_60s, 100 * SCALE);
    // slope since the snapshot at 55 s (CVD 0)
    assert_eq!(st.cvd_slope_5s, 10 * SCALE);
}

#[test]
fn long_entry_opens_position() {
    let engine = engine_with_long_entry(no_settings());
    let st = engine.state();
    assert_eq!(st.cvd_slope_5s, 2 * SCALE);
    assert_eq!(st.system_status, SystemStatus::Long);
    let p = st.position.expect("a position");
    assert_eq!(p.side, Side::Long);
    assert_eq!(p.entry_price, 101 * SCALE);
    // 10 USDT at 5x
    assert_eq!(p.margin_usdt, 10 * SCALE);
    assert_eq!(p.leverage, 5 * SCALE);
    assert_eq!(p.entry_notional, 50 * SCALE);
    assert_eq!(p.quantity, 49_504_950);
    assert_eq!(p.est_fee, 5_000_000);
    assert_eq!(p.net_unrealized_pnl, -5_000_000);
    assert_eq!(p.unrealized_roe_pct, -50_000_000);
    assert_eq!(p.entry_local_high, 100 * SCALE);
    assert_eq!(p.entry_local_low, 100 * SCALE);
}

#[test]
fn stop_loss_closes_position() {
    let mut engine = engine_with_long_entry(no_settings());
    let record: TradeRecord = engine.process_tick(trade("100.9", "1", false), 7_000).expect("a closed trade");
    assert_eq!(record.exit_reason, "Stop Loss (-0.07%)");
    assert_eq!(record.side, Side::Long);
    assert_eq!(record.symbol, "BTCUSDT");
    assert_eq!(record.timestamp, "");
    assert_eq!(record.entry_price, 101 * SCALE);
    assert_eq!(record.exit_price, 10_090_000_000);
    assert_eq!(record.duration_seconds, 1);
    assert_eq!(record.invested_usdt, 10 * SCALE);
    assert_eq!(record.quantity, 49_504_950);
    assert_eq!(record.notional_usdt, 4_999_999_950);
    assert_eq!(record.gross_pnl_usdt, -4_950_495);
    assert_eq!(record.fees_usdt, 4_997_524);
    assert_eq!(record.net_pnl_usdt, -9_948_019);
    assert_eq!(record.pnl_percent, -99_480_100);
    let st = engine.state();
    assert_eq!(st.total_trades_count, 1);
    assert_eq!(st.consecutive_losses, 1);
    assert_eq!(st.win_rate_pct, 0);
    assert_eq!(st.total_pnl, -9_948_019);
    assert_eq!(st.today_pnl, -9_948_019);
    assert_eq!(st.profit_factor, 0);
    assert_eq!(st.daily_drawdown_pct, 99_480_100);
    assert_eq!(st.closed_trades.len(), 1);
    assert_eq!(st.closed_trades[0].pnl, -9_948_019);
    assert_eq!(st.closed_trades[0].exit_reason, ExitReason::StopLoss);
}

#[test]
fn position_closes_ten_seconds_after_entry() {
    let mut engine = engine_with_long_entry(no_settings());
    // nine seconds in, no exit rule holds
    assert!(engine.process_tick(trade("101.05", "1", false), 15_000).is_none());
    assert_eq!(engine.state().position.expect("a position").elapsed_seconds, 9);
    assert_eq!(engine.state().total_trades_count, 0);
    assert_eq!(engine.state().total_pnl, 0);
    // ten seconds in, it closes on time
    let record = engine.process_tick(trade("101.05", "1", false), 16_000).expect("a closed trade");
    assert_eq!(record.exit_reason, "Time Exit (10s)");
    assert_eq!(record.duration_seconds, 10);
    assert_eq!(engine.state().total_trades_count, 1);
    assert_eq!(engine.state().closed_trades[0].exit_reason, ExitReason::TimeLimit);
    // the entry rule still holds, so a new long opens at once
    let p = engine.state().position.expect("a new position");
    assert_eq!(p.entry_price, 10_105_000_000);
    assert_eq!(p.elapsed_seconds, 0);
}

#[test]
fn take_profit_closes_position() {
    let mut engine = engine_with_long_entry(no_settings());
    let record = engine.process_tick(trade("101.2", "1", false), 7_000).expect("a closed trade");
    assert_eq!(record.exit_reason, "Take Profit (+0.15%)");
    assert!(record.net_pnl_usdt > 0);
    let st = engine.state();
    assert_eq!(st.total_trades_count, 1);
    assert_eq!(st.consecutive_losses, 0);
    assert_eq!(st.win_rate_pct, 100 * SCALE);
}

#[test]
fn price_back_below_the_local_high_keeps_the_position() {
    // the holding time, not a failed breakout, closes a position; a wide stop
    // loss keeps the stop-loss rule from firing
    let mut s = no_settings();
    s.stop_loss_pct = Some("5".to_string());
    let mut engine = engine_with_long_entry(s);
    assert!(engine.process_tick(trade("99.9", "1", false), 7_000).is_none());
    assert!(engine.state().position.is_some());
    // the CVD falls well below its peak, and still nothing closes
    assert!(engine.process_tick(trade("99.9", "5", true), 8_000).is_none());
    assert!(engine.state().position.is_some());
    let record = engine.process_tick(trade("99.9", "1", false), 16_000).expect("a closed trade");
    assert_eq!(record.exit_reason, "Time Exit (10s)");
}

#[test]
fn position_is_marked_to_market() {
    let mut engine = engine_with_long_entry(no_settings());
    assert!(engine.process_tick(trade("101.05", "1", false), 8_000).is_none());
    let p = engine.state().position.expect("a position");
    assert_eq!(p.elapsed_seconds, 2);
    assert_eq!(p.price_change, 5_000_000);
    // 0.05 / 101 * 100 = 0.0495 %
    assert_eq!(p.price_change_pct, 4_950_400);
    assert_eq!(p.peak_cvd, 4 * SCALE);
}

#[test]
fn short_entry_on_ask_heavy_book_and_falling_cvd() {
    let mut engine = StrategyEngine::new(no_settings());
    engine.process_tick(depth(1, "1", "2"), 0);
    assert_eq!(engine.state().obi, 50_000_000);
    engine.process_tick(trade("100", "1", true), 1_000);
    assert!(engine.state().position.is_none());
    engine.process_tick(trade("99", "2", true), 6_000);
    assert_eq!(engine.state().cvd_slope_5s, -2 * SCALE);
    let p = engine.state().position.expect("a short");
    assert_eq!(p.side, Side::Short);
    assert_eq!(p.entry_price, 99 * SCALE);
    assert_eq!(engine.state().system_status, SystemStatus::Short);
}

#[test]
fn no_entry_on_balanced_book() {
    // the same rising CVD, but an imbalance of 1.2
    let mut engine = StrategyEngine::new(no_settings());
    engine.process_tick(depth(1, "1.2", "1"), 0);
    assert_eq!(engine.state().obi, 120_000_000);
    engine.process_tick(trade("100", "1", false), 1_000);
    engine.process_tick(trade("101", "2", false), 6_000);
    assert_eq!(engine.state().cvd_slope_5s, 2 * SCALE);
    assert!(engine.state().position.is_none());
}

#[test]
fn no_long_entry_while_cvd_falls() {
    // bids outweigh asks, but the large trade is a sell
    let mut engine = StrategyEngine::new(no_settings());
    engine.process_tick(depth(1, "3", "1"), 0);
    engine.process_tick(trade("100", "1", false), 1_000);
    assert!(engine.process_tick(trade("101", "2", true), 6_000).is_none());
    let st = engine.state();
    assert_eq!(st.cvd_slope_5s, -2 * SCALE);
    assert!(st.position.is_none());
    assert_eq!(st.system_status, SystemStatus::Waiting);
}

#[test]
fn depth_message_refreshes_imbalance() {
    let mut engine = StrategyEngine::new(no_settings());
    assert_eq!(engine.state().obi, SCALE);
    engine.process_tick(depth(7, "4", "1"), 0);
    assert_eq!(engine.state().obi, 4 * SCALE);
    // an older snapshot replaces the levels all the same
    engine.process_tick(depth(3, "1", "4"), 10);
    assert_eq!(engine.state().obi, 25_000_000);
}

#[test]
fn mark_price_is_shown() {
    let mut engine = StrategyEngine::new(no_settings());
    engine.process_tick(MarketTick::MarkPrice(MarkPriceData { price: Some("64000.5".to_string()) }), 0);
    assert_eq!(engine.state().mark_price, 6_400_050_000_000);
    assert_eq!(engine.state().btc_price, 0);
    engine.process_tick(MarketTick::MarkPrice(MarkPriceData { price: Some("x".to_string()) }), 0);
    assert_eq!(engine.state().mark_price, 6_400_050_000_000);
}

#[test]
fn cvd_is_the_signed_sum_of_trades() {
    let mut engine = StrategyEngine::new(no_settings());
    engine.process_tick(trade("100", "1.5", false), 0);
    engine.process_tick(ticker("99", "101"), 10);
    engine.process_tick(trade("100", "0.25", true), 20);
    engine.process_tick(trade("0", "9", false), 30);
    engine.process_tick(trade("100", "2", false), 40);
    assert_eq!(engine.state().cvd, 325_000_000);
}

#[test]
fn trade_size_history_is_bounded() {
    let mut engine = StrategyEngine::new(no_settings());
    let mut t = 0u64;
    while t < 150 {
        engine.process_tick(trade("100", "1", false), t * 10);
        t += 1;
    }
    assert_eq!(engine.state().cvd, 150 * SCALE);
}


#[test]
fn marking_alone_closes_on_time() {
    let mut engine = engine_with_long_entry(no_settings());
    assert!(engine.update_position(15_999).is_none());
    let (p, reason) = engine.update_position(16_000).expect("a closed position");
    assert_eq!(reason, ExitReason::TimeLimit);
    assert_eq!(p.elapsed_seconds, 10);
    assert!(engine.state().position.is_none());
    assert_eq!(engine.state().system_status, SystemStatus::Waiting);
    assert_eq!(engine.state().total_trades_count, 1);
    // the entry rule alone reopens, as the book and the CVD still point up
    engine.check_rules(16_000);
    assert_eq!(engine.state().position.expect("a new long").side, Side::Long);
}
