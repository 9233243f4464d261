//! The strategy engine: it folds market data into the dashboard state, marks
//! the open position, closes it on its exit rules and opens a new one when the
//! entry rules hold.
//!
//! Entry: with no position open, a long when the order book imbalance is
//! above 1.50 and the 5-second CVD slope is positive, a short when the
//! imbalance is below 0.67 and the slope is negative (and a price is known to
//! enter at). Exit: the position is held for ten seconds and closed on the
//! first tick after that; only the configured stop loss and take profit can
//! close it earlier. (A failed-breakout or CVD-reversal exit belongs to a
//! breakout entry; with the imbalance entry it would close most positions on
//! the next tick, so the holding time governs instead.) The local high and
//! low and the peak and trough CVD are still kept and shown.
use vstd::prelude::*;
use std::collections::VecDeque;
use crate::fixed::{fdiv, fmul, fx_div, fx_mul, quot, sadd, sat_add, sat_mul, sat_sub, smul, squot, ssub, SCALE};
use crate::logger::{record_trade, records_trade, TradeRecord};
use crate::market::{
    initial_market_view, status_of, AggTradeData, BookTickerData, ExitReason, MarketType, MarketView, Side,
    SystemStatus,
};
pub use crate::market::{ClosedTrade, CvdSnapshot, MarketState, MarketTick, Position, TradeEvent};
use crate::metrics::{
    age_ms, age_of, average_volume, cvd_slope, drop_old_snapshots, drop_old_trades, lemma_retained_snapshots,
    lemma_retained_trades, price_extremes, prune_snapshots, prune_trades, recent_high, recent_low, recent_volume,
    slope_of, snapshots_in_order, trades_in_order, volume_ratio, volume_stats,
};
use crate::orderbook::{after_snapshot, imbalance_ratio, top_asks_volume, top_bids_volume, BookModel, LocalOrderBook};
use crate::orderbook::DepthSnapshot;
use crate::market::MarkPriceData;
use crate::parse::{eq_ignore_case, lemma_positive_reading, matches_ignore_case, parse_scaled, parse_scaled_spec, parse_u64, parse_u64_spec, Scaled};
use crate::position::{check_exit, exit_reason, mark_position, marked_position, open_position, opened_position, HOLD_SECONDS};

verus! {

/// Trades kept for the volume figures, in seconds.
pub const TRADE_RETENTION_S: u64 = 300;

/// CVD snapshots kept for the slope, in seconds.
pub const CVD_RETENTION_S: u64 = 10;

/// Trade sizes kept for the average trade size.
pub const TRADE_SIZE_WINDOW: usize = 100;

/// Levels of each side of the book that the imbalance weighs.
pub const OBI_LEVELS: usize = 20;

/// 1.50: the imbalance above which a long opens.
pub const OBI_LONG: i128 = 150_000_000;

/// 0.67: the imbalance below which a short opens.
pub const OBI_SHORT: i128 = 67_000_000;

/// Closed trades kept for the dashboard.
pub const CLOSED_TRADES_KEPT: usize = 10;

/// Taker fee per side on futures: 0.05 %.
pub const FUTURES_FEE_RATE: i128 = 50_000;

/// Taker fee per side on spot: 0.10 %.
pub const SPOT_FEE_RATE: i128 = 100_000;

/// The settings as text, each as the environment gives it (`None` when unset).
#[derive(Debug)]
pub struct EngineSettings {
    pub market_type: Option<String>,
    pub leverage: Option<String>,
    pub trade_size_usdt: Option<String>,
    pub symbol: Option<String>,
    pub vol_spike_ratio: Option<String>,
    pub max_spread_pct: Option<String>,
    pub stop_loss_pct: Option<String>,
    pub take_profit_pct: Option<String>,
    pub cooldown_seconds: Option<String>,
}

/// The engine's configuration.
#[derive(Debug)]
pub struct EngineConfig {
    pub market_type: MarketType,
    /// Fee per side, as a fraction.
    pub fee_rate: i128,
    pub leverage: i128,
    pub trade_size_usdt: i128,
    pub symbol: String,
    /// Read and reported at start-up; the entry rule does not weigh it.
    pub vol_spike_ratio: i128,
    /// Read and reported at start-up; the entry rule does not weigh it.
    pub max_spread_pct: i128,
    pub stop_loss_pct: i128,
    pub take_profit_pct: i128,
    /// Read from the settings; the entry rule has no cooldown.
    pub cooldown_seconds: u64,
}

pub open spec fn futures_word() -> Seq<char> {
    seq!['f', 'u', 't', 'u', 'r', 'e', 's']
}

pub open spec fn future_word() -> Seq<char> {
    seq!['f', 'u', 't', 'u', 'r', 'e']
}

/// The market type a setting names: futures unless it spells something
/// other than "futures" or "future" (in any case).
pub open spec fn market_of(setting: Option<String>) -> MarketType {
    match setting {
        Some(s) => if eq_ignore_case(s@, futures_word()) || eq_ignore_case(s@, future_word()) {
            MarketType::Futures
        } else {
            MarketType::Spot
        },
        None => MarketType::Futures,
    }
}

/// A number setting: its value when it reads as a decimal number, else the
/// default.
pub open spec fn number_setting(setting: Option<String>, default: i128) -> i128 {
    match setting {
        Some(s) => match parse_scaled_spec(s@, 8) {
            Some(v) => v.value as i128,
            None => default,
        },
        None => default,
    }
}

/// A count setting: its value when it reads as an unsigned integer, else the
/// default.
pub open spec fn count_setting(setting: Option<String>, default: u64) -> u64 {
    match setting {
        Some(s) => match parse_u64_spec(s@) {
            Some(v) => v,
            None => default,
        },
        None => default,
    }
}

pub open spec fn fee_rate_of(market: MarketType) -> i128 {
    match market {
        MarketType::Futures => FUTURES_FEE_RATE,
        MarketType::Spot => SPOT_FEE_RATE,
    }
}

/// The configuration the settings give, with the defaults leverage 5, trade
/// size 10 USDT, symbol BTCUSDT, volume spike 3.0, maximum spread 0.02 %,
/// stop loss 0.07 %, take profit 0.15 % and a cooldown of 5 s.
pub open spec fn configured(s: EngineSettings, c: EngineConfig) -> bool {
    &&& c.market_type == market_of(s.market_type)
    &&& c.fee_rate == fee_rate_of(c.market_type)
    &&& c.leverage == number_setting(s.leverage, 500_000_000)
    &&& c.trade_size_usdt == number_setting(s.trade_size_usdt, 1_000_000_000)
    &&& c.symbol@ == match s.symbol {
        Some(t) => t@,
        None => seq!['B', 'T', 'C', 'U', 'S', 'D', 'T'],
    }
    &&& c.vol_spike_ratio == number_setting(s.vol_spike_ratio, 300_000_000)
    &&& c.max_spread_pct == number_setting(s.max_spread_pct, 2_000_000)
    &&& c.stop_loss_pct == number_setting(s.stop_loss_pct, 7_000_000)
    &&& c.take_profit_pct == number_setting(s.take_profit_pct, 15_000_000)
    &&& c.cooldown_seconds == count_setting(s.cooldown_seconds, 5)
}

/// The market type a setting names.
pub fn market_type_of(setting: &Option<String>) -> (r: MarketType)
    ensures
        r == market_of(*setting),
{
    match setting {
        Some(s) => {
            proof {
                reveal_strlit("futures");
                reveal_strlit("future");
                assert("futures"@ =~= futures_word());
                assert("future"@ =~= future_word());
            }
            if matches_ignore_case(s.as_str(), "futures") || matches_ignore_case(s.as_str(), "future") {
                MarketType::Futures
            } else {
                MarketType::Spot
            }
        },
        None => MarketType::Futures,
    }
}

fn read_number_setting(setting: &Option<String>, default: i128) -> (r: i128)
    ensures
        r == number_setting(*setting, default),
{
    match setting {
        Some(s) => match parse_scaled(s.as_str(), 8) {
            Some(v) => v.value as i128,
            None => default,
        },
        None => default,
    }
}

fn read_count_setting(setting: &Option<String>, default: u64) -> (r: u64)
    ensures
        r == count_setting(*setting, default),
{
    match setting {
        Some(s) => match parse_u64(s.as_str()) {
            Some(v) => v,
            None => default,
        },
        None => default,
    }
}

impl EngineConfig {
    /// Reads the configuration from its settings.
    pub fn from_settings(s: EngineSettings) -> (c: EngineConfig)
        ensures
            configured(s, c),
    {
        let market_type = market_type_of(&s.market_type);
        let fee_rate = match market_type {
            MarketType::Futures => FUTURES_FEE_RATE,
            MarketType::Spot => SPOT_FEE_RATE,
        };
        let leverage = read_number_setting(&s.leverage, 500_000_000);
        let trade_size_usdt = read_number_setting(&s.trade_size_usdt, 1_000_000_000);
        let vol_spike_ratio = read_number_setting(&s.vol_spike_ratio, 300_000_000);
        let max_spread_pct = read_number_setting(&s.max_spread_pct, 2_000_000);
        let stop_loss_pct = read_number_setting(&s.stop_loss_pct, 7_000_000);
        let take_profit_pct = read_number_setting(&s.take_profit_pct, 15_000_000);
        let cooldown_seconds = read_count_setting(&s.cooldown_seconds, 5);
        let symbol = match s.symbol {
            Some(t) => t,
            None => {
                proof {
                    reveal_strlit("BTCUSDT");
                    assert("BTCUSDT"@ =~= seq!['B', 'T', 'C', 'U', 'S', 'D', 'T']);
                }
                "BTCUSDT".to_owned()
            },
        };
        EngineConfig {
            market_type,
            fee_rate,
            leverage,
            trade_size_usdt,
            symbol,
            vol_spike_ratio,
            max_spread_pct,
            stop_loss_pct,
            take_profit_pct,
            cooldown_seconds,
        }
    }
}

/// The strategy engine.
pub struct StrategyEngine {
    state: MarketState,
    trade_events: VecDeque<TradeEvent>,
    cvd_history: VecDeque<CvdSnapshot>,
    trade_sizes: VecDeque<i128>,
    pos_entry_time: Option<u64>,
    last_exit_time: Option<u64>,
    config: EngineConfig,
    book: LocalOrderBook,
    last_trade_vol: i128,
    gross_profits: i128,
    gross_losses: i128,
    wins_count: usize,
    peak_equity: i128,
}

/// What the engine holds, with its queues as sequences.
pub struct EngineModel {
    pub state: MarketView,
    /// Trades of the last five minutes, oldest first.
    pub trade_events: Seq<TradeEvent>,
    /// CVD snapshots of the last ten seconds, oldest first.
    pub cvd_history: Seq<CvdSnapshot>,
    /// Sizes of the last hundred trades, oldest first.
    pub trade_sizes: Seq<i128>,
    /// When the open position was entered.
    pub pos_entry_time: Option<u64>,
    /// When the last position was closed.
    pub last_exit_time: Option<u64>,
    pub config: EngineConfig,
    /// The local order book.
    pub book: BookModel,
    pub last_trade_vol: i128,
    /// Sum of the winning trades' net results.
    pub gross_profits: i128,
    /// Sum of the losing trades' net losses.
    pub gross_losses: i128,
    pub wins_count: usize,
    /// Highest `today_pnl` after any exit.
    pub peak_equity: i128,
}

impl View for StrategyEngine {
    type V = EngineModel;

    closed spec fn view(&self) -> EngineModel {
        EngineModel {
            state: self.state@,
            trade_events: self.trade_events@,
            cvd_history: self.cvd_history@,
            trade_sizes: self.trade_sizes@,
            pos_entry_time: self.pos_entry_time,
            last_exit_time: self.last_exit_time,
            config: self.config,
            book: self.book@,
            last_trade_vol: self.last_trade_vol,
            gross_profits: self.gross_profits,
            gross_losses: self.gross_losses,
            wins_count: self.wins_count,
            peak_equity: self.peak_equity,
        }
    }
}

impl EngineModel {
    /// What every engine keeps true: a position is open exactly when an entry
    /// time is known, the status names the open position's side (or waiting),
    /// an open position was entered at a positive price, the price is never
    /// negative, at most ten closed trades and a hundred trade sizes are kept,
    /// no more closed trades are listed than were counted, wins and the
    /// current losing streak never exceed the trade count, and the win rate
    /// lies between 0 and 100 %.
    pub open spec fn well_formed(self) -> bool {
        &&& self.state.position.is_some() == self.pos_entry_time.is_some()
        &&& match self.state.position {
            None => self.state.system_status == SystemStatus::Waiting,
            Some(p) => self.state.system_status == status_of(p.side) && p.entry_price > 0,
        }
        &&& self.state.btc_price >= 0
        &&& self.state.closed_trades.len() <= CLOSED_TRADES_KEPT
        &&& self.trade_sizes.len() <= TRADE_SIZE_WINDOW
        &&& self.wins_count <= self.state.total_trades_count
        &&& self.state.consecutive_losses <= self.state.total_trades_count
        &&& self.state.closed_trades.len() <= self.state.total_trades_count
        &&& 0 <= self.state.win_rate_pct <= 100 * SCALE
    }
}

/// The number a text field gives: its value when it reads as a decimal number,
/// else zero (as a missing field does).
pub open spec fn read_number(field: Option<String>) -> Scaled {
    match field {
        Some(s) => match parse_scaled_spec(s@, 8) {
            Some(v) => v,
            None => Scaled { value: 0, sign: 0 },
        },
        None => Scaled { value: 0, sign: 0 },
    }
}

fn read_field(field: &Option<String>) -> (r: Scaled)
    ensures
        r == read_number(*field),
{
    match field {
        Some(s) => match parse_scaled(s.as_str(), 8) {
            Some(v) => v,
            None => Scaled { value: 0, sign: 0 },
        },
        None => Scaled { value: 0, sign: 0 },
    }
}

/// The local high and low of the minute before the latest trade; unchanged
/// while fewer than two trades are kept.
pub open spec fn local_range(es: Seq<TradeEvent>, now: u64, high: i128, low: i128) -> (i128, i128) {
    if es.len() > 1 {
        let prior = es.take(es.len() - 1);
        let raw_low = recent_low(prior, now);
        (recent_high(prior, now), if raw_low < i128::MAX {
            raw_low
        } else {
            0
        })
    } else {
        (high, low)
    }
}

/// The indicators refreshed at `now`: the CVD slope, the volume figures and
/// the local high and low.
pub open spec fn with_metrics(m: EngineModel, now: u64) -> EngineModel {
    let range = local_range(m.trade_events, now, m.state.local_high_60s, m.state.local_low_60s);
    EngineModel {
        state: MarketView {
            cvd_slope_5s: cvd_slope(m.cvd_history, m.state.cvd, now, m.state.cvd_slope_5s),
            volume_30s: recent_volume(m.trade_events, now),
            avg_volume_30s: average_volume(m.trade_events, now),
            volume_ratio: volume_ratio(m.trade_events, now),
            local_high_60s: range.0,
            local_low_60s: range.1,
            ..m.state
        },
        ..m
    }
}

/// The engine after an aggregated trade at time `now`: a trade with a positive
/// price sets the price, joins the trade and size histories, moves the CVD by
/// its quantity (down when the buyer made the market), drops trades older
/// than five minutes and snapshots older than ten seconds, and refreshes the
/// indicators; any other trade changes nothing.
pub open spec fn after_trade(m: EngineModel, d: AggTradeData, now: u64) -> EngineModel {
    let p = read_number(d.price);
    let q = read_number(d.qty);
    let maker = match d.is_buyer_maker {
        Some(b) => b,
        None => false,
    };
    if p.sign > 0 {
        let price = p.value as i128;
        let qty = q.value as i128;
        let cvd = if maker {
            ssub(m.state.cvd, qty)
        } else {
            sadd(m.state.cvd, qty)
        };
        let sizes = m.trade_sizes.push(qty);
        with_metrics(
            EngineModel {
                state: MarketView { btc_price: price, mark_price: price, cvd, ..m.state },
                trade_events: drop_old_trades(
                    m.trade_events.push(TradeEvent { timestamp_ms: now, price, qty }),
                    now,
                    TRADE_RETENTION_S,
                ),
                cvd_history: drop_old_snapshots(
                    m.cvd_history.push(CvdSnapshot { timestamp_ms: now, cvd }),
                    now,
                    CVD_RETENTION_S,
                ),
                trade_sizes: if sizes.len() > TRADE_SIZE_WINDOW {
                    sizes.drop_first()
                } else {
                    sizes
                },
                last_trade_vol: qty,
                ..m
            },
            now,
        )
    } else {
        m
    }
}

/// The engine after a best bid/ask: with both sides positive, the spread,
/// its percentage of the mid price, and the price (the mid) are set.
pub open spec fn after_book_ticker(m: EngineModel, d: BookTickerData) -> EngineModel {
    let bid = read_number(d.bid);
    let ask = read_number(d.ask);
    if ask.sign > 0 && bid.sign > 0 {
        let spread = ssub(ask.value as i128, bid.value as i128);
        let mid = squot(sadd(bid.value as i128, ask.value as i128), 2);
        EngineModel {
            state: MarketView {
                spread,
                spread_pct: smul(fdiv(spread, mid), 100),
                btc_price: mid,
                mark_price: mid,
                ..m.state
            },
            ..m
        }
    } else {
        m
    }
}

/// The engine after a depth message: the book takes it as a snapshot and the
/// imbalance is that of its best `OBI_LEVELS` levels.
pub open spec fn after_depth(m: EngineModel, s: DepthSnapshot) -> EngineModel {
    let book = after_snapshot(m.book, s);
    EngineModel {
        book,
        state: MarketView {
            obi: imbalance_ratio(
                top_bids_volume(book.bids, OBI_LEVELS as nat),
                top_asks_volume(book.asks, OBI_LEVELS as nat),
            ),
            ..m.state
        },
        ..m
    }
}

/// The engine after a mark price: a positive one is shown as the mark price.
pub open spec fn after_mark_price(m: EngineModel, d: MarkPriceData) -> EngineModel {
    let p = read_number(d.price);
    if p.sign > 0 {
        EngineModel { state: MarketView { mark_price: p.value as i128, ..m.state }, ..m }
    } else {
        m
    }
}

pub open spec fn after_market_data(m: EngineModel, tick: MarketTick, now: u64) -> EngineModel {
    match tick {
        MarketTick::AggTrade(d) => after_trade(m, d, now),
        MarketTick::BookTicker(d) => after_book_ticker(m, d),
        MarketTick::Depth(s) => after_depth(m, s),
        MarketTick::MarkPrice(d) => after_mark_price(m, d),
    }
}

/// The closed trade made of the marked position `p`.
pub open spec fn closed_trade(p: Position, c: EngineConfig, exit_price: i128, reason: ExitReason) -> ClosedTrade {
    ClosedTrade {
        side: p.side,
        leverage: c.leverage,
        entry_price: p.entry_price,
        exit_price,
        invested: c.trade_size_usdt,
        gross_pnl: p.gross_unrealized_pnl,
        fee: p.est_fee,
        pnl: p.net_unrealized_pnl,
        pnl_percent: p.unrealized_roe_pct,
        duration_seconds: p.elapsed_seconds,
        exit_reason: reason,
    }
}

pub open spec fn inc_count(n: usize) -> usize {
    if n < usize::MAX {
        (n + 1) as usize
    } else {
        n
    }
}

/// A count as a fixed-point number.
pub open spec fn count_fixed(n: usize) -> i128 {
    smul(n as i128, SCALE)
}

/// `closed` put first in `trades`, keeping the ten newest.
pub open spec fn newest_first(trades: Seq<ClosedTrade>, closed: ClosedTrade) -> Seq<ClosedTrade> {
    let all = seq![closed] + trades;
    if all.len() > CLOSED_TRADES_KEPT {
        all.take(CLOSED_TRADES_KEPT as int)
    } else {
        all
    }
}

/// The engine after closing the marked position `p` at `now`: the net result
/// joins the totals, the win or loss counts, the win rate, profit factor and
/// drawdown are updated and the trade heads the closed-trade list.
pub open spec fn after_exit(m: EngineModel, p: Position, reason: ExitReason, now: u64) -> EngineModel {
    let net = p.net_unrealized_pnl;
    let total = inc_count(m.state.total_trades_count);
    let win = net > 0;
    let wins = if win {
        inc_count(m.wins_count)
    } else {
        m.wins_count
    };
    let gross_profits = if win {
        sadd(m.gross_profits, net)
    } else {
        m.gross_profits
    };
    let gross_losses = if win {
        m.gross_losses
    } else {
        sadd(m.gross_losses, if net < 0 { ssub(0, net) } else { net })
    };
    let today = sadd(m.state.today_pnl, net);
    let peak = if today > m.peak_equity {
        today
    } else {
        m.peak_equity
    };
    EngineModel {
        state: MarketView {
            position: None,
            total_pnl: sadd(m.state.total_pnl, net),
            today_pnl: today,
            total_trades_count: total,
            consecutive_losses: if win {
                0
            } else {
                inc_count(m.state.consecutive_losses)
            },
            win_rate_pct: smul(fdiv(count_fixed(wins), count_fixed(total)), 100),
            profit_factor: if gross_losses > 0 {
                fdiv(gross_profits, gross_losses)
            } else {
                gross_profits
            },
            daily_drawdown_pct: smul(fdiv(ssub(peak, today), m.config.trade_size_usdt), 100),
            system_status: SystemStatus::Waiting,
            closed_trades: newest_first(
                m.state.closed_trades,
                closed_trade(p, m.config, m.state.btc_price, reason),
            ),
            ..m.state
        },
        pos_entry_time: None,
        last_exit_time: Some(now),
        gross_profits,
        gross_losses,
        wins_count: wins,
        peak_equity: peak,
        ..m
    }
}

/// The engine after marking the open position at `now`, and the position it
/// closed (as marked) with the reason, if any.
pub open spec fn after_position_update(m: EngineModel, now: u64) -> (EngineModel, Option<(Position, ExitReason)>) {
    match (m.state.position, m.pos_entry_time) {
        (Some(pos), Some(t)) => {
            let elapsed = (age_ms(now, t) / 1000) as i64;
            let p = marked_position(pos, m.state.btc_price, m.state.cvd, elapsed, m.config.fee_rate);
            match exit_reason(p, m.config.stop_loss_pct, m.config.take_profit_pct) {
                Some(r) => (after_exit(m, p, r, now), Some((p, r))),
                None => (EngineModel { state: MarketView { position: Some(p), ..m.state }, ..m }, None),
            }
        },
        _ => (m, None),
    }
}

/// The long entry signal: the order book leans to the bids (imbalance above
/// 1.50) and the CVD rises.
pub open spec fn long_signal(m: EngineModel) -> bool {
    m.state.obi > OBI_LONG && m.state.cvd_slope_5s > 0
}

/// The short entry signal: the order book leans to the asks (imbalance below
/// 0.67) and the CVD falls.
pub open spec fn short_signal(m: EngineModel) -> bool {
    m.state.obi < OBI_SHORT && m.state.cvd_slope_5s < 0
}

/// The engine after entering on `side` at `now` at the current price.
pub open spec fn after_entry(m: EngineModel, side: Side, now: u64) -> EngineModel {
    let c = m.config;
    let p = opened_position(
        side,
        m.state.btc_price,
        m.state.cvd,
        c.leverage,
        c.trade_size_usdt,
        fmul(c.trade_size_usdt, c.leverage),
        c.fee_rate,
        m.state.local_high_60s,
        m.state.local_low_60s,
    );
    EngineModel {
        state: MarketView { system_status: status_of(side), position: Some(p), ..m.state },
        pos_entry_time: Some(now),
        ..m
    }
}

/// The engine after checking the entry rules at `now`.
pub open spec fn after_entry_check(m: EngineModel, now: u64) -> EngineModel {
    if m.state.position.is_some() || m.state.btc_price == 0 {
        m
    } else if long_signal(m) {
        after_entry(m, Side::Long, now)
    } else if short_signal(m) {
        after_entry(m, Side::Short, now)
    } else {
        m
    }
}

/// One step of the engine: market data, then the open position, then the
/// entry rules.
pub open spec fn after_tick(m: EngineModel, tick: MarketTick, now: u64) -> (EngineModel, Option<(Position, ExitReason)>) {
    let m1 = after_market_data(m, tick, now);
    let (m2, closed) = after_position_update(m1, now);
    (after_entry_check(m2, now), closed)
}

impl StrategyEngine {
    /// A new engine configured by `settings`, with no market data yet.
    pub fn new(settings: EngineSettings) -> (r: Self)
        ensures
            configured(settings, r@.config),
            r@.state == (MarketView {
                market_type: r@.config.market_type,
                fee_rate_pct: smul(r@.config.fee_rate, 100),
                ..initial_market_view()
            }),
            r@.trade_events.len() == 0,
            r@.cvd_history.len() == 0,
            r@.trade_sizes.len() == 0,
            r@.pos_entry_time.is_none(),
            r@.last_exit_time.is_none(),
            r@.last_trade_vol == 0,
            r@.gross_profits == 0,
            r@.gross_losses == 0,
            r@.wins_count == 0,
            r@.peak_equity == 0,
            r@.book.bids == Map::<u64, i128>::empty(),
            r@.book.asks == Map::<u64, i128>::empty(),
            r@.book.last_update_id == 0,
            !r@.book.synced,
            r@.book.buffered.len() == 0,
            r@.well_formed(),
    {
        let config = EngineConfig::from_settings(settings);
        let mut state = MarketState::default();
        state.market_type = config.market_type;
        state.fee_rate_pct = sat_mul(config.fee_rate, 100);
        StrategyEngine {
            state,
            trade_events: VecDeque::new(),
            cvd_history: VecDeque::new(),
            trade_sizes: VecDeque::new(),
            pos_entry_time: None,
            last_exit_time: None,
            config,
            book: LocalOrderBook::new(),
            last_trade_vol: 0,
            gross_profits: 0,
            gross_losses: 0,
            wins_count: 0,
            peak_equity: 0,
        }
    }

    /// The state the dashboard shows.
    pub fn state(&self) -> (r: &MarketState)
        ensures
            r@ == self@.state,
    {
        &self.state
    }

    /// The configuration.
    pub fn config(&self) -> (r: &EngineConfig)
        ensures
            *r == self@.config,
    {
        &self.config
    }

    /// Refreshes the indicators at `now`.
    fn recalculate_metrics(&mut self, now: u64)
        ensures
            final(self)@ == with_metrics(old(self)@, now),
    {
        let slope = slope_of(&self.cvd_history, self.state.cvd, now, self.state.cvd_slope_5s);
        let (recent, avg, ratio) = volume_stats(&self.trade_events, now);
        self.state.cvd_slope_5s = slope;
        self.state.volume_30s = recent;
        self.state.avg_volume_30s = avg;
        self.state.volume_ratio = ratio;
        let n = self.trade_events.len();
        if n > 1 {
            let (high, low) = price_extremes(&self.trade_events, now, n - 1);
            self.state.local_high_60s = high;
            self.state.local_low_60s = if low < i128::MAX {
                low
            } else {
                0
            };
        }
    }

    /// Folds an aggregated trade into the state.
    fn apply_trade(&mut self, d: AggTradeData, now: u64)
        ensures
            final(self)@ == after_trade(old(self)@, d, now),
    {
        let p = read_field(&d.price);
        let q = read_field(&d.qty);
        let maker = match d.is_buyer_maker {
            Some(b) => b,
            None => false,
        };
        if p.sign > 0 {
            let price = p.value as i128;
            let qty = q.value as i128;
            self.state.btc_price = price;
            self.state.mark_price = price;
            self.trade_events.push_back(TradeEvent { timestamp_ms: now, price, qty });
            self.last_trade_vol = qty;
            self.trade_sizes.push_back(qty);
            if self.trade_sizes.len() > TRADE_SIZE_WINDOW {
                let ghost before = self.trade_sizes@;
                self.trade_sizes.pop_front();
                assert(self.trade_sizes@ =~= before.drop_first());
            }
            if maker {
                self.state.cvd = sat_sub(self.state.cvd, qty);
            } else {
                self.state.cvd = sat_add(self.state.cvd, qty);
            }
            self.cvd_history.push_back(CvdSnapshot { timestamp_ms: now, cvd: self.state.cvd });
            prune_trades(&mut self.trade_events, now, TRADE_RETENTION_S);
            prune_snapshots(&mut self.cvd_history, now, CVD_RETENTION_S);
            self.recalculate_metrics(now);
        }
    }

    /// Folds a best bid/ask into the state.
    fn apply_book_ticker(&mut self, d: BookTickerData)
        ensures
            final(self)@ == after_book_ticker(old(self)@, d),
    {
        let bid = read_field(&d.bid);
        let ask = read_field(&d.ask);
        if ask.sign > 0 && bid.sign > 0 {
            let spread = sat_sub(ask.value as i128, bid.value as i128);
            let mid = quot(sat_add(bid.value as i128, ask.value as i128), 2);
            self.state.spread = spread;
            self.state.spread_pct = sat_mul(fx_div(spread, mid), 100);
            self.state.btc_price = mid;
            self.state.mark_price = mid;
        }
    }

    /// Takes a depth message into the book and refreshes the imbalance.
    fn apply_depth(&mut self, snapshot: &DepthSnapshot)
        ensures
            final(self)@ == after_depth(old(self)@, *snapshot),
    {
        self.book.init_from_snapshot(snapshot);
        let (_, _, ratio) = self.book.calculate_imbalance(OBI_LEVELS);
        self.state.obi = ratio;
    }

    /// Shows a positive mark price.
    fn apply_mark_price(&mut self, d: MarkPriceData)
        ensures
            final(self)@ == after_mark_price(old(self)@, d),
    {
        let p = read_field(&d.price);
        if p.sign > 0 {
            self.state.mark_price = p.value as i128;
        }
    }

    /// Closes the marked position `p` for `reason` at `now`.
    fn settle(&mut self, p: Position, reason: ExitReason, now: u64)
        ensures
            final(self)@ == after_exit(old(self)@, p, reason, now),
    {
        let net = p.net_unrealized_pnl;
        self.state.total_pnl = sat_add(self.state.total_pnl, net);
        self.state.today_pnl = sat_add(self.state.today_pnl, net);
        self.state.total_trades_count = self.state.total_trades_count.saturating_add(1);
        if net > 0 {
            self.gross_profits = sat_add(self.gross_profits, net);
            self.wins_count = self.wins_count.saturating_add(1);
            self.state.consecutive_losses = 0;
        } else {
            let loss = if net < 0 {
                sat_sub(0, net)
            } else {
                net
            };
            self.gross_losses = sat_add(self.gross_losses, loss);
            self.state.consecutive_losses = self.state.consecutive_losses.saturating_add(1);
        }
        let wins_fixed = sat_mul(self.wins_count as i128, SCALE);
        let total_fixed = sat_mul(self.state.total_trades_count as i128, SCALE);
        self.state.win_rate_pct = sat_mul(fx_div(wins_fixed, total_fixed), 100);
        self.state.profit_factor = if self.gross_losses > 0 {
            fx_div(self.gross_profits, self.gross_losses)
        } else {
            self.gross_profits
        };
        if self.state.today_pnl > self.peak_equity {
            self.peak_equity = self.state.today_pnl;
        }
        let drawdown = sat_sub(self.peak_equity, self.state.today_pnl);
        self.state.daily_drawdown_pct = sat_mul(fx_div(drawdown, self.config.trade_size_usdt), 100);
        self.state.system_status = SystemStatus::Waiting;
        let closed = make_closed_trade(&p, &self.config, self.state.btc_price, reason);
        let ghost before = self.state.closed_trades@;
        self.state.closed_trades.insert(0, closed);
        assert(self.state.closed_trades@ =~= seq![closed] + before);
        if self.state.closed_trades.len() > CLOSED_TRADES_KEPT {
            self.state.closed_trades.truncate(CLOSED_TRADES_KEPT);
        }
        self.state.position = None;
        self.pos_entry_time = None;
        self.last_exit_time = Some(now);
    }

    /// Marks the open position to the market at `now` and closes it when an
    /// exit rule holds; gives the closed position (as marked) and the reason.
    pub fn update_position(&mut self, now: u64) -> (r: Option<(Position, ExitReason)>)
        ensures
            (final(self)@, r) == after_position_update(old(self)@, now),
    {
        match (self.state.position, self.pos_entry_time) {
            (Some(pos), Some(t)) => {
                let elapsed = (age_of(now, t) / 1000) as i64;
                let p = mark_position(pos, self.state.btc_price, self.state.cvd, elapsed, self.config.fee_rate);
                match check_exit(&p, self.config.stop_loss_pct, self.config.take_profit_pct) {
                    Some(reason) => {
                        self.settle(p, reason, now);
                        Some((p, reason))
                    },
                    None => {
                        self.state.position = Some(p);
                        None
                    },
                }
            },
            _ => None,
        }
    }

    /// Handles one market data message received at `now` (milliseconds on a
    /// monotonic clock): folds it into the state, marks and possibly closes
    /// the open position, then applies the entry rules. Gives the log record
    /// of the trade it closed, if any, with an empty timestamp.
    pub fn process_tick(&mut self, tick: MarketTick, now: u64) -> (r: Option<TradeRecord>)
        requires
            old(self)@.well_formed(),
        ensures
            final(self)@ == after_tick(old(self)@, tick, now).0,
            final(self)@.well_formed(),
            match after_tick(old(self)@, tick, now).1 {
                Some((p, reason)) => r matches Some(rec) && records_trade(
                    rec,
                    closed_trade(
                        p,
                        old(self)@.config,
                        after_market_data(old(self)@, tick, now).state.btc_price,
                        reason,
                    ),
                    p,
                    old(self)@.config.symbol@,
                    old(self)@.config.stop_loss_pct,
                    old(self)@.config.take_profit_pct,
                ),
                None => r is None,
            },
    {
        proof {
            lemma_tick_keeps_well_formed(self@, tick, now);
            lemma_market_data_well_formed(self@, tick, now);
        }
        match tick {
            MarketTick::AggTrade(d) => self.apply_trade(d, now),
            MarketTick::BookTicker(d) => self.apply_book_ticker(d),
            MarketTick::Depth(snapshot) => self.apply_depth(&snapshot),
            MarketTick::MarkPrice(d) => self.apply_mark_price(d),
        }
        let exit_price = self.state.btc_price;
        let closed = self.update_position(now);
        self.check_rules(now);
        match closed {
            Some((p, reason)) => {
                let t = make_closed_trade(&p, &self.config, exit_price, reason);
                Some(
                    record_trade(
                        &t,
                        &p,
                        &self.config.symbol,
                        self.config.stop_loss_pct,
                        self.config.take_profit_pct,
                    ),
                )
            },
            None => None,
        }
    }

    /// Opens a position on `side` at the current price at `now`.
    fn enter(&mut self, side: Side, now: u64)
        ensures
            final(self)@ == after_entry(old(self)@, side, now),
    {
        let notional = fx_mul(self.config.trade_size_usdt, self.config.leverage);
        let p = open_position(
            side,
            self.state.btc_price,
            self.state.cvd,
            self.config.leverage,
            self.config.trade_size_usdt,
            notional,
            self.config.fee_rate,
            self.state.local_high_60s,
            self.state.local_low_60s,
        );
        self.state.system_status = match side {
            Side::Long => SystemStatus::Long,
            Side::Short => SystemStatus::Short,
        };
        self.state.position = Some(p);
        self.pos_entry_time = Some(now);
    }

    /// Applies the entry rules at `now`.
    pub fn check_rules(&mut self, now: u64)
        ensures
            final(self)@ == after_entry_check(old(self)@, now),
    {
        if self.state.position.is_some() || self.state.btc_price == 0 {
            return;
        }
        if self.state.obi > OBI_LONG && self.state.cvd_slope_5s > 0 {
            self.enter(Side::Long, now);
        } else if self.state.obi < OBI_SHORT && self.state.cvd_slope_5s < 0 {
            self.enter(Side::Short, now);
        }
    }
}

fn make_closed_trade(p: &Position, c: &EngineConfig, exit_price: i128, reason: ExitReason) -> (r: ClosedTrade)
    ensures
        r == closed_trade(*p, *c, exit_price, reason),
{
    ClosedTrade {
        side: p.side,
        leverage: c.leverage,
        entry_price: p.entry_price,
        exit_price,
        invested: c.trade_size_usdt,
        gross_pnl: p.gross_unrealized_pnl,
        fee: p.est_fee,
        pnl: p.net_unrealized_pnl,
        pnl_percent: p.unrealized_roe_pct,
        duration_seconds: p.elapsed_seconds,
        exit_reason: reason,
    }
}

proof fn lemma_market_data_well_formed(m: EngineModel, tick: MarketTick, now: u64)
    requires
        m.well_formed(),
    ensures
        after_market_data(m, tick, now).well_formed(),
        after_market_data(m, tick, now).state.position == m.state.position,
        after_market_data(m, tick, now).config == m.config,
        after_market_data(m, tick, now).last_exit_time == m.last_exit_time,
        after_market_data(m, tick, now).pos_entry_time == m.pos_entry_time,
        after_market_data(m, tick, now).state.total_trades_count == m.state.total_trades_count,
        after_market_data(m, tick, now).state.closed_trades == m.state.closed_trades,
{
    match tick {
        MarketTick::AggTrade(d) => {
            let p = read_number(d.price);
            if p.sign > 0 {
                if let Some(s) = d.price {
                    lemma_positive_reading(s@, 8);
                }
            }
        },
        MarketTick::BookTicker(d) => {
            let bid = read_number(d.bid);
            let ask = read_number(d.ask);
            if ask.sign > 0 && bid.sign > 0 {
                if let Some(s) = d.bid {
                    lemma_positive_reading(s@, 8);
                }
                if let Some(s) = d.ask {
                    lemma_positive_reading(s@, 8);
                }
            }
        },
        MarketTick::Depth(_) => {},
        MarketTick::MarkPrice(_) => {},
    }
}

/// The win rate of `wins` out of `total` trades lies between 0 and 100 %.
proof fn lemma_win_rate_bounds(wins: usize, total: usize)
    requires
        wins <= total,
        total > 0,
    ensures
        0 <= smul(fdiv(count_fixed(wins), count_fixed(total)), 100) <= 100 * SCALE,
{
    let w = wins as int;
    let t = total as int;
    let s = SCALE as int;
    assert(0 <= w * s <= t * s && t * s <= 0x1_0000_0000_0000_0000 * 0x1000_0000 && t * s > 0)
        by (nonlinear_arith)
        requires
            0 <= w <= t,
            0 < t <= 0xffff_ffff_ffff_ffff,
            s == 100_000_000,
    ;
    let a = w * s;
    let b = t * s;
    assert(count_fixed(wins) == a);
    assert(count_fixed(total) == b);
    assert(0 <= a * s <= b * s && a * s <= 0x1_0000_0000_0000_0000 * 0x1000_0000 * 0x1000_0000) by (nonlinear_arith)
        requires
            0 <= a <= b,
            b <= 0x1_0000_0000_0000_0000 * 0x1000_0000,
            s == 100_000_000,
    ;
    assert(0 <= (a * s) / b <= s) by (nonlinear_arith)
        requires
            0 <= a * s <= b * s,
            b > 0,
            s > 0,
    ;
    assert(fdiv(count_fixed(wins), count_fixed(total)) == (a * s) / b);
}

proof fn lemma_position_update_well_formed(m: EngineModel, now: u64)
    requires
        m.well_formed(),
    ensures
        after_position_update(m, now).0.well_formed(),
        after_position_update(m, now).0.config == m.config,
        after_position_update(m, now).0.state.btc_price == m.state.btc_price,
{
    if let (Some(pos), Some(t)) = (m.state.position, m.pos_entry_time) {
        let total = inc_count(m.state.total_trades_count);
        lemma_win_rate_bounds(m.wins_count, total);
        if m.wins_count < usize::MAX {
            lemma_win_rate_bounds((m.wins_count + 1) as usize, total);
        }
    }
}

proof fn lemma_entry_check_well_formed(m: EngineModel, now: u64)
    requires
        m.well_formed(),
    ensures
        after_entry_check(m, now).well_formed(),
        after_entry_check(m, now).config == m.config,
        after_entry_check(m, now).state.closed_trades == m.state.closed_trades,
{
}

/// Every step keeps the engine well formed.
pub proof fn lemma_tick_keeps_well_formed(m: EngineModel, tick: MarketTick, now: u64)
    requires
        m.well_formed(),
    ensures
        after_tick(m, tick, now).0.well_formed(),
{
    lemma_market_data_well_formed(m, tick, now);
    let m1 = after_market_data(m, tick, now);
    lemma_position_update_well_formed(m1, now);
    lemma_entry_check_well_formed(after_position_update(m1, now).0, now);
}

/// A tick never closes a trade while no position is open.
pub proof fn lemma_no_position_no_exit(m: EngineModel, tick: MarketTick, now: u64)
    requires
        m.well_formed(),
        m.state.position.is_none(),
    ensures
        after_tick(m, tick, now).1.is_none(),
{
    lemma_market_data_well_formed(m, tick, now);
}

/// With no position open, a tick opens a long exactly when, on the data
/// after the tick, a price is known, the order book imbalance is above 1.50
/// and the CVD slope is positive; it opens a short exactly when a price is
/// known, the imbalance is below 0.67 and the slope is negative. The position
/// is entered at the current price.
pub proof fn lemma_entry_rule(m: EngineModel, tick: MarketTick, now: u64)
    requires
        m.well_formed(),
        m.state.position.is_none(),
    ensures
        ({
            let m1 = after_market_data(m, tick, now);
            let opened = after_tick(m, tick, now).0.state.position;
            &&& (opened matches Some(p) && p.side == Side::Long) <==> (m1.state.btc_price > 0
                && m1.state.obi > OBI_LONG && m1.state.cvd_slope_5s > 0)
            &&& (opened matches Some(p) && p.side == Side::Short) <==> (m1.state.btc_price > 0
                && m1.state.obi < OBI_SHORT && m1.state.cvd_slope_5s < 0)
            &&& opened matches Some(p) ==> p.entry_price == m1.state.btc_price
            &&& after_tick(m, tick, now).1 is None
        }),
{
    lemma_market_data_well_formed(m, tick, now);
}

/// Every trade and snapshot the engine holds was recorded at or before `now`.
pub open spec fn history_before(m: EngineModel, now: u64) -> bool {
    &&& forall|i: int| 0 <= i < m.trade_events.len() ==> #[trigger] m.trade_events[i].timestamp_ms <= now
    &&& forall|i: int| 0 <= i < m.cvd_history.len() ==> #[trigger] m.cvd_history[i].timestamp_ms <= now
}

/// A tick that carries a trade with a positive price.
pub open spec fn priced_trade(tick: MarketTick) -> bool {
    tick matches MarketTick::AggTrade(d) && read_number(d.price).sign > 0
}

proof fn lemma_push_trade_in_order(es: Seq<TradeEvent>, e: TradeEvent)
    requires
        trades_in_order(es),
        forall|i: int| 0 <= i < es.len() ==> #[trigger] es[i].timestamp_ms <= e.timestamp_ms,
    ensures
        trades_in_order(es.push(e)),
{
    assert forall|i: int, j: int| 0 <= i <= j < es.push(e).len() implies es.push(e)[i].timestamp_ms
        <= es.push(e)[j].timestamp_ms by {
        if j < es.len() {
            assert(es.push(e)[i] == es[i]);
            assert(es.push(e)[j] == es[j]);
        } else if i < es.len() {
            assert(es.push(e)[i] == es[i]);
        }
    }
}

proof fn lemma_push_snapshot_in_order(hs: Seq<CvdSnapshot>, h: CvdSnapshot)
    requires
        snapshots_in_order(hs),
        forall|i: int| 0 <= i < hs.len() ==> #[trigger] hs[i].timestamp_ms <= h.timestamp_ms,
    ensures
        snapshots_in_order(hs.push(h)),
{
    assert forall|i: int, j: int| 0 <= i <= j < hs.push(h).len() implies hs.push(h)[i].timestamp_ms
        <= hs.push(h)[j].timestamp_ms by {
        if j < hs.len() {
            assert(hs.push(h)[i] == hs[i]);
            assert(hs.push(h)[j] == hs[j]);
        } else if i < hs.len() {
            assert(hs.push(h)[i] == hs[i]);
        }
    }
}

/// Marking the position and the entry rules leave the histories alone.
proof fn lemma_tick_keeps_history(m: EngineModel, tick: MarketTick, now: u64)
    ensures
        after_tick(m, tick, now).0.trade_events == after_market_data(m, tick, now).trade_events,
        after_tick(m, tick, now).0.cvd_history == after_market_data(m, tick, now).cvd_history,
{
    let m1 = after_market_data(m, tick, now);
    let m2 = after_position_update(m1, now).0;
    assert(m2.trade_events == m1.trade_events && m2.cvd_history == m1.cvd_history);
}

/// What a priced trade does to the histories, under times that never go back.
proof fn lemma_trade_history(m: EngineModel, d: AggTradeData, now: u64, later: u64)
    requires
        read_number(d.price).sign > 0,
        trades_in_order(m.trade_events),
        snapshots_in_order(m.cvd_history),
        history_before(m, now),
        now <= later,
    ensures
        ({
            let m1 = after_trade(m, d, now);
            &&& trades_in_order(m1.trade_events)
            &&& snapshots_in_order(m1.cvd_history)
            &&& history_before(m1, later)
            &&& forall|i: int|
                0 <= i < m1.trade_events.len() ==> age_ms(now, #[trigger] m1.trade_events[i].timestamp_ms)
                    / 1000 <= TRADE_RETENTION_S
            &&& forall|i: int|
                0 <= i < m1.cvd_history.len() ==> age_ms(now, #[trigger] m1.cvd_history[i].timestamp_ms)
                    / 1000 <= CVD_RETENTION_S
        }),
{
    let m1 = after_trade(m, d, now);
    let price = read_number(d.price).value as i128;
    let qty = read_number(d.qty).value as i128;
    let maker = match d.is_buyer_maker {
        Some(b) => b,
        None => false,
    };
    let cvd = if maker {
        ssub(m.state.cvd, qty)
    } else {
        sadd(m.state.cvd, qty)
    };
    let e = TradeEvent { timestamp_ms: now, price, qty };
    let h = CvdSnapshot { timestamp_ms: now, cvd };
    let es = m.trade_events.push(e);
    let hs = m.cvd_history.push(h);
    lemma_push_trade_in_order(m.trade_events, e);
    lemma_push_snapshot_in_order(m.cvd_history, h);
    lemma_retained_trades(es, now, TRADE_RETENTION_S);
    lemma_retained_snapshots(hs, now, CVD_RETENTION_S);
    let re = drop_old_trades(es, now, TRADE_RETENTION_S);
    let rh = drop_old_snapshots(hs, now, CVD_RETENTION_S);
    assert(m1.trade_events == re);
    assert(m1.cvd_history == rh);
    assert forall|i: int, j: int| 0 <= i <= j < re.len() implies re[i].timestamp_ms <= re[j].timestamp_ms by {
        assert(re[i] == es[es.len() - re.len() + i]);
        assert(re[j] == es[es.len() - re.len() + j]);
    }
    assert forall|i: int, j: int| 0 <= i <= j < rh.len() implies rh[i].timestamp_ms <= rh[j].timestamp_ms by {
        assert(rh[i] == hs[hs.len() - rh.len() + i]);
        assert(rh[j] == hs[hs.len() - rh.len() + j]);
    }
    assert forall|i: int| 0 <= i < re.len() implies #[trigger] re[i].timestamp_ms <= later by {
        let k = es.len() - re.len() + i;
        assert(re[i] == es[k]);
        if k < m.trade_events.len() {
            assert(es[k] == m.trade_events[k]);
        }
    }
    assert forall|i: int| 0 <= i < rh.len() implies #[trigger] rh[i].timestamp_ms <= later by {
        let k = hs.len() - rh.len() + i;
        assert(rh[i] == hs[k]);
        if k < m.cvd_history.len() {
            assert(hs[k] == m.cvd_history[k]);
        }
    }
}

/// With times that never go back, the engine keeps its trades and CVD
/// snapshots in time order; right after a priced trade, no trade it keeps is
/// more than five minutes old and no snapshot more than ten seconds (in whole
/// seconds).
pub proof fn lemma_history_recent(m: EngineModel, tick: MarketTick, now: u64, later: u64)
    requires
        trades_in_order(m.trade_events),
        snapshots_in_order(m.cvd_history),
        history_before(m, now),
        now <= later,
    ensures
        ({
            let m2 = after_tick(m, tick, now).0;
            &&& trades_in_order(m2.trade_events)
            &&& snapshots_in_order(m2.cvd_history)
            &&& history_before(m2, later)
            &&& priced_trade(tick) ==> forall|i: int|
                0 <= i < m2.trade_events.len() ==> age_ms(now, #[trigger] m2.trade_events[i].timestamp_ms)
                    / 1000 <= TRADE_RETENTION_S
            &&& priced_trade(tick) ==> forall|i: int|
                0 <= i < m2.cvd_history.len() ==> age_ms(now, #[trigger] m2.cvd_history[i].timestamp_ms)
                    / 1000 <= CVD_RETENTION_S
        }),
{
    lemma_tick_keeps_history(m, tick, now);
    match tick {
        MarketTick::AggTrade(d) => {
            if read_number(d.price).sign > 0 {
                lemma_trade_history(m, d, now, later);
            }
        },
        _ => {},
    }
}

/// The trade statistics move only with a closed trade: its net result joins
/// the total and today's result and the trade count goes up by one; a tick
/// that closes nothing leaves them, and the list of closed trades, as they
/// were.
pub proof fn lemma_totals_follow_exits(m: EngineModel, tick: MarketTick, now: u64)
    requires
        m.well_formed(),
    ensures
        ({
            let (m2, closed) = after_tick(m, tick, now);
            match closed {
                Some((p, _)) => {
                    &&& m2.state.total_pnl == sadd(m.state.total_pnl, p.net_unrealized_pnl)
                    &&& m2.state.today_pnl == sadd(m.state.today_pnl, p.net_unrealized_pnl)
                    &&& m2.state.total_trades_count == inc_count(m.state.total_trades_count)
                },
                None => {
                    &&& m2.state.total_pnl == m.state.total_pnl
                    &&& m2.state.today_pnl == m.state.today_pnl
                    &&& m2.state.total_trades_count == m.state.total_trades_count
                    &&& m2.state.win_rate_pct == m.state.win_rate_pct
                    &&& m2.state.closed_trades == m.state.closed_trades
                },
            }
        }),
{
    lemma_market_data_well_formed(m, tick, now);
}

/// Settling a closed trade: a winning net result joins the gross profits, a
/// losing one joins the gross losses by its size; the profit factor is the
/// gross profits over the gross losses (the gross profits while there is no
/// loss), so it is at least 1 whenever the profits cover the losses; the
/// total and today's results move by the net result.
pub proof fn lemma_exit_statistics(m: EngineModel, p: Position, reason: ExitReason, now: u64)
    ensures
        ({
            let m2 = after_exit(m, p, reason, now);
            let net = p.net_unrealized_pnl;
            &&& net > 0 ==> m2.gross_profits == sadd(m.gross_profits, net) && m2.gross_losses == m.gross_losses
            &&& net <= 0 ==> m2.gross_profits == m.gross_profits && m2.gross_losses == sadd(
                m.gross_losses,
                ssub(0, net),
            )
            &&& m2.gross_losses > 0 ==> m2.state.profit_factor == fdiv(m2.gross_profits, m2.gross_losses)
            &&& m2.gross_losses == 0 ==> m2.state.profit_factor == m2.gross_profits
            &&& (0 < m2.gross_losses <= m2.gross_profits && m2.gross_profits <= i128::MAX / SCALE)
                ==> m2.state.profit_factor >= SCALE
            &&& (0 < m2.gross_profits < m2.gross_losses) ==> m2.state.profit_factor < SCALE
            &&& m2.state.total_pnl == sadd(m.state.total_pnl, net)
            &&& m2.state.today_pnl == sadd(m.state.today_pnl, net)
        }),
{
    let m2 = after_exit(m, p, reason, now);
    let a = m2.gross_profits as int;
    let b = m2.gross_losses as int;
    let s = SCALE as int;
    if 0 < b && b <= a && a <= i128::MAX / SCALE {
        assert(a * s <= i128::MAX && a * s >= b * s) by (nonlinear_arith)
            requires
                0 < b <= a,
                a <= i128::MAX / 100_000_000,
                s == 100_000_000,
        ;
        assert((a * s) / b >= s) by (nonlinear_arith)
            requires
                a * s >= b * s,
                b > 0,
        ;
    }
    if 0 < a && a < b {
        assert(a * s < b * s) by (nonlinear_arith)
            requires
                0 < a < b,
                s == 100_000_000,
        ;
        let c = if a * s > i128::MAX { i128::MAX as int } else { a * s };
        assert(c < b * s);
        assert(c / b < s) by (nonlinear_arith)
            requires
                0 <= c < b * s,
                b > 0,
        ;
    }
}

/// The engine after each tick in turn, each at its own time.
pub open spec fn after_ticks(m: EngineModel, ticks: Seq<(MarketTick, u64)>) -> EngineModel
    decreases ticks.len(),
{
    if ticks.len() == 0 {
        m
    } else {
        after_tick(after_ticks(m, ticks.drop_last()), ticks.last().0, ticks.last().1).0
    }
}

/// The CVD after one tick: a trade with a positive price moves it by its
/// quantity, down when the buyer made the market; nothing else moves it.
pub open spec fn cvd_step(cvd: i128, tick: MarketTick) -> i128 {
    match tick {
        MarketTick::AggTrade(d) => if read_number(d.price).sign > 0 {
            let qty = read_number(d.qty).value as i128;
            if d.is_buyer_maker == Some(true) {
                ssub(cvd, qty)
            } else {
                sadd(cvd, qty)
            }
        } else {
            cvd
        },
        _ => cvd,
    }
}

/// The CVD folded over the ticks in order, saturating at each step.
pub open spec fn cvd_over(cvd: i128, ticks: Seq<(MarketTick, u64)>) -> i128
    decreases ticks.len(),
{
    if ticks.len() == 0 {
        cvd
    } else {
        cvd_step(cvd_over(cvd, ticks.drop_last()), ticks.last().0)
    }
}

proof fn lemma_tick_cvd(m: EngineModel, tick: MarketTick, now: u64)
    ensures
        after_tick(m, tick, now).0.state.cvd == cvd_step(m.state.cvd, tick),
{
    let m1 = after_market_data(m, tick, now);
    assert(m1.state.cvd == cvd_step(m.state.cvd, tick));
    assert(after_position_update(m1, now).0.state.cvd == m1.state.cvd);
}

/// Over any run of ticks, the CVD is the signed sum (saturating at each
/// step) of the quantities of the trades with a positive price: added for
/// a taker buy, subtracted when the buyer made the market.
pub proof fn lemma_cvd_sums_trades(m: EngineModel, ticks: Seq<(MarketTick, u64)>)
    ensures
        after_ticks(m, ticks).state.cvd == cvd_over(m.state.cvd, ticks),
    decreases ticks.len(),
{
    if ticks.len() > 0 {
        lemma_cvd_sums_trades(m, ticks.drop_last());
        lemma_tick_cvd(after_ticks(m, ticks.drop_last()), ticks.last().0, ticks.last().1);
    }
}

/// The entry rules change nothing while a position is open (it is never
/// replaced) or while no price is known.
pub proof fn lemma_open_position_kept(m: EngineModel, now: u64)
    requires
        m.state.position.is_some() || m.state.btc_price == 0,
    ensures
        after_entry_check(m, now) == m,
{
}

/// A position is closed by the first tick ten or more seconds after its
/// entry (for the holding time, unless an earlier rule closes it on the same
/// tick); before that, it is closed only by a stop loss or a take profit.
pub proof fn lemma_closed_after_hold(m: EngineModel, tick: MarketTick, now: u64)
    requires
        m.well_formed(),
        m.state.position is Some,
    ensures
        (m.pos_entry_time matches Some(t) && age_ms(now, t) / 1000 >= HOLD_SECONDS)
            ==> after_tick(m, tick, now).1 is Some,
        after_tick(m, tick, now).1 matches Some((p, reason)) ==> (reason == ExitReason::TimeLimit
            ==> p.elapsed_seconds >= HOLD_SECONDS),
{
    lemma_market_data_well_formed(m, tick, now);
}

/// Marking an open position at `now`: it is closed once ten or more seconds
/// have passed since entry (for the holding time unless an earlier rule
/// holds), the closed trade is counted and put first, and a position that
/// stays open has a peak CVD that never falls and a trough that never rises.
pub proof fn lemma_position_update(m: EngineModel, now: u64)
    requires
        m.well_formed(),
        m.state.position is Some,
    ensures
        ({
            let p0 = m.state.position->0;
            let (m2, closed) = after_position_update(m, now);
            &&& (m.pos_entry_time matches Some(t) && age_ms(now, t) / 1000 >= HOLD_SECONDS) ==> closed is Some
            &&& closed matches Some((p, reason)) ==> {
                &&& m2.state.position is None
                &&& m2.state.system_status == SystemStatus::Waiting
                &&& m2.state.total_trades_count == inc_count(m.state.total_trades_count)
                &&& m2.state.closed_trades[0] == closed_trade(p, m.config, m.state.btc_price, reason)
                &&& (reason == ExitReason::TimeLimit ==> p.elapsed_seconds >= HOLD_SECONDS)
            }
            &&& closed is None ==> {
                &&& m2.state.position matches Some(p1)
                &&& p1.peak_cvd == (if m.state.cvd > p0.peak_cvd { m.state.cvd } else { p0.peak_cvd })
                &&& p1.trough_cvd == (if m.state.cvd < p0.trough_cvd { m.state.cvd } else { p0.trough_cvd })
                &&& p1.peak_cvd >= p0.peak_cvd
                &&& p1.trough_cvd <= p0.trough_cvd
            }
        }),
{
}

/// While a position stays open through a tick, its peak CVD is the larger of
/// the old peak and the CVD after the tick, and its trough the smaller: the
/// peak never falls and the trough never rises.
pub proof fn lemma_peak_trough_follow_cvd(m: EngineModel, tick: MarketTick, now: u64)
    requires
        m.well_formed(),
        m.state.position is Some,
        after_tick(m, tick, now).1 is None,
    ensures
        ({
            let p0 = m.state.position->0;
            let cvd = after_market_data(m, tick, now).state.cvd;
            let p1 = after_tick(m, tick, now).0.state.position;
            &&& p1 is Some
            &&& p1->0.peak_cvd == (if cvd > p0.peak_cvd { cvd } else { p0.peak_cvd })
            &&& p1->0.trough_cvd == (if cvd < p0.trough_cvd { cvd } else { p0.trough_cvd })
            &&& p1->0.peak_cvd >= p0.peak_cvd
            &&& p1->0.trough_cvd <= p0.trough_cvd
        }),
{
    lemma_market_data_well_formed(m, tick, now);
}

/// A tick that closes a trade counts it, puts it first among the closed
/// trades and records the exit time.
pub proof fn lemma_exit_recorded(m: EngineModel, tick: MarketTick, now: u64)
    requires
        m.well_formed(),
        after_tick(m, tick, now).1.is_some(),
    ensures
        ({
            let m1 = after_market_data(m, tick, now);
            let (m2, closed) = after_tick(m, tick, now);
            let (p, reason) = closed->0;
            &&& m2.last_exit_time == Some(now)
            &&& m2.state.total_trades_count == inc_count(m.state.total_trades_count)
            &&& m2.state.closed_trades.len() > 0
            &&& m2.state.closed_trades[0] == closed_trade(p, m.config, m1.state.btc_price, reason)
        }),
{
    lemma_market_data_well_formed(m, tick, now);
    let m1 = after_market_data(m, tick, now);
}

} // verus!
