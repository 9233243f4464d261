//! The data that the strategy engine reads and publishes.
//!
//! Prices, quantities, amounts of USDT, percentages and ratios are fixed-point
//! numbers with eight decimal places (see `fixed`). Times are milliseconds on a
//! monotonic clock that the caller reads.
use vstd::prelude::*;
use crate::orderbook::DepthSnapshot;

verus! {

/// The direction of a position.
#[derive(Clone, Copy, Debug, PartialEq, Eq, Structural)]
pub enum Side {
    Long,
    Short,
}

/// What the engine is doing: waiting for an entry or holding a position.
#[derive(Clone, Copy, Debug, PartialEq, Eq, Structural)]
pub enum SystemStatus {
    Waiting,
    Long,
    Short,
}

/// The market the engine trades in.
#[derive(Clone, Copy, Debug, PartialEq, Eq, Structural)]
pub enum MarketType {
    Futures,
    Spot,
}

/// Why a position was closed.
#[derive(Clone, Copy, Debug, PartialEq, Eq, Structural)]
pub enum ExitReason {
    StopLoss,
    TakeProfit,
    /// The position reached its holding time.
    TimeLimit,
}

/// The status that holding a position on `side` shows.
pub open spec fn status_of(side: Side) -> SystemStatus {
    match side {
        Side::Long => SystemStatus::Long,
        Side::Short => SystemStatus::Short,
    }
}

/// The open (virtual) position.
#[derive(Clone, Copy, Debug)]
pub struct Position {
    pub side: Side,
    pub leverage: i128,
    pub margin_usdt: i128,
    pub entry_notional: i128,
    pub current_notional: i128,
    pub entry_price: i128,
    pub quantity: i128,
    pub price_change: i128,
    pub price_change_pct: i128,
    pub gross_unrealized_pnl: i128,
    pub est_fee: i128,
    pub net_unrealized_pnl: i128,
    pub unrealized_roe_pct: i128,
    pub elapsed_seconds: i64,
    pub peak_cvd: i128,
    pub trough_cvd: i128,
    pub entry_local_high: i128,
    pub entry_local_low: i128,
}

/// A position after it was closed.
#[derive(Clone, Copy, Debug)]
pub struct ClosedTrade {
    pub side: Side,
    pub leverage: i128,
    pub entry_price: i128,
    pub exit_price: i128,
    pub invested: i128,
    pub gross_pnl: i128,
    pub fee: i128,
    pub pnl: i128,
    pub pnl_percent: i128,
    pub duration_seconds: i64,
    pub exit_reason: ExitReason,
}

/// Everything the dashboard shows.
#[derive(Debug)]
pub struct MarketState {
    pub btc_price: i128,
    pub mark_price: i128,
    pub spread: i128,
    pub spread_pct: i128,
    pub cvd: i128,
    pub cvd_slope_5s: i128,
    pub volume_30s: i128,
    pub avg_volume_30s: i128,
    pub volume_ratio: i128,
    pub local_high_60s: i128,
    pub local_low_60s: i128,
    /// The order book imbalance: bid volume over ask volume of the best
    /// levels.
    pub obi: i128,
    pub position: Option<Position>,
    /// The ten most recent closed trades, newest first.
    pub closed_trades: Vec<ClosedTrade>,
    pub total_pnl: i128,
    pub today_pnl: i128,
    pub win_rate_pct: i128,
    pub profit_factor: i128,
    pub total_trades_count: usize,
    pub consecutive_losses: usize,
    pub daily_drawdown_pct: i128,
    pub system_status: SystemStatus,
    pub market_type: MarketType,
    pub fee_rate_pct: i128,
}

/// `MarketState` with its list of closed trades as a sequence.
pub struct MarketView {
    pub btc_price: i128,
    pub mark_price: i128,
    pub spread: i128,
    pub spread_pct: i128,
    pub cvd: i128,
    pub cvd_slope_5s: i128,
    pub volume_30s: i128,
    pub avg_volume_30s: i128,
    pub volume_ratio: i128,
    pub local_high_60s: i128,
    pub local_low_60s: i128,
    pub obi: i128,
    pub position: Option<Position>,
    pub closed_trades: Seq<ClosedTrade>,
    pub total_pnl: i128,
    pub today_pnl: i128,
    pub win_rate_pct: i128,
    pub profit_factor: i128,
    pub total_trades_count: usize,
    pub consecutive_losses: usize,
    pub daily_drawdown_pct: i128,
    pub system_status: SystemStatus,
    pub market_type: MarketType,
    pub fee_rate_pct: i128,
}

impl View for MarketState {
    type V = MarketView;

    open spec fn view(&self) -> MarketView {
        MarketView {
            btc_price: self.btc_price,
            mark_price: self.mark_price,
            spread: self.spread,
            spread_pct: self.spread_pct,
            cvd: self.cvd,
            cvd_slope_5s: self.cvd_slope_5s,
            volume_30s: self.volume_30s,
            avg_volume_30s: self.avg_volume_30s,
            volume_ratio: self.volume_ratio,
            local_high_60s: self.local_high_60s,
            local_low_60s: self.local_low_60s,
            obi: self.obi,
            position: self.position,
            closed_trades: self.closed_trades@,
            total_pnl: self.total_pnl,
            today_pnl: self.today_pnl,
            win_rate_pct: self.win_rate_pct,
            profit_factor: self.profit_factor,
            total_trades_count: self.total_trades_count,
            consecutive_losses: self.consecutive_losses,
            daily_drawdown_pct: self.daily_drawdown_pct,
            system_status: self.system_status,
            market_type: self.market_type,
            fee_rate_pct: self.fee_rate_pct,
        }
    }
}

/// The state before any market data: everything zero but a balanced order
/// book imbalance of 1, waiting, on futures with a fee of 0.05 %.
pub open spec fn initial_market_view() -> MarketView {
    MarketView {
        btc_price: 0,
        mark_price: 0,
        spread: 0,
        spread_pct: 0,
        cvd: 0,
        cvd_slope_5s: 0,
        volume_30s: 0,
        avg_volume_30s: 0,
        volume_ratio: 0,
        local_high_60s: 0,
        local_low_60s: 0,
        obi: 100_000_000,
        position: None,
        closed_trades: Seq::empty(),
        total_pnl: 0,
        today_pnl: 0,
        win_rate_pct: 0,
        profit_factor: 0,
        total_trades_count: 0,
        consecutive_losses: 0,
        daily_drawdown_pct: 0,
        system_status: SystemStatus::Waiting,
        market_type: MarketType::Futures,
        fee_rate_pct: 5_000_000,
    }
}

impl Default for MarketState {
    fn default() -> (r: Self)
        ensures
            r@ == initial_market_view(),
    {
        MarketState {
            btc_price: 0,
            mark_price: 0,
            spread: 0,
            spread_pct: 0,
            cvd: 0,
            cvd_slope_5s: 0,
            volume_30s: 0,
            avg_volume_30s: 0,
            volume_ratio: 0,
            local_high_60s: 0,
            local_low_60s: 0,
            obi: 100_000_000,
            position: None,
            closed_trades: Vec::new(),
            total_pnl: 0,
            today_pnl: 0,
            win_rate_pct: 0,
            profit_factor: 0,
            total_trades_count: 0,
            consecutive_losses: 0,
            daily_drawdown_pct: 0,
            system_status: SystemStatus::Waiting,
            market_type: MarketType::Futures,
            fee_rate_pct: 5_000_000,
        }
    }
}

/// One trade as the engine remembers it.
#[derive(Clone, Copy, Debug)]
pub struct TradeEvent {
    pub timestamp_ms: u64,
    pub price: i128,
    pub qty: i128,
}

/// The cumulative volume delta at one moment.
#[derive(Clone, Copy, Debug)]
pub struct CvdSnapshot {
    pub timestamp_ms: u64,
    pub cvd: i128,
}

/// The fields of an aggregated-trade message that the engine reads.
#[derive(Debug)]
pub struct AggTradeData {
    /// `p`, when it is a string.
    pub price: Option<String>,
    /// `q`, when it is a string.
    pub qty: Option<String>,
    /// `m`, when it is a boolean.
    pub is_buyer_maker: Option<bool>,
}

/// The fields of a best-bid/ask message that the engine reads.
#[derive(Debug)]
pub struct BookTickerData {
    /// `b`, when it is a string.
    pub bid: Option<String>,
    /// `a`, when it is a string.
    pub ask: Option<String>,
}

/// The field of a mark-price message that the engine reads.
#[derive(Debug)]
pub struct MarkPriceData {
    /// `p`, when it is a string.
    pub price: Option<String>,
}

/// A market data message.
#[derive(Debug)]
pub enum MarketTick {
    AggTrade(AggTradeData),
    BookTicker(BookTickerData),
    /// The best levels of the order book, as a snapshot.
    Depth(DepthSnapshot),
    MarkPrice(MarkPriceData),
}

/// The stream addresses of a market.
#[derive(Clone, Copy, Debug)]
pub struct StreamUrls {
    pub agg_trade: &'static str,
    pub book_ticker: &'static str,
    /// The best twenty levels of the book, every 100 ms.
    pub depth: &'static str,
    /// The mark price, which only the futures market has.
    pub mark_price: Option<&'static str>,
}

/// The aggregated-trade, best-bid/ask, depth and mark-price stream addresses
/// of a market.
pub open spec fn stream_addresses(market: MarketType) -> (Seq<char>, Seq<char>, Seq<char>, Option<Seq<char>>) {
    match market {
        MarketType::Futures => (
            "wss://fstream.binance.com/market/ws/btcusdt@aggTrade"@,
            "wss://fstream.binance.com/market/ws/btcusdt@bookTicker"@,
            "wss://fstream.binance.com/market/ws/btcusdt@depth20@100ms"@,
            Some("wss://fstream.binance.com/market/ws/btcusdt@markPrice@1s"@),
        ),
        MarketType::Spot => (
            "wss://stream.binance.com:9443/ws/btcusdt@aggTrade"@,
            "wss://stream.binance.com:9443/ws/btcusdt@bookTicker"@,
            "wss://stream.binance.com:9443/ws/btcusdt@depth20@100ms"@,
            None,
        ),
    }
}

/// The stream addresses to connect to for a market.
pub fn stream_urls(market: MarketType) -> (r: StreamUrls)
    ensures
        (r.agg_trade@, r.book_ticker@, r.depth@, match r.mark_price {
            Some(u) => Some(u@),
            None => None,
        }) == stream_addresses(market),
{
    match market {
        MarketType::Futures => StreamUrls {
            agg_trade: "wss://fstream.binance.com/market/ws/btcusdt@aggTrade",
            book_ticker: "wss://fstream.binance.com/market/ws/btcusdt@bookTicker",
            depth: "wss://fstream.binance.com/market/ws/btcusdt@depth20@100ms",
            mark_price: Some("wss://fstream.binance.com/market/ws/btcusdt@markPrice@1s"),
        },
        MarketType::Spot => StreamUrls {
            agg_trade: "wss://stream.binance.com:9443/ws/btcusdt@aggTrade",
            book_ticker: "wss://stream.binance.com:9443/ws/btcusdt@bookTicker",
            depth: "wss://stream.binance.com:9443/ws/btcusdt@depth20@100ms",
            mark_price: None,
        },
    }
}

} // verus!
