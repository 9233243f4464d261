use scalper::fixed::SCALE;
use scalper::logger::{header_row, record_row, sheet_rows, CellStyle, CellValue, TradeRecord};
use scalper::market::{stream_urls, ExitReason, MarketType, Side, SystemStatus};
use scalper::text::{exit_reason_text, format_fixed, market_text, side_text, status_text};

#[test]
fn formats_fixed_point_numbers() {
    assert_eq!(format_fixed(7_000_000, 2), "0.07");
    assert_eq!(format_fixed(15_000_000, 2), "0.15");
    assert_eq!(format_fixed(500_000_000, 0), "5");
    // ties go to the even neighbour
    assert_eq!(format_fixed(250_000_000, 0), "2");
    assert_eq!(format_fixed(350_000_000, 0), "4");
    assert_eq!(format_fixed(12_500_000, 2), "0.12");
    assert_eq!(format_fixed(13_500_000, 2), "0.14");
    assert_eq!(format_fixed(-12_500_000, 2), "-0.12");
    assert_eq!(format_fixed(12_500_001, 2), "0.13");
    assert_eq!(format_fixed(-99_480_197, 2), "-0.99");
    assert_eq!(format_fixed(-100_000, 2), "-0.00");
    assert_eq!(format_fixed(123_456_789_012, 8), "1234.56789012");
    assert_eq!(format_fixed(5 * SCALE + 5_000_000, 1), "5.0");
    assert_eq!(format_fixed(5 * SCALE + 15_000_000, 1), "5.2");
    assert_eq!(format_fixed(0, 3), "0.000");
}

#[test]
fn names_of_states() {
    assert_eq!(status_text(SystemStatus::Waiting), "WAITING");
    assert_eq!(status_text(SystemStatus::Long), "LONG");
    assert_eq!(status_text(SystemStatus::Short), "SHORT");
    assert_eq!(side_text(Side::Short), "SHORT");
    assert_eq!(market_text(MarketType::Futures), "FUTURES");
    assert_eq!(market_text(MarketType::Spot), "SPOT");
}

#[test]
fn exit_reasons_read_with_thresholds() {
    assert_eq!(exit_reason_text(ExitReason::StopLoss, 7_000_000, 15_000_000), "Stop Loss (-0.07%)");
    assert_eq!(exit_reason_text(ExitReason::TakeProfit, 7_000_000, 15_000_000), "Take Profit (+0.15%)");
    assert_eq!(exit_reason_text(ExitReason::TimeLimit, 0, 0), "Time Exit (10s)");
    assert_eq!(exit_reason_text(ExitReason::StopLoss, 12_500_000, 0), "Stop Loss (-0.12%)");
}

#[test]
fn stream_addresses_by_market() {
    let f = stream_urls(MarketType::Futures);
    assert_eq!(f.agg_trade, "wss://fstream.binance.com/market/ws/btcusdt@aggTrade");
    assert_eq!(f.book_ticker, "wss://fstream.binance.com/market/ws/btcusdt@bookTicker");
    assert_eq!(f.depth, "wss://fstream.binance.com/market/ws/btcusdt@depth20@100ms");
    assert_eq!(f.mark_price, Some("wss://fstream.binance.com/market/ws/btcusdt@markPrice@1s"));
    let s = stream_urls(MarketType::Spot);
    assert_eq!(s.agg_trade, "wss://stream.binance.com:9443/ws/btcusdt@aggTrade");
    assert_eq!(s.depth, "wss://stream.binance.com:9443/ws/btcusdt@depth20@100ms");
    assert_eq!(s.mark_price, None);
}

fn text_of(v: &CellValue) -> String {
    match v {
        CellValue::Text(s) => s.clone(),
        CellValue::Number(n) => format!("#{}", n),
    }
}

#[test]
fn header_row_titles() {
    let row = header_row();
    assert_eq!(row.len(), 15);
    assert_eq!(text_of(&row[0].value), "Timestamp");
    assert_eq!(text_of(&row[11].value), "Binance Fee ($)");
    assert_eq!(text_of(&row[14].value), "Exit Reason");
    assert!(row.iter().all(|c| c.style == CellStyle::Header));
    assert_eq!(row[13].col, 13);
}

fn sample_record(timestamp: &str, net: i128) -> TradeRecord {
    TradeRecord {
        timestamp: timestamp.to_string(),
        symbol: "BTCUSDT".to_string(),
        side: Side::Short,
        leverage: 5 * SCALE,
        invested_usdt: 100 * SCALE,
        notional_usdt: 500 * SCALE,
        quantity: SCALE,
        entry_price: 100 * SCALE,
        exit_price: 100 * SCALE,
        duration_seconds: 1,
        gross_pnl_usdt: 0,
        fees_usdt: 0,
        net_pnl_usdt: net,
        pnl_percent: 0,
        exit_reason: "Time Exit (10s)".to_string(),
    }
}

#[test]
fn sheet_has_header_then_records_in_order() {
    let rows = sheet_rows(&vec![sample_record("first", 1), sample_record("second", -1)]);
    assert_eq!(rows.len(), 3);
    assert_eq!(text_of(&rows[0][0].value), "Timestamp");
    assert_eq!(text_of(&rows[1][0].value), "first");
    assert_eq!(text_of(&rows[2][0].value), "second");
    assert_eq!(text_of(&rows[2][2].value), "SHORT");
    assert_eq!(rows[1][12].style, CellStyle::GainCurrency);
    assert_eq!(rows[2][12].style, CellStyle::LossCurrency);
    assert_eq!(sheet_rows(&vec![]).len(), 1);
}

#[test]
fn record_row_layout() {
    let r = TradeRecord {
        timestamp: "2024-01-01 00:00:00".to_string(),
        symbol: "BTCUSDT".to_string(),
        side: Side::Long,
        leverage: 5 * SCALE,
        invested_usdt: 100 * SCALE,
        notional_usdt: 500 * SCALE,
        quantity: 495_049_504,
        entry_price: 101 * SCALE,
        exit_price: 10_090_000_000,
        duration_seconds: 12,
        gross_pnl_usdt: -49_504_950,
        fees_usdt: 49_975_247,
        net_pnl_usdt: 3,
        pnl_percent: -99_480_100,
        exit_reason: "Stop Loss (-0.07%)".to_string(),
    };
    let row = record_row(&r);
    assert_eq!(row.len(), 15);
    assert_eq!(text_of(&row[2].value), "LONG");
    assert_eq!(text_of(&row[3].value), "5x");
    assert_eq!(text_of(&row[9].value), format!("#{}", 12 * SCALE));
    assert_eq!(row[9].style, CellStyle::Center);
    assert_eq!(row[10].style, CellStyle::LossCurrency);
    assert_eq!(row[12].style, CellStyle::GainCurrency);
    assert_eq!(text_of(&row[13].value), "#-994801");
    assert_eq!(row[13].style, CellStyle::LossPercent);
    assert_eq!(row[6].style, CellStyle::Crypto);
    assert_eq!(text_of(&row[14].value), "Stop Loss (-0.07%)");
}
