//! The record of a closed trade that goes to the trade log, and how a row of
//! the log sheet is laid out.
use vstd::prelude::*;
use vstd::string::StringExecFns;
use crate::fixed::{quot, sat_mul, smul, squot, SCALE};
use crate::market::{ClosedTrade, Position, Side};
use crate::text::{exit_reason_name, exit_reason_text, fixed_text, format_fixed, side_name, side_text};

verus! {

/// One closed trade as the trade log keeps it.
#[derive(Debug)]
pub struct TradeRecord {
    /// Local time of the exit, `YYYY-MM-DD HH:MM:SS`; the engine leaves it
    /// empty for the caller, which reads the clock.
    pub timestamp: String,
    pub symbol: String,
    pub side: Side,
    pub leverage: i128,
    pub invested_usdt: i128,
    pub notional_usdt: i128,
    pub quantity: i128,
    pub entry_price: i128,
    pub exit_price: i128,
    pub duration_seconds: i64,
    pub gross_pnl_usdt: i128,
    pub fees_usdt: i128,
    pub net_pnl_usdt: i128,
    pub pnl_percent: i128,
    pub exit_reason: String,
}

/// `r` records the trade `t`, closed from the marked position `p`, on
/// `symbol`, with an empty timestamp; the exit reason is written with the
/// stop loss and take profit thresholds.
pub open spec fn records_trade(
    r: TradeRecord,
    t: ClosedTrade,
    p: Position,
    symbol: Seq<char>,
    stop_loss_pct: i128,
    take_profit_pct: i128,
) -> bool {
    &&& r.timestamp@ == Seq::<char>::empty()
    &&& r.symbol@ == symbol
    &&& r.side == t.side
    &&& r.leverage == t.leverage
    &&& r.invested_usdt == t.invested
    &&& r.notional_usdt == p.entry_notional
    &&& r.quantity == p.quantity
    &&& r.entry_price == t.entry_price
    &&& r.exit_price == t.exit_price
    &&& r.duration_seconds == t.duration_seconds
    &&& r.gross_pnl_usdt == t.gross_pnl
    &&& r.fees_usdt == t.fee
    &&& r.net_pnl_usdt == t.pnl
    &&& r.pnl_percent == t.pnl_percent
    &&& r.exit_reason@ == exit_reason_name(t.exit_reason, stop_loss_pct, take_profit_pct)
}

/// Builds the log record of a closed trade.
pub fn record_trade(
    t: &ClosedTrade,
    p: &Position,
    symbol: &String,
    stop_loss_pct: i128,
    take_profit_pct: i128,
) -> (r: TradeRecord)
    ensures
        records_trade(r, *t, *p, symbol@, stop_loss_pct, take_profit_pct),
{
    TradeRecord {
        timestamp: String::new(),
        symbol: symbol.clone(),
        side: t.side,
        leverage: t.leverage,
        invested_usdt: t.invested,
        notional_usdt: p.entry_notional,
        quantity: p.quantity,
        entry_price: t.entry_price,
        exit_price: t.exit_price,
        duration_seconds: t.duration_seconds,
        gross_pnl_usdt: t.gross_pnl,
        fees_usdt: t.fee,
        net_pnl_usdt: t.pnl,
        pnl_percent: t.pnl_percent,
        exit_reason: exit_reason_text(t.exit_reason, stop_loss_pct, take_profit_pct),
    }
}

/// How a cell of the trade log looks.
#[derive(Clone, Copy, Debug, PartialEq, Eq, Structural)]
pub enum CellStyle {
    /// Bold white on dark blue, centred.
    Header,
    Center,
    /// `$#,##0.00`
    Currency,
    /// `0.000000`
    Crypto,
    /// `$#,##0.00` in green.
    GainCurrency,
    /// `$#,##0.00` in red.
    LossCurrency,
    /// `0.00%` in green.
    GainPercent,
    /// `0.00%` in red.
    LossPercent,
}

/// What a cell holds.
#[derive(Debug)]
pub enum CellValue {
    Text(String),
    /// A fixed-point number (eight decimal places).
    Number(i128),
}

/// One cell of a row of the trade log.
#[derive(Debug)]
pub struct Cell {
    pub col: u16,
    pub value: CellValue,
    pub style: CellStyle,
}

/// What a cell holds, with text as characters.
pub enum CellContent {
    Text(Seq<char>),
    Number(i128),
}

pub open spec fn content_of(c: Cell) -> CellContent {
    match c.value {
        CellValue::Text(s) => CellContent::Text(s@),
        CellValue::Number(n) => CellContent::Number(n),
    }
}

/// Cell `c` is in column `col`, holds `content` and has style `style`.
pub open spec fn cell_is(c: Cell, col: u16, content: CellContent, style: CellStyle) -> bool {
    c.col == col && content_of(c) == content && c.style == style
}

pub open spec fn header_titles() -> Seq<Seq<char>> {
    seq![
        "Timestamp"@,
        "Symbol"@,
        "Side"@,
        "Leverage"@,
        "Invested Margin ($)"@,
        "Notional Size ($)"@,
        "Quantity (BTC)"@,
        "Entry Price ($)"@,
        "Exit Price ($)"@,
        "Duration (s)"@,
        "Gross PnL ($)"@,
        "Binance Fee ($)"@,
        "Net PnL ($)"@,
        "Return (PnL %)"@,
        "Exit Reason"@,
    ]
}

fn text_cell(col: u16, text: &str, style: CellStyle) -> (r: Cell)
    ensures
        cell_is(r, col, CellContent::Text(text@), style),
{
    Cell { col, value: CellValue::Text(text.to_owned()), style }
}

fn number_cell(col: u16, n: i128, style: CellStyle) -> (r: Cell)
    ensures
        cell_is(r, col, CellContent::Number(n), style),
{
    Cell { col, value: CellValue::Number(n), style }
}

/// The header row: each title in its column, in the header style.
pub open spec fn header_row_is(cells: Seq<Cell>) -> bool {
    &&& cells.len() == 15
    &&& forall|i: int|
        0 <= i < 15 ==> cell_is(#[trigger] cells[i], i as u16, CellContent::Text(header_titles()[i]), CellStyle::Header)
}

/// The header row of the trade log.
pub fn header_row() -> (r: Vec<Cell>)
    ensures
        header_row_is(r@),
{
    let mut r: Vec<Cell> = Vec::new();
    r.push(text_cell(0, "Timestamp", CellStyle::Header));
    r.push(text_cell(1, "Symbol", CellStyle::Header));
    r.push(text_cell(2, "Side", CellStyle::Header));
    r.push(text_cell(3, "Leverage", CellStyle::Header));
    r.push(text_cell(4, "Invested Margin ($)", CellStyle::Header));
    r.push(text_cell(5, "Notional Size ($)", CellStyle::Header));
    r.push(text_cell(6, "Quantity (BTC)", CellStyle::Header));
    r.push(text_cell(7, "Entry Price ($)", CellStyle::Header));
    r.push(text_cell(8, "Exit Price ($)", CellStyle::Header));
    r.push(text_cell(9, "Duration (s)", CellStyle::Header));
    r.push(text_cell(10, "Gross PnL ($)", CellStyle::Header));
    r.push(text_cell(11, "Binance Fee ($)", CellStyle::Header));
    r.push(text_cell(12, "Net PnL ($)", CellStyle::Header));
    r.push(text_cell(13, "Return (PnL %)", CellStyle::Header));
    r.push(text_cell(14, "Exit Reason", CellStyle::Header));
    r
}

/// Green for a result of zero or more, red below.
pub open spec fn money_style(v: i128) -> CellStyle {
    if v >= 0 {
        CellStyle::GainCurrency
    } else {
        CellStyle::LossCurrency
    }
}

pub open spec fn percent_style(v: i128) -> CellStyle {
    if v >= 0 {
        CellStyle::GainPercent
    } else {
        CellStyle::LossPercent
    }
}

/// The leverage written as a whole number followed by `x`.
pub open spec fn leverage_text(leverage: i128) -> Seq<char> {
    fixed_text(leverage as int, 0) + "x"@
}

/// The row of the trade log for one record: texts centred, amounts as
/// currency, the quantity with six decimals, the duration as a number of
/// seconds, results in green or red by sign and the return as a fraction.
pub open spec fn record_row_is(cells: Seq<Cell>, r: TradeRecord) -> bool {
    &&& cells.len() == 15
    &&& cell_is(cells[0], 0, CellContent::Text(r.timestamp@), CellStyle::Center)
    &&& cell_is(cells[1], 1, CellContent::Text(r.symbol@), CellStyle::Center)
    &&& cell_is(cells[2], 2, CellContent::Text(side_name(r.side)), CellStyle::Center)
    &&& cell_is(cells[3], 3, CellContent::Text(leverage_text(r.leverage)), CellStyle::Center)
    &&& cell_is(cells[4], 4, CellContent::Number(r.invested_usdt), CellStyle::Currency)
    &&& cell_is(cells[5], 5, CellContent::Number(r.notional_usdt), CellStyle::Currency)
    &&& cell_is(cells[6], 6, CellContent::Number(r.quantity), CellStyle::Crypto)
    &&& cell_is(cells[7], 7, CellContent::Number(r.entry_price), CellStyle::Currency)
    &&& cell_is(cells[8], 8, CellContent::Number(r.exit_price), CellStyle::Currency)
    &&& cell_is(cells[9], 9, CellContent::Number(smul(r.duration_seconds as i128, SCALE)), CellStyle::Center)
    &&& cell_is(cells[10], 10, CellContent::Number(r.gross_pnl_usdt), money_style(r.gross_pnl_usdt))
    &&& cell_is(cells[11], 11, CellContent::Number(r.fees_usdt), CellStyle::Currency)
    &&& cell_is(cells[12], 12, CellContent::Number(r.net_pnl_usdt), money_style(r.net_pnl_usdt))
    &&& cell_is(cells[13], 13, CellContent::Number(squot(r.pnl_percent, 100)), percent_style(r.pnl_percent))
    &&& cell_is(cells[14], 14, CellContent::Text(r.exit_reason@), CellStyle::Center)
}

fn money_cell(col: u16, v: i128) -> (r: Cell)
    ensures
        cell_is(r, col, CellContent::Number(v), money_style(v)),
{
    number_cell(
        col,
        v,
        if v >= 0 {
            CellStyle::GainCurrency
        } else {
            CellStyle::LossCurrency
        },
    )
}

/// The row of the trade log for one record.
pub fn record_row(r: &TradeRecord) -> (cells: Vec<Cell>)
    ensures
        record_row_is(cells@, *r),
{
    let mut cells: Vec<Cell> = Vec::new();
    cells.push(text_cell(0, r.timestamp.as_str(), CellStyle::Center));
    cells.push(text_cell(1, r.symbol.as_str(), CellStyle::Center));
    cells.push(text_cell(2, side_text(r.side), CellStyle::Center));
    let mut leverage = format_fixed(r.leverage, 0);
    proof {
        reveal_strlit("x");
    }
    leverage.append("x");
    cells.push(Cell { col: 3, value: CellValue::Text(leverage), style: CellStyle::Center });
    cells.push(number_cell(4, r.invested_usdt, CellStyle::Currency));
    cells.push(number_cell(5, r.notional_usdt, CellStyle::Currency));
    cells.push(number_cell(6, r.quantity, CellStyle::Crypto));
    cells.push(number_cell(7, r.entry_price, CellStyle::Currency));
    cells.push(number_cell(8, r.exit_price, CellStyle::Currency));
    cells.push(number_cell(9, sat_mul(r.duration_seconds as i128, SCALE), CellStyle::Center));
    cells.push(money_cell(10, r.gross_pnl_usdt));
    cells.push(number_cell(11, r.fees_usdt, CellStyle::Currency));
    cells.push(money_cell(12, r.net_pnl_usdt));
    cells.push(
        number_cell(
            13,
            quot(r.pnl_percent, 100),
            if r.pnl_percent >= 0 {
                CellStyle::GainPercent
            } else {
                CellStyle::LossPercent
            },
        ),
    );
    cells.push(text_cell(14, r.exit_reason.as_str(), CellStyle::Center));
    cells
}

/// The whole log sheet, row by row: the header, then one row per record in
/// the order the records were logged.
pub fn sheet_rows(records: &Vec<TradeRecord>) -> (rows: Vec<Vec<Cell>>)
    ensures
        rows@.len() == records@.len() + 1,
        header_row_is(rows@[0]@),
        forall|i: int| 1 <= i <= records@.len() ==> record_row_is(#[trigger] rows@[i]@, records@[i - 1]),
{
    let mut rows: Vec<Vec<Cell>> = Vec::new();
    rows.push(header_row());
    let mut i: usize = 0;
    while i < records.len()
        invariant
            i <= records@.len(),
            rows@.len() == i + 1,
            header_row_is(rows@[0]@),
            forall|j: int| 1 <= j <= i ==> record_row_is(#[trigger] rows@[j]@, records@[j - 1]),
        decreases records@.len() - i,
    {
        rows.push(record_row(&records[i]));
        i = i + 1;
    }
    rows
}

} // verus!
