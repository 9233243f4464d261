//! Marking an open position to the market and deciding when to close it.
use vstd::prelude::*;
use crate::fixed::{fdiv, fmul, fx_div, fx_mul, sadd, sat_add, sat_mul, sat_sub, smul, ssub, SCALE};
use crate::market::{ExitReason, Position, Side};

verus! {

/// How long a position is held at most, in seconds.
pub const HOLD_SECONDS: i64 = 10;

/// The position marked to the price `curr`, with the CVD `cvd`, `elapsed`
/// seconds after entry and with the fee rate `fee_rate` per side.
pub open spec fn marked_position(p: Position, curr: i128, cvd: i128, elapsed: i64, fee_rate: i128) -> Position {
    let entry_notional = fmul(p.quantity, p.entry_price);
    let current_notional = fmul(p.quantity, curr);
    let change = match p.side {
        Side::Long => ssub(curr, p.entry_price),
        Side::Short => ssub(p.entry_price, curr),
    };
    let gross = fmul(change, p.quantity);
    let fee = fmul(sadd(entry_notional, current_notional), fee_rate);
    let net = ssub(gross, fee);
    Position {
        elapsed_seconds: elapsed,
        entry_notional,
        current_notional,
        peak_cvd: if cvd > p.peak_cvd {
            cvd
        } else {
            p.peak_cvd
        },
        trough_cvd: if cvd < p.trough_cvd {
            cvd
        } else {
            p.trough_cvd
        },
        price_change: change,
        gross_unrealized_pnl: gross,
        price_change_pct: if p.entry_price > 0 {
            smul(fdiv(change, p.entry_price), 100)
        } else {
            p.price_change_pct
        },
        est_fee: fee,
        net_unrealized_pnl: net,
        unrealized_roe_pct: if p.margin_usdt > 0 {
            smul(fdiv(net, p.margin_usdt), 100)
        } else {
            p.unrealized_roe_pct
        },
        ..p
    }
}

/// Marks a position to the market.
pub fn mark_position(p: Position, curr: i128, cvd: i128, elapsed: i64, fee_rate: i128) -> (r: Position)
    ensures
        r == marked_position(p, curr, cvd, elapsed, fee_rate),
{
    let entry_notional = fx_mul(p.quantity, p.entry_price);
    let current_notional = fx_mul(p.quantity, curr);
    let change = match p.side {
        Side::Long => sat_sub(curr, p.entry_price),
        Side::Short => sat_sub(p.entry_price, curr),
    };
    let gross = fx_mul(change, p.quantity);
    let fee = fx_mul(sat_add(entry_notional, current_notional), fee_rate);
    let net = sat_sub(gross, fee);
    let peak_cvd = if cvd > p.peak_cvd {
        cvd
    } else {
        p.peak_cvd
    };
    let trough_cvd = if cvd < p.trough_cvd {
        cvd
    } else {
        p.trough_cvd
    };
    let price_change_pct = if p.entry_price > 0 {
        sat_mul(fx_div(change, p.entry_price), 100)
    } else {
        p.price_change_pct
    };
    let unrealized_roe_pct = if p.margin_usdt > 0 {
        sat_mul(fx_div(net, p.margin_usdt), 100)
    } else {
        p.unrealized_roe_pct
    };
    Position {
        elapsed_seconds: elapsed,
        entry_notional,
        current_notional,
        peak_cvd,
        trough_cvd,
        price_change: change,
        gross_unrealized_pnl: gross,
        price_change_pct,
        est_fee: fee,
        net_unrealized_pnl: net,
        unrealized_roe_pct,
        ..p
    }
}

/// The reason to close the marked position `p`, checked in this order: stop
/// loss, take profit, and the holding time of ten seconds reached; `None` to
/// keep it.
pub open spec fn exit_reason(p: Position, stop_loss_pct: i128, take_profit_pct: i128) -> Option<ExitReason> {
    if p.price_change_pct <= ssub(0, stop_loss_pct) {
        Some(ExitReason::StopLoss)
    } else if p.price_change_pct >= take_profit_pct {
        Some(ExitReason::TakeProfit)
    } else if p.elapsed_seconds >= HOLD_SECONDS {
        Some(ExitReason::TimeLimit)
    } else {
        None
    }
}

/// Decides whether to close a marked position.
pub fn check_exit(p: &Position, stop_loss_pct: i128, take_profit_pct: i128) -> (r: Option<ExitReason>)
    ensures
        r == exit_reason(*p, stop_loss_pct, take_profit_pct),
{
    if p.price_change_pct <= sat_sub(0, stop_loss_pct) {
        Some(ExitReason::StopLoss)
    } else if p.price_change_pct >= take_profit_pct {
        Some(ExitReason::TakeProfit)
    } else if p.elapsed_seconds >= HOLD_SECONDS {
        Some(ExitReason::TimeLimit)
    } else {
        None
    }
}

/// The position opened on `side` at `price` with `notional` of exposure.
pub open spec fn opened_position(
    side: Side,
    price: i128,
    cvd: i128,
    leverage: i128,
    trade_size: i128,
    notional: i128,
    fee_rate: i128,
    local_high: i128,
    local_low: i128,
) -> Position {
    let fee = fmul(notional, smul(fee_rate, 2));
    Position {
        side,
        leverage,
        margin_usdt: trade_size,
        entry_notional: notional,
        current_notional: notional,
        entry_price: price,
        quantity: fdiv(notional, price),
        price_change: 0,
        price_change_pct: 0,
        gross_unrealized_pnl: 0,
        est_fee: fee,
        net_unrealized_pnl: ssub(0, fee),
        unrealized_roe_pct: smul(fdiv(ssub(0, fee), trade_size), 100),
        elapsed_seconds: 0,
        peak_cvd: cvd,
        trough_cvd: cvd,
        entry_local_high: local_high,
        entry_local_low: local_low,
    }
}

/// Opens a position; its fee estimate covers both sides of the trade.
pub fn open_position(
    side: Side,
    price: i128,
    cvd: i128,
    leverage: i128,
    trade_size: i128,
    notional: i128,
    fee_rate: i128,
    local_high: i128,
    local_low: i128,
) -> (r: Position)
    ensures
        r == opened_position(side, price, cvd, leverage, trade_size, notional, fee_rate, local_high, local_low),
{
    let fee = fx_mul(notional, sat_mul(fee_rate, 2));
    let net = sat_sub(0, fee);
    Position {
        side,
        leverage,
        margin_usdt: trade_size,
        entry_notional: notional,
        current_notional: notional,
        entry_price: price,
        quantity: fx_div(notional, price),
        price_change: 0,
        price_change_pct: 0,
        gross_unrealized_pnl: 0,
        est_fee: fee,
        net_unrealized_pnl: net,
        unrealized_roe_pct: sat_mul(fx_div(net, trade_size), 100),
        elapsed_seconds: 0,
        peak_cvd: cvd,
        trough_cvd: cvd,
        entry_local_high: local_high,
        entry_local_low: local_low,
    }
}

/// A position gains when the price moves its way: a long when the price
/// rises above its entry, a short when it falls below. The price change has
/// that sign, and the gross result and the percentage change follow it; a
/// long and a short marked at the same price see opposite price changes.
pub proof fn lemma_mark_follows_side(p: Position, curr: i128, cvd: i128, elapsed: i64, fee_rate: i128)
    requires
        p.entry_price > 0,
        p.quantity >= 0,
        curr >= 0,
    ensures
        ({
            let r = marked_position(p, curr, cvd, elapsed, fee_rate);
            &&& p.side == Side::Long ==> r.price_change == curr - p.entry_price
            &&& p.side == Side::Short ==> r.price_change == p.entry_price - curr
            &&& r.price_change > 0 <==> (p.side == Side::Long && curr > p.entry_price || p.side == Side::Short
                && curr < p.entry_price)
            &&& r.price_change < 0 <==> (p.side == Side::Long && curr < p.entry_price || p.side == Side::Short
                && curr > p.entry_price)
            &&& r.price_change >= 0 ==> r.gross_unrealized_pnl >= 0 && r.price_change_pct >= 0
            &&& r.price_change <= 0 ==> r.gross_unrealized_pnl <= 0 && r.price_change_pct <= 0
        }),
        marked_position(Position { side: Side::Long, ..p }, curr, cvd, elapsed, fee_rate).price_change
            == -marked_position(Position { side: Side::Short, ..p }, curr, cvd, elapsed, fee_rate).price_change,
{
    let r = marked_position(p, curr, cvd, elapsed, fee_rate);
    let c = r.price_change as int;
    let q = p.quantity as int;
    let e = p.entry_price as int;
    if c >= 0 {
        assert(c * q >= 0) by (nonlinear_arith)
            requires
                c >= 0,
                q >= 0,
        ;
        assert(c * (SCALE as int) >= 0) by (nonlinear_arith)
            requires
                c >= 0,
        ;
    }
    if c <= 0 {
        assert(c * q <= 0) by (nonlinear_arith)
            requires
                c <= 0,
                q >= 0,
        ;
        assert(c * (SCALE as int) <= 0) by (nonlinear_arith)
            requires
                c <= 0,
        ;
    }
    let x = fdiv(r.price_change, p.entry_price) as int;
    if c >= 0 {
        assert(x >= 0);
        assert(x * 100 >= 0);
    }
    if c <= 0 {
        assert(x <= 0);
        assert(x * 100 <= 0);
    }
}

/// The stop loss and the take profit weigh the percentage price change
/// against their thresholds: a stop loss only at or below minus the stop
/// loss, a take profit only at or above the take profit, the holding time
/// only after ten seconds; between the two thresholds and inside the holding
/// time the position is kept.
pub proof fn lemma_exit_thresholds(p: Position, stop_loss_pct: i128, take_profit_pct: i128)
    ensures
        exit_reason(p, stop_loss_pct, take_profit_pct) == Some(ExitReason::StopLoss)
            ==> p.price_change_pct <= -stop_loss_pct,
        exit_reason(p, stop_loss_pct, take_profit_pct) == Some(ExitReason::TakeProfit)
            ==> p.price_change_pct >= take_profit_pct && p.price_change_pct > -stop_loss_pct,
        exit_reason(p, stop_loss_pct, take_profit_pct) == Some(ExitReason::TimeLimit)
            ==> p.elapsed_seconds >= HOLD_SECONDS,
        p.price_change_pct <= -stop_loss_pct ==> exit_reason(p, stop_loss_pct, take_profit_pct) == Some(
            ExitReason::StopLoss,
        ),
        (-stop_loss_pct < p.price_change_pct < take_profit_pct && p.elapsed_seconds < HOLD_SECONDS)
            ==> exit_reason(p, stop_loss_pct, take_profit_pct) is None,
{
}

} // verus!
