# scalper

A simulated BTCUSDT scalping engine with a live dashboard. It reads the
exchange's aggregated-trade, best-bid/ask, depth and mark-price streams, keeps rolling
indicators (CVD and its five-second slope, 30-second volume against the
average window, the local high and low of the last minute, the order book
imbalance of the best twenty levels), opens a virtual long when the book
leans to the bids (imbalance above 1.50) while the CVD rises and a short when
it leans to the asks (below 0.67) while the CVD falls, marks the position to
the market and closes it ten seconds after entry, or earlier on a stop loss
or a take profit.
Closed trades go to an Excel log; the dashboard receives the state ten times
a second.

## Layout

- `src/` is the library, verified with Verus.
  - `fixed`: fixed-point arithmetic (eight decimal places), saturating.
  - `parse`: exact decimal and integer parsing of the exchange's text fields.
  - `market`: the data types the engine reads and publishes.
  - `feed`: the exchange's JSON messages (read with serde_json) as the
    engine's and the order book's input.
  - `metrics`: the rolling indicators.
  - `position`: marking a position and its exit rules.
  - `strategy`: the engine, its configuration and its laws.
  - `logger`: the trade record and the layout of the log sheet.
  - `orderbook`: a local order book kept in step with snapshots and updates.
  - `text`: number formatting and display names.
- `app/` is the program around it: the WebSocket connections, the clock,
  the Excel file, the HTTP server and the dashboard's JSON.
- `tests/` runs the library on concrete values.

## Numbers

Prices, quantities, amounts and ratios are `i128` fixed-point numbers with
eight decimal places. Arithmetic saturates at the bounds of `i128`, division
truncates toward zero and a division by zero gives zero. Times are
milliseconds on a monotonic clock that the caller reads.
