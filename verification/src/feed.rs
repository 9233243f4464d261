//! Reading the exchange's messages: JSON text, parsed by serde_json, and the
//! fields the engine and the order book read picked out of it.
//!
//! What serde_json makes of a text depends on the text alone, so each reading
//! is named by a spec function over the text; the readers below are stated
//! exactly over those names.
use vstd::prelude::*;
use serde_json::Value;
use crate::market::{AggTradeData, BookTickerData, MarkPriceData};
use crate::orderbook::{DepthSnapshot, DepthUpdate, PriceLevel};

verus! {

#[verifier::external_type_specification]
#[verifier::external_body]
pub struct ExJsonValue(serde_json::Value);

/// Whether `serde_json::from_str::<Value>` accepts `text`: one JSON value,
/// with nothing but whitespace around it.
pub uninterp spec fn json_accepts(text: Seq<char>) -> bool;

/// The member `key` of the JSON object `text`, when it is a JSON string
/// (`Value::get` then `Value::as_str`).
pub uninterp spec fn json_text_field(text: Seq<char>, key: Seq<char>) -> Option<Seq<char>>;

/// The member `key` of the JSON object `text`, when it is a JSON boolean
/// (`Value::get` then `Value::as_bool`).
pub uninterp spec fn json_flag_field(text: Seq<char>, key: Seq<char>) -> Option<bool>;

/// The member `key` of the JSON object `text`, when it is a number that fits
/// a `u64` (`Value::get` then `Value::as_u64`).
pub uninterp spec fn json_u64_field(text: Seq<char>, key: Seq<char>) -> Option<u64>;

/// The length of the member `key` of the JSON object `text`, when it is a
/// JSON array (`Value::get` then `Value::as_array`).
pub uninterp spec fn json_list_len(text: Seq<char>, key: Seq<char>) -> Option<nat>;

/// Element `j` of element `i` of the array `key` of the JSON object `text`,
/// when it is a JSON string (`Value::get` three times, then `Value::as_str`).
pub uninterp spec fn json_item_text(text: Seq<char>, key: Seq<char>, i: nat, j: nat) -> Option<Seq<char>>;

/// A message that serde_json accepted, together with its text; only
/// `parse_message` makes one, so the value is always the text's parse.
struct JsonMessage {
    text: String,
    value: Value,
}

impl View for JsonMessage {
    type V = Seq<char>;

    closed spec fn view(&self) -> Seq<char> {
        self.text@
    }
}

/// Parses a message with `serde_json::from_str::<Value>`: a message exactly
/// when serde_json accepts the text.
#[verifier::external_body]
fn parse_message(text: &str) -> (r: Option<JsonMessage>)
    ensures
        r.is_some() == json_accepts(text@),
        r matches Some(m) ==> m@ == text@,
{
    match serde_json::from_str::<Value>(text) {
        Ok(value) => Some(JsonMessage { text: text.to_owned(), value }),
        Err(_) => None,
    }
}

/// `Value::get(key)` on the message, read as a JSON string.
#[verifier::external_body]
fn text_field(m: &JsonMessage, key: &str) -> (r: Option<String>)
    ensures
        text_of(r) == json_text_field(m@, key@),
{
    match m.value.get(key) {
        Some(Value::String(s)) => Some(s.clone()),
        _ => None,
    }
}

/// `Value::get(key)` on the message, read as a JSON boolean.
#[verifier::external_body]
fn flag_field(m: &JsonMessage, key: &str) -> (r: Option<bool>)
    ensures
        r == json_flag_field(m@, key@),
{
    match m.value.get(key) {
        Some(v) => v.as_bool(),
        None => None,
    }
}

/// `Value::get(key)` on the message, read with `Value::as_u64`.
#[verifier::external_body]
fn u64_field(m: &JsonMessage, key: &str) -> (r: Option<u64>)
    ensures
        r == json_u64_field(m@, key@),
{
    match m.value.get(key) {
        Some(v) => v.as_u64(),
        None => None,
    }
}

/// `Value::get(key)` on the message, read as a JSON array: its length.
#[verifier::external_body]
fn list_len(m: &JsonMessage, key: &str) -> (r: Option<usize>)
    ensures
        match r {
            Some(n) => json_list_len(m@, key@) == Some(n as nat),
            None => json_list_len(m@, key@) is None,
        },
{
    match m.value.get(key) {
        Some(Value::Array(items)) => Some(items.len()),
        _ => None,
    }
}

/// `Value::get` for the array `key`, its element `i` and that element's
/// element `j`, read as a JSON string.
#[verifier::external_body]
fn item_text(m: &JsonMessage, key: &str, i: usize, j: usize) -> (r: Option<String>)
    ensures
        text_of(r) == json_item_text(m@, key@, i as nat, j as nat),
{
    let item = match m.value.get(key) {
        Some(list) => list.get(i),
        None => None,
    };
    match item {
        Some(pair) => match pair.get(j) {
            Some(Value::String(s)) => Some(s.clone()),
            _ => None,
        },
        None => None,
    }
}

/// An optional string as optional characters.
pub open spec fn text_of(o: Option<String>) -> Option<Seq<char>> {
    match o {
        Some(s) => Some(s@),
        None => None,
    }
}

/// `d` holds the fields `p`, `q` (strings) and `m` (boolean) of `text`.
pub open spec fn reads_agg_trade(d: AggTradeData, text: Seq<char>) -> bool {
    &&& text_of(d.price) == json_text_field(text, "p"@)
    &&& text_of(d.qty) == json_text_field(text, "q"@)
    &&& d.is_buyer_maker == json_flag_field(text, "m"@)
}

/// `d` holds the fields `b` and `a` (strings) of `text`.
pub open spec fn reads_book_ticker(d: BookTickerData, text: Seq<char>) -> bool {
    &&& text_of(d.bid) == json_text_field(text, "b"@)
    &&& text_of(d.ask) == json_text_field(text, "a"@)
}

/// `d` holds the field `p` (a string) of `text`.
pub open spec fn reads_mark_price(d: MarkPriceData, text: Seq<char>) -> bool {
    text_of(d.price) == json_text_field(text, "p"@)
}

/// `ls` holds the array `key` of `text`, one level per element: its first
/// element as the price and its second as the quantity, each when a string;
/// `None` when `key` is not an array.
pub open spec fn reads_levels(ls: Option<Vec<PriceLevel>>, text: Seq<char>, key: Seq<char>) -> bool {
    match json_list_len(text, key) {
        Some(n) => ls matches Some(v) && v@.len() == n && forall|i: int|
            0 <= i < n ==> text_of(#[trigger] v@[i].price) == json_item_text(text, key, i as nat, 0)
                && text_of(v@[i].qty) == json_item_text(text, key, i as nat, 1),
        None => ls is None,
    }
}

/// `u` holds the field `u` (a `u64`) and the level arrays `b` and `a` of
/// `text`.
pub open spec fn reads_depth_update(u: DepthUpdate, text: Seq<char>) -> bool {
    &&& u.final_update_id == json_u64_field(text, "u"@)
    &&& reads_levels(u.bids, text, "b"@)
    &&& reads_levels(u.asks, text, "a"@)
}

/// `s` holds the field `lastUpdateId` (a `u64`) and the level arrays `bids`
/// and `asks` of `text`.
pub open spec fn reads_depth_snapshot(s: DepthSnapshot, text: Seq<char>) -> bool {
    &&& s.last_update_id == json_u64_field(text, "lastUpdateId"@)
    &&& reads_levels(s.bids, text, "bids"@)
    &&& reads_levels(s.asks, text, "asks"@)
}

/// A top-of-book message read as a snapshot: the snapshot form when it has
/// `lastUpdateId`, else the stream form with `u`, `b` and `a`.
pub open spec fn reads_partial_depth(s: DepthSnapshot, text: Seq<char>) -> bool {
    if json_u64_field(text, "lastUpdateId"@) is Some {
        reads_depth_snapshot(s, text)
    } else {
        &&& s.last_update_id == json_u64_field(text, "u"@)
        &&& reads_levels(s.bids, text, "b"@)
        &&& reads_levels(s.asks, text, "a"@)
    }
}

/// The price levels of the array `key`, one per element, in order.
fn levels_field(m: &JsonMessage, key: &str) -> (r: Option<Vec<PriceLevel>>)
    ensures
        reads_levels(r, m@, key@),
{
    match list_len(m, key) {
        Some(n) => {
            let mut levels: Vec<PriceLevel> = Vec::new();
            let mut i: usize = 0;
            while i < n
                invariant
                    i <= n,
                    json_list_len(m@, key@) == Some(n as nat),
                    levels@.len() == i,
                    forall|k: int|
                        0 <= k < i ==> text_of(#[trigger] levels@[k].price) == json_item_text(
                            m@,
                            key@,
                            k as nat,
                            0,
                        ) && text_of(levels@[k].qty) == json_item_text(m@, key@, k as nat, 1),
                decreases n - i,
            {
                let price = item_text(m, key, i, 0);
                let qty = item_text(m, key, i, 1);
                levels.push(PriceLevel { price, qty });
                i = i + 1;
            }
            Some(levels)
        },
        None => None,
    }
}

/// The fields of an aggregated-trade message: the strings `p` and `q` and
/// the boolean `m`. `None` when the text is not JSON, and such a message is
/// dropped.
pub fn agg_trade_of(text: &str) -> (r: Option<AggTradeData>)
    ensures
        r.is_some() == json_accepts(text@),
        r matches Some(d) ==> reads_agg_trade(d, text@),
{
    match parse_message(text) {
        Some(m) => Some(
            AggTradeData {
                price: text_field(&m, "p"),
                qty: text_field(&m, "q"),
                is_buyer_maker: flag_field(&m, "m"),
            },
        ),
        None => None,
    }
}

/// The fields of a best-bid/ask message: the strings `b` and `a`. `None`
/// when the text is not JSON, and such a message is dropped.
pub fn book_ticker_of(text: &str) -> (r: Option<BookTickerData>)
    ensures
        r.is_some() == json_accepts(text@),
        r matches Some(d) ==> reads_book_ticker(d, text@),
{
    match parse_message(text) {
        Some(m) => Some(BookTickerData { bid: text_field(&m, "b"), ask: text_field(&m, "a") }),
        None => None,
    }
}

/// The field of a mark-price message: the string `p`. `None` when the text
/// is not JSON, and such a message is dropped.
pub fn mark_price_of(text: &str) -> (r: Option<MarkPriceData>)
    ensures
        r.is_some() == json_accepts(text@),
        r matches Some(d) ==> reads_mark_price(d, text@),
{
    match parse_message(text) {
        Some(m) => Some(MarkPriceData { price: text_field(&m, "p") }),
        None => None,
    }
}

/// The fields of a depth update: the unsigned integer `u` and the level
/// arrays `b` and `a`. `None` when the text is not JSON.
pub fn depth_update_of(text: &str) -> (r: Option<DepthUpdate>)
    ensures
        r.is_some() == json_accepts(text@),
        r matches Some(u) ==> reads_depth_update(u, text@),
{
    match parse_message(text) {
        Some(m) => Some(
            DepthUpdate {
                final_update_id: u64_field(&m, "u"),
                bids: levels_field(&m, "b"),
                asks: levels_field(&m, "a"),
            },
        ),
        None => None,
    }
}

/// The fields of a depth snapshot: the unsigned integer `lastUpdateId` and
/// the level arrays `bids` and `asks`. `None` when the text is not JSON.
pub fn depth_snapshot_of(text: &str) -> (r: Option<DepthSnapshot>)
    ensures
        r.is_some() == json_accepts(text@),
        r matches Some(s) ==> reads_depth_snapshot(s, text@),
{
    match parse_message(text) {
        Some(m) => Some(
            DepthSnapshot {
                last_update_id: u64_field(&m, "lastUpdateId"),
                bids: levels_field(&m, "bids"),
                asks: levels_field(&m, "asks"),
            },
        ),
        None => None,
    }
}

/// A message of the top-of-book depth stream as a snapshot of the book. The
/// spot stream sends `lastUpdateId`, `bids` and `asks`; the futures stream
/// sends `u`, `b` and `a`. `None` when the text is not JSON.
pub fn partial_depth_of(text: &str) -> (r: Option<DepthSnapshot>)
    ensures
        r.is_some() == json_accepts(text@),
        r matches Some(s) ==> reads_partial_depth(s, text@),
{
    match parse_message(text) {
        Some(m) => {
            let id = u64_field(&m, "lastUpdateId");
            if id.is_some() {
                Some(DepthSnapshot { last_update_id: id, bids: levels_field(&m, "bids"), asks: levels_field(&m, "asks") })
            } else {
                Some(
                    DepthSnapshot {
                        last_update_id: u64_field(&m, "u"),
                        bids: levels_field(&m, "b"),
                        asks: levels_field(&m, "a"),
                    },
                )
            }
        },
        None => None,
    }
}

} // verus!
