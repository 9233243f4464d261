use scalper::feed::{agg_trade_of, book_ticker_of, depth_snapshot_of, depth_update_of, mark_price_of, partial_depth_of};
use scalper::fixed::SCALE;
use scalper::orderbook::LocalOrderBook;

#[test]
fn agg_trade_fields_are_read() {
    let d = agg_trade_of(r#"{"e":"aggTrade","p":"64123.10","q":"0.015","m":true}"#).unwrap();
    assert_eq!(d.price.as_deref(), Some("64123.10"));
    assert_eq!(d.qty.as_deref(), Some("0.015"));
    assert_eq!(d.is_buyer_maker, Some(true));
}

#[test]
fn agg_trade_fields_of_other_types_are_missing() {
    let d = agg_trade_of(r#"{"p":64123.1,"q":"0.5","m":"false"}"#).unwrap();
    assert_eq!(d.price, None);
    assert_eq!(d.qty.as_deref(), Some("0.5"));
    assert_eq!(d.is_buyer_maker, None);
}

#[test]
fn non_json_message_is_dropped() {
    assert!(agg_trade_of("not json").is_none());
    assert!(agg_trade_of(r#"{"p":"1""#).is_none());
    assert!(book_ticker_of("").is_none());
}

#[test]
fn json_that_is_not_an_object_has_no_fields() {
    let d = book_ticker_of("[1, 2, 3]").unwrap();
    assert_eq!(d.bid, None);
    assert_eq!(d.ask, None);
}

#[test]
fn book_ticker_fields_are_read() {
    let d = book_ticker_of(r#" {"u":1,"b":"100.00","B":"3","a":"100.01","A":"2"} "#).unwrap();
    assert_eq!(d.bid.as_deref(), Some("100.00"));
    assert_eq!(d.ask.as_deref(), Some("100.01"));
}

#[test]
fn depth_snapshot_fields_are_read() {
    let s = depth_snapshot_of(
        r#"{"lastUpdateId":160,"bids":[["100.00","1.5"],["99.99"]],"asks":[["100.01","2"],[1,"3"]]}"#,
    )
    .unwrap();
    assert_eq!(s.last_update_id, Some(160));
    let bids = s.bids.unwrap();
    assert_eq!(bids.len(), 2);
    assert_eq!(bids[0].price.as_deref(), Some("100.00"));
    assert_eq!(bids[0].qty.as_deref(), Some("1.5"));
    assert_eq!(bids[1].price.as_deref(), Some("99.99"));
    assert_eq!(bids[1].qty, None);
    let asks = s.asks.unwrap();
    assert_eq!(asks[1].price, None);
    assert_eq!(asks[1].qty.as_deref(), Some("3"));
}

#[test]
fn depth_update_fields_are_read() {
    let u = depth_update_of(r#"{"e":"depthUpdate","U":157,"u":160,"b":[["100.00","0"]],"a":"none"}"#).unwrap();
    assert_eq!(u.final_update_id, Some(160));
    assert_eq!(u.bids.unwrap().len(), 1);
    assert!(u.asks.is_none());
    let u = depth_update_of(r#"{"u":-1}"#).unwrap();
    assert_eq!(u.final_update_id, None);
    assert!(depth_update_of("{").is_none());
    assert!(depth_snapshot_of("nope").is_none());
}

#[test]
fn book_follows_json_messages() {
    let mut book = LocalOrderBook::new();
    book.apply_depth_update(depth_update_of(r#"{"u":12,"b":[["100.00","4"]],"a":[]}"#).unwrap());
    book.init_from_snapshot(
        &depth_snapshot_of(r#"{"lastUpdateId":10,"bids":[["100.00","1"],["99.99","2"]],"asks":[["100.01","3"]]}"#)
            .unwrap(),
    );
    assert_eq!(book.calculate_imbalance(5), (6 * SCALE, 3 * SCALE, 2 * SCALE));
}

#[test]
fn mark_price_field_is_read() {
    let d = mark_price_of(r#"{"e":"markPriceUpdate","s":"BTCUSDT","p":"64000.10","i":"64001.00"}"#).unwrap();
    assert_eq!(d.price.as_deref(), Some("64000.10"));
    assert!(mark_price_of("{").is_none());
}

#[test]
fn partial_depth_of_spot_and_futures() {
    let spot = partial_depth_of(r#"{"lastUpdateId":42,"bids":[["100.00","2"]],"asks":[["100.01","1"]]}"#).unwrap();
    assert_eq!(spot.last_update_id, Some(42));
    assert_eq!(spot.bids.unwrap()[0].qty.as_deref(), Some("2"));
    let fut = partial_depth_of(r#"{"e":"depthUpdate","U":40,"u":43,"pu":39,"b":[["100.00","5"]],"a":[["100.01","1"],["100.02","1"]]}"#)
        .unwrap();
    assert_eq!(fut.last_update_id, Some(43));
    assert_eq!(fut.bids.unwrap()[0].qty.as_deref(), Some("5"));
    assert_eq!(fut.asks.unwrap().len(), 2);
    assert!(partial_depth_of("depth").is_none());
}
