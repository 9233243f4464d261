//! Rolling indicators over the recent trades: the CVD slope, the 30-second
//! volume against the nine 30-second windows before it, and the local high and
//! low of the last minute.
use vstd::prelude::*;
use crate::fixed::{fdiv, fx_div, quot, sadd, sat_add, sat_sub, squot, ssub, SCALE};
use crate::market::{CvdSnapshot, TradeEvent};

verus! {

/// Milliseconds from `t` to `now`; zero when `t` is later.
pub open spec fn age_ms(now: u64, t: u64) -> int {
    if now >= t {
        now - t
    } else {
        0
    }
}

/// Width of one volume window, in milliseconds.
pub const WINDOW_MS: u64 = 30_000;

/// Number of volume windows kept (the current one and nine before it).
pub const WINDOW_COUNT: u64 = 10;

/// A CVD snapshot at least this old (in milliseconds) is the slope's base.
pub const SLOPE_BASE_AGE_MS: u64 = 4_500;

/// Trades at most this old (in milliseconds) make the local high and low.
pub const LOCAL_RANGE_MS: u64 = 60_000;

/// The trades left once those at the front older than `limit_s` whole seconds
/// are dropped.
pub open spec fn drop_old_trades(es: Seq<TradeEvent>, now: u64, limit_s: u64) -> Seq<TradeEvent>
    decreases es.len(),
{
    if es.len() > 0 && age_ms(now, es[0].timestamp_ms) / 1000 > limit_s {
        drop_old_trades(es.drop_first(), now, limit_s)
    } else {
        es
    }
}

/// The snapshots left once those at the front older than `limit_s` whole
/// seconds are dropped.
pub open spec fn drop_old_snapshots(hs: Seq<CvdSnapshot>, now: u64, limit_s: u64) -> Seq<CvdSnapshot>
    decreases hs.len(),
{
    if hs.len() > 0 && age_ms(now, hs[0].timestamp_ms) / 1000 > limit_s {
        drop_old_snapshots(hs.drop_first(), now, limit_s)
    } else {
        hs
    }
}

pub fn age_of(now: u64, t: u64) -> (r: u64)
    ensures
        r as int == age_ms(now, t),
{
    if now >= t {
        now - t
    } else {
        0
    }
}

/// Drops the trades at the front older than `limit_s` whole seconds.
pub fn prune_trades(es: &mut std::collections::VecDeque<TradeEvent>, now: u64, limit_s: u64)
    ensures
        final(es)@ == drop_old_trades(old(es)@, now, limit_s),
{
    while es.len() > 0 && age_of(now, es[0].timestamp_ms) / 1000 > limit_s
        invariant
            drop_old_trades(es@, now, limit_s) == drop_old_trades(old(es)@, now, limit_s),
        decreases es@.len(),
    {
        let ghost before = es@;
        es.pop_front();
        assert(es@ =~= before.drop_first());
    }
}

/// Drops the snapshots at the front older than `limit_s` whole seconds.
pub fn prune_snapshots(hs: &mut std::collections::VecDeque<CvdSnapshot>, now: u64, limit_s: u64)
    ensures
        final(hs)@ == drop_old_snapshots(old(hs)@, now, limit_s),
{
    while hs.len() > 0 && age_of(now, hs[0].timestamp_ms) / 1000 > limit_s
        invariant
            drop_old_snapshots(hs@, now, limit_s) == drop_old_snapshots(old(hs)@, now, limit_s),
        decreases hs@.len(),
    {
        let ghost before = hs@;
        hs.pop_front();
        assert(hs@ =~= before.drop_first());
    }
}

/// Trades recorded in time order.
pub open spec fn trades_in_order(es: Seq<TradeEvent>) -> bool {
    forall|i: int, j: int| 0 <= i <= j < es.len() ==> es[i].timestamp_ms <= es[j].timestamp_ms
}

/// Snapshots recorded in time order.
pub open spec fn snapshots_in_order(hs: Seq<CvdSnapshot>) -> bool {
    forall|i: int, j: int| 0 <= i <= j < hs.len() ==> hs[i].timestamp_ms <= hs[j].timestamp_ms
}

/// Dropping old trades keeps the newest ones, in order, and the oldest one
/// kept is at most `limit_s` whole seconds old; with the trades in time order,
/// every one kept is.
pub proof fn lemma_retained_trades(es: Seq<TradeEvent>, now: u64, limit_s: u64)
    ensures
        ({
            let r = drop_old_trades(es, now, limit_s);
            &&& r.len() <= es.len()
            &&& r == es.skip(es.len() - r.len())
            &&& r.len() > 0 ==> age_ms(now, r[0].timestamp_ms) / 1000 <= limit_s
            &&& trades_in_order(es) ==> forall|i: int|
                0 <= i < r.len() ==> age_ms(now, #[trigger] r[i].timestamp_ms) / 1000 <= limit_s
        }),
    decreases es.len(),
{
    let r = drop_old_trades(es, now, limit_s);
    if es.len() > 0 && age_ms(now, es[0].timestamp_ms) / 1000 > limit_s {
        lemma_retained_trades(es.drop_first(), now, limit_s);
        assert(es.drop_first().skip(es.drop_first().len() - r.len()) =~= es.skip(es.len() - r.len()));
        if trades_in_order(es) {
            assert(trades_in_order(es.drop_first())) by {
                assert forall|i: int, j: int| 0 <= i <= j < es.drop_first().len() implies
                    es.drop_first()[i].timestamp_ms <= es.drop_first()[j].timestamp_ms by {
                    assert(es.drop_first()[i] == es[i + 1]);
                    assert(es.drop_first()[j] == es[j + 1]);
                }
            }
        }
    } else {
        assert(es.skip(0) =~= es);
        if trades_in_order(es) && es.len() > 0 {
            assert forall|i: int| 0 <= i < r.len() implies age_ms(now, #[trigger] r[i].timestamp_ms) / 1000
                <= limit_s by {
                assert(es[0].timestamp_ms <= es[i].timestamp_ms);
                assert(age_ms(now, es[i].timestamp_ms) <= age_ms(now, es[0].timestamp_ms));
            }
        }
    }
}

/// Dropping old snapshots keeps the newest ones, in order, and the oldest one
/// kept is at most `limit_s` whole seconds old; with the snapshots in time
/// order, every one kept is.
pub proof fn lemma_retained_snapshots(hs: Seq<CvdSnapshot>, now: u64, limit_s: u64)
    ensures
        ({
            let r = drop_old_snapshots(hs, now, limit_s);
            &&& r.len() <= hs.len()
            &&& r == hs.skip(hs.len() - r.len())
            &&& r.len() > 0 ==> age_ms(now, r[0].timestamp_ms) / 1000 <= limit_s
            &&& snapshots_in_order(hs) ==> forall|i: int|
                0 <= i < r.len() ==> age_ms(now, #[trigger] r[i].timestamp_ms) / 1000 <= limit_s
        }),
    decreases hs.len(),
{
    let r = drop_old_snapshots(hs, now, limit_s);
    if hs.len() > 0 && age_ms(now, hs[0].timestamp_ms) / 1000 > limit_s {
        lemma_retained_snapshots(hs.drop_first(), now, limit_s);
        assert(hs.drop_first().skip(hs.drop_first().len() - r.len()) =~= hs.skip(hs.len() - r.len()));
        if snapshots_in_order(hs) {
            assert(snapshots_in_order(hs.drop_first())) by {
                assert forall|i: int, j: int| 0 <= i <= j < hs.drop_first().len() implies
                    hs.drop_first()[i].timestamp_ms <= hs.drop_first()[j].timestamp_ms by {
                    assert(hs.drop_first()[i] == hs[i + 1]);
                    assert(hs.drop_first()[j] == hs[j + 1]);
                }
            }
        }
    } else {
        assert(hs.skip(0) =~= hs);
        if snapshots_in_order(hs) && hs.len() > 0 {
            assert forall|i: int| 0 <= i < r.len() implies age_ms(now, #[trigger] r[i].timestamp_ms) / 1000
                <= limit_s by {
                assert(hs[0].timestamp_ms <= hs[i].timestamp_ms);
                assert(age_ms(now, hs[i].timestamp_ms) <= age_ms(now, hs[0].timestamp_ms));
            }
        }
    }
}

/// Index of the first snapshot at least 4.5 s old, or the length.
pub open spec fn first_aged(hs: Seq<CvdSnapshot>, now: u64) -> int
    decreases hs.len(),
{
    if hs.len() == 0 {
        0
    } else if age_ms(now, hs[0].timestamp_ms) >= SLOPE_BASE_AGE_MS {
        0
    } else {
        1 + first_aged(hs.drop_first(), now)
    }
}

/// The CVD change since the first snapshot at least 4.5 s old, else since the
/// oldest snapshot; `old_slope` when there is no snapshot.
pub open spec fn cvd_slope(hs: Seq<CvdSnapshot>, cvd: i128, now: u64, old_slope: i128) -> i128 {
    let i = first_aged(hs, now);
    if i < hs.len() {
        ssub(cvd, hs[i].cvd)
    } else if hs.len() > 0 {
        ssub(cvd, hs[0].cvd)
    } else {
        old_slope
    }
}

proof fn lemma_first_aged(hs: Seq<CvdSnapshot>, now: u64, k: int)
    requires
        0 <= k <= hs.len(),
        k == hs.len() || age_ms(now, hs[k].timestamp_ms) >= SLOPE_BASE_AGE_MS,
        forall|j: int| 0 <= j < k ==> age_ms(now, #[trigger] hs[j].timestamp_ms) < SLOPE_BASE_AGE_MS,
    ensures
        first_aged(hs, now) == k,
    decreases k,
{
    if k > 0 {
        assert(age_ms(now, hs[0].timestamp_ms) < SLOPE_BASE_AGE_MS);
        assert forall|j: int| 0 <= j < k - 1 implies age_ms(
            now,
            #[trigger] hs.drop_first()[j].timestamp_ms,
        ) < SLOPE_BASE_AGE_MS by {
            assert(hs.drop_first()[j] == hs[j + 1]);
        }
        lemma_first_aged(hs.drop_first(), now, k - 1);
    }
}

/// Computes the CVD slope over the last five seconds.
pub fn slope_of(hs: &std::collections::VecDeque<CvdSnapshot>, cvd: i128, now: u64, old_slope: i128) -> (r: i128)
    ensures
        r == cvd_slope(hs@, cvd, now, old_slope),
{
    let n = hs.len();
    let mut i: usize = 0;
    while i < n && age_of(now, hs[i].timestamp_ms) < SLOPE_BASE_AGE_MS
        invariant
            i <= n,
            n == hs@.len(),
            forall|j: int| 0 <= j < i ==> age_ms(now, #[trigger] hs@[j].timestamp_ms) < SLOPE_BASE_AGE_MS,
        decreases n - i,
    {
        i = i + 1;
    }
    proof {
        lemma_first_aged(hs@, now, i as int);
    }
    if i < n {
        sat_sub(cvd, hs[i].cvd)
    } else if n > 0 {
        sat_sub(cvd, hs[0].cvd)
    } else {
        old_slope
    }
}

/// Volume of the trades at most 30 s old.
pub open spec fn recent_volume(es: Seq<TradeEvent>, now: u64) -> i128
    decreases es.len(),
{
    if es.len() == 0 {
        0
    } else {
        let rest = recent_volume(es.drop_last(), now);
        if age_ms(now, es.last().timestamp_ms) <= WINDOW_MS {
            sadd(rest, es.last().qty)
        } else {
            rest
        }
    }
}

/// Volume of the trades in the `k`-th 30-second window back from `now`.
pub open spec fn window_volume(es: Seq<TradeEvent>, now: u64, k: int) -> i128
    decreases es.len(),
{
    if es.len() == 0 {
        0
    } else {
        let rest = window_volume(es.drop_last(), now, k);
        if age_ms(now, es.last().timestamp_ms) / (WINDOW_MS as int) == k {
            sadd(rest, es.last().qty)
        } else {
            rest
        }
    }
}

/// Total volume of windows 1 to `k`.
pub open spec fn earlier_windows_volume(es: Seq<TradeEvent>, now: u64, k: int) -> i128
    decreases k,
{
    if k <= 0 {
        0
    } else {
        sadd(earlier_windows_volume(es, now, k - 1), window_volume(es, now, k))
    }
}

/// Number of windows among 1 to `k` with a positive volume.
pub open spec fn active_windows(es: Seq<TradeEvent>, now: u64, k: int) -> int
    decreases k,
{
    if k <= 0 {
        0
    } else {
        active_windows(es, now, k - 1) + if window_volume(es, now, k) > 0 {
            1int
        } else {
            0int
        }
    }
}

/// Average volume of the nine windows before the current one, counting only
/// windows with volume (and at least one).
pub open spec fn average_volume(es: Seq<TradeEvent>, now: u64) -> i128 {
    let c = active_windows(es, now, 9);
    squot(earlier_windows_volume(es, now, 9), if c > 0 { c as i128 } else { 1 })
}

/// The 30-second volume against that average; 1 when the average is not
/// positive.
pub open spec fn volume_ratio(es: Seq<TradeEvent>, now: u64) -> i128 {
    let avg = average_volume(es, now);
    if avg > 0 {
        fdiv(recent_volume(es, now), avg)
    } else {
        SCALE
    }
}

/// Highest price of the trades at most 60 s old, and zero.
pub open spec fn recent_high(es: Seq<TradeEvent>, now: u64) -> i128
    decreases es.len(),
{
    if es.len() == 0 {
        0
    } else {
        let m = recent_high(es.drop_last(), now);
        let e = es.last();
        if age_ms(now, e.timestamp_ms) <= LOCAL_RANGE_MS && e.price > m {
            e.price
        } else {
            m
        }
    }
}

/// Lowest price of the trades at most 60 s old; `i128::MAX` when there is none.
pub open spec fn recent_low(es: Seq<TradeEvent>, now: u64) -> i128
    decreases es.len(),
{
    if es.len() == 0 {
        i128::MAX
    } else {
        let m = recent_low(es.drop_last(), now);
        let e = es.last();
        if age_ms(now, e.timestamp_ms) <= LOCAL_RANGE_MS && e.price < m {
            e.price
        } else {
            m
        }
    }
}

/// The volume figures: 30-second volume, average window volume and their
/// ratio.
pub fn volume_stats(es: &std::collections::VecDeque<TradeEvent>, now: u64) -> (r: (i128, i128, i128))
    ensures
        r.0 == recent_volume(es@, now),
        r.1 == average_volume(es@, now),
        r.2 == volume_ratio(es@, now),
{
    let n = es.len();
    let mut recent: i128 = 0;
    let mut windows: Vec<i128> = vec![0, 0, 0, 0, 0, 0, 0, 0, 0, 0];
    let mut i: usize = 0;
    assert(es@.take(0) =~= Seq::<TradeEvent>::empty());
    while i < n
        invariant
            i <= n,
            n == es@.len(),
            windows@.len() == WINDOW_COUNT,
            recent == recent_volume(es@.take(i as int), now),
            forall|k: int| 0 <= k < WINDOW_COUNT ==> #[trigger] windows@[k] == window_volume(es@.take(i as int), now, k),
        decreases n - i,
    {
        let e = es[i];
        let age = age_of(now, e.timestamp_ms);
        let ghost before = es@.take(i as int);
        let ghost after = es@.take(i + 1);
        assert(after.drop_last() =~= before);
        assert(after.last() == e);
        if age <= WINDOW_MS {
            recent = sat_add(recent, e.qty);
        }
        let idx = age / WINDOW_MS;
        if idx < WINDOW_COUNT {
            let k = idx as usize;
            let w = sat_add(windows[k], e.qty);
            windows.set(k, w);
        }
        assert forall|k: int| 0 <= k < WINDOW_COUNT implies #[trigger] windows@[k] == window_volume(after, now, k) by {
            assert(window_volume(after, now, k) == if age_ms(now, e.timestamp_ms) / (WINDOW_MS as int) == k {
                sadd(window_volume(before, now, k), e.qty)
            } else {
                window_volume(before, now, k)
            });
        }
        i = i + 1;
    }
    assert(es@.take(n as int) =~= es@);
    let mut sum: i128 = 0;
    let mut count: i128 = 0;
    let mut k: usize = 1;
    while k < 10
        invariant
            1 <= k <= 10,
            windows@.len() == WINDOW_COUNT,
            forall|j: int| 0 <= j < WINDOW_COUNT ==> #[trigger] windows@[j] == window_volume(es@, now, j),
            sum == earlier_windows_volume(es@, now, k - 1),
            count == active_windows(es@, now, k - 1),
            0 <= count < k,
        decreases 10 - k,
    {
        let w = windows[k];
        sum = sat_add(sum, w);
        if w > 0 {
            count = count + 1;
        }
        k = k + 1;
    }
    let divisor: i128 = if count > 0 {
        count
    } else {
        1
    };
    let avg = quot(sum, divisor);
    let ratio = if avg > 0 {
        fx_div(recent, avg)
    } else {
        SCALE
    };
    (recent, avg, ratio)
}

/// The highest and lowest price of the trades at most 60 s old among all but
/// the latest trade; `(0, i128::MAX)` when there is none.
pub fn price_extremes(es: &std::collections::VecDeque<TradeEvent>, now: u64, count: usize) -> (r: (i128, i128))
    requires
        count <= es@.len(),
    ensures
        r.0 == recent_high(es@.take(count as int), now),
        r.1 == recent_low(es@.take(count as int), now),
{
    let mut high: i128 = 0;
    let mut low: i128 = i128::MAX;
    let mut i: usize = 0;
    assert(es@.take(0) =~= Seq::<TradeEvent>::empty());
    while i < count
        invariant
            i <= count <= es@.len(),
            high == recent_high(es@.take(i as int), now),
            low == recent_low(es@.take(i as int), now),
        decreases count - i,
    {
        let e = es[i];
        let ghost before = es@.take(i as int);
        let ghost after = es@.take(i + 1);
        assert(after.drop_last() =~= before);
        assert(after.last() == e);
        let age = age_of(now, e.timestamp_ms);
        if age <= LOCAL_RANGE_MS && e.price > high {
            high = e.price;
        }
        if age <= LOCAL_RANGE_MS && e.price < low {
            low = e.price;
        }
        i = i + 1;
    }
    assert(es@.take(count as int).take(count as int) =~= es@.take(count as int));
    (high, low)
}

/// Windows 1 to `k` hold either nothing or `v`: their total is `v` times
/// the number that hold `v`.
proof fn lemma_uniform_windows(es: Seq<TradeEvent>, now: u64, v: i128, k: int)
    requires
        0 <= k <= 9,
        0 < v <= 1_000_000_000_000_000_000_000_000_000_000_000_000,
        forall|j: int| 1 <= j <= 9 ==> #[trigger] window_volume(es, now, j) == 0 || window_volume(es, now, j) == v,
    ensures
        earlier_windows_volume(es, now, k) == v * active_windows(es, now, k),
        0 <= active_windows(es, now, k) <= k,
        forall|j: int| 1 <= j <= k && #[trigger] window_volume(es, now, j) == v ==> active_windows(es, now, k) >= 1,
    decreases k,
{
    if k > 0 {
        lemma_uniform_windows(es, now, v, k - 1);
        let a = active_windows(es, now, k - 1);
        assert(v * a <= v * 9 && v * 9 <= 9_000_000_000_000_000_000_000_000_000_000_000_000 && v * (a + 1) == v * a
            + v && v * a >= 0) by (nonlinear_arith)
            requires
                0 <= a <= 9,
                0 < v <= 1_000_000_000_000_000_000_000_000_000_000_000_000,
        ;
        assert(window_volume(es, now, k) == 0 || window_volume(es, now, k) == v);
    }
}

/// The average window volume is an average, not a total: when each of the
/// nine windows before the current one holds either nothing or the same
/// volume `v`, and at least one holds `v`, the average is `v`, and the volume
/// ratio is the 30-second volume over `v`.
pub proof fn lemma_average_of_equal_windows(es: Seq<TradeEvent>, now: u64, v: i128)
    requires
        0 < v <= 1_000_000_000_000_000_000_000_000_000_000_000_000,
        forall|j: int| 1 <= j <= 9 ==> #[trigger] window_volume(es, now, j) == 0 || window_volume(es, now, j) == v,
        exists|j: int| 1 <= j <= 9 && #[trigger] window_volume(es, now, j) == v,
    ensures
        average_volume(es, now) == v,
        volume_ratio(es, now) == fdiv(recent_volume(es, now), v),
{
    lemma_uniform_windows(es, now, v, 9);
    let c = active_windows(es, now, 9);
    let j0 = choose|j: int| 1 <= j <= 9 && #[trigger] window_volume(es, now, j) == v;
    assert(window_volume(es, now, j0) == v);
    assert(c >= 1);
    assert((v * c) / c == v) by (nonlinear_arith)
        requires
            c >= 1,
            v > 0,
    ;
    assert(v * c > 0) by (nonlinear_arith)
        requires
            c >= 1,
            v > 0,
    ;
}

/// A trade placed anywhere among the others leaves the local high and low
/// alone when it is more than 60 s old.
proof fn lemma_old_trade_ignored(a: Seq<TradeEvent>, e: TradeEvent, b: Seq<TradeEvent>, now: u64)
    requires
        age_ms(now, e.timestamp_ms) > LOCAL_RANGE_MS,
    ensures
        recent_high(a + seq![e] + b, now) == recent_high(a + b, now),
        recent_low(a + seq![e] + b, now) == recent_low(a + b, now),
    decreases b.len(),
{
    if b.len() == 0 {
        assert((a + seq![e] + b).drop_last() =~= a);
        assert(a + b =~= a);
    } else {
        lemma_old_trade_ignored(a, e, b.drop_last(), now);
        assert((a + seq![e] + b).drop_last() =~= a + seq![e] + b.drop_last());
        assert((a + b).drop_last() =~= a + b.drop_last());
        assert((a + seq![e] + b).last() == b.last());
        assert((a + b).last() == b.last());
    }
}

/// The local high and low of the last minute depend only on the trades at
/// most 60 s old: a trade older than that, added anywhere or changed, leaves
/// both as they were; and a local high above zero (or a low below
/// `i128::MAX`) is the price of a trade at most 60 s old.
pub proof fn lemma_local_range_is_recent(es: Seq<TradeEvent>, i: int, e: TradeEvent, now: u64)
    requires
        0 <= i <= es.len(),
        age_ms(now, e.timestamp_ms) > LOCAL_RANGE_MS,
    ensures
        recent_high(es.insert(i, e), now) == recent_high(es, now),
        recent_low(es.insert(i, e), now) == recent_low(es, now),
        i < es.len() && age_ms(now, es[i].timestamp_ms) > LOCAL_RANGE_MS ==> recent_high(es.update(i, e), now)
            == recent_high(es, now) && recent_low(es.update(i, e), now) == recent_low(es, now),
        recent_high(es, now) > 0 ==> exists|k: int|
            0 <= k < es.len() && age_ms(now, #[trigger] es[k].timestamp_ms) <= LOCAL_RANGE_MS && es[k].price
                == recent_high(es, now),
        recent_low(es, now) < i128::MAX ==> exists|k: int|
            0 <= k < es.len() && age_ms(now, #[trigger] es[k].timestamp_ms) <= LOCAL_RANGE_MS && es[k].price
                == recent_low(es, now),
{
    let a = es.take(i);
    let b = es.skip(i);
    assert(es =~= a + b);
    assert(es.insert(i, e) =~= a + seq![e] + b);
    lemma_old_trade_ignored(a, e, b, now);
    if i < es.len() && age_ms(now, es[i].timestamp_ms) > LOCAL_RANGE_MS {
        let b2 = es.skip(i + 1);
        assert(es.update(i, e) =~= a + seq![e] + b2);
        assert(es =~= a + seq![es[i]] + b2);
        lemma_old_trade_ignored(a, e, b2, now);
        lemma_old_trade_ignored(a, es[i], b2, now);
    }
    lemma_extremes_attained(es, now);
}

proof fn lemma_extremes_attained(es: Seq<TradeEvent>, now: u64)
    ensures
        recent_high(es, now) > 0 ==> exists|k: int|
            0 <= k < es.len() && age_ms(now, #[trigger] es[k].timestamp_ms) <= LOCAL_RANGE_MS && es[k].price
                == recent_high(es, now),
        recent_low(es, now) < i128::MAX ==> exists|k: int|
            0 <= k < es.len() && age_ms(now, #[trigger] es[k].timestamp_ms) <= LOCAL_RANGE_MS && es[k].price
                == recent_low(es, now),
    decreases es.len(),
{
    if es.len() > 0 {
        let t = es.drop_last();
        lemma_extremes_attained(t, now);
        let n = es.len() - 1;
        assert(es[n] == es.last());
        if recent_high(es, now) > 0 && recent_high(es, now) == recent_high(t, now) {
            let k = choose|k: int|
                0 <= k < t.len() && age_ms(now, #[trigger] t[k].timestamp_ms) <= LOCAL_RANGE_MS && t[k].price
                    == recent_high(t, now);
            assert(es[k] == t[k]);
        }
        if recent_low(es, now) < i128::MAX && recent_low(es, now) == recent_low(t, now) {
            let k = choose|k: int|
                0 <= k < t.len() && age_ms(now, #[trigger] t[k].timestamp_ms) <= LOCAL_RANGE_MS && t[k].price
                    == recent_low(t, now);
            assert(es[k] == t[k]);
        }
    }
}

} // verus!
