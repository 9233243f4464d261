//! A local copy of the exchange's order book, kept in step with a depth
//! snapshot and the stream of depth updates.
//!
//! Price levels are keyed by the price in cents (rounded half away from zero,
//! and held at `u64::MAX` beyond it);
//! quantities are fixed-point numbers with eight decimal places. Until
//! the snapshot arrives, updates are buffered; once it arrives they are
//! replayed in order. Updates whose final id is not newer than the book's are
//! dropped; within an update, a level with quantity zero is removed.
use vstd::prelude::*;
use std::collections::BTreeMap;
use crate::fixed::{fdiv, fx_div, sadd, sat_add, SCALE};
use vstd::std_specs::iter::IteratorSpec;
use crate::parse::{lemma_positive_reading, parse_scaled, parse_scaled_spec, Scaled};

verus! {

/// One `[price, quantity]` pair of a depth message, each when it is a string.
#[derive(Debug)]
pub struct PriceLevel {
    pub price: Option<String>,
    pub qty: Option<String>,
}

/// The REST snapshot of the book.
#[derive(Debug)]
pub struct DepthSnapshot {
    /// `lastUpdateId`, when it is an unsigned integer.
    pub last_update_id: Option<u64>,
    /// `bids`, when it is an array.
    pub bids: Option<Vec<PriceLevel>>,
    /// `asks`, when it is an array.
    pub asks: Option<Vec<PriceLevel>>,
}

/// A depth update from the stream.
#[derive(Debug)]
pub struct DepthUpdate {
    /// `u`, when it is an unsigned integer.
    pub final_update_id: Option<u64>,
    /// `b`, when it is an array.
    pub bids: Option<Vec<PriceLevel>>,
    /// `a`, when it is an array.
    pub asks: Option<Vec<PriceLevel>>,
}

/// The local order book.
pub struct LocalOrderBook {
    bids: BTreeMap<u64, i128>,
    asks: BTreeMap<u64, i128>,
    last_update_id: u64,
    synced: bool,
    buffered_events: Vec<DepthUpdate>,
}

/// What the book holds.
pub struct BookModel {
    /// Bid quantity by price in cents.
    pub bids: Map<u64, i128>,
    /// Ask quantity by price in cents.
    pub asks: Map<u64, i128>,
    pub last_update_id: u64,
    /// The snapshot has been loaded.
    pub synced: bool,
    /// Updates received before the snapshot, oldest first.
    pub buffered: Seq<DepthUpdate>,
}

impl View for LocalOrderBook {
    type V = BookModel;

    closed spec fn view(&self) -> BookModel {
        BookModel {
            bids: self.bids@,
            asks: self.asks@,
            last_update_id: self.last_update_id,
            synced: self.synced,
            buffered: self.buffered_events@,
        }
    }
}

pub open spec fn zero_reading() -> Scaled {
    Scaled { value: 0, sign: 0 }
}

/// A text field read at `scale` decimal places; zero when it is missing or
/// not a number.
pub open spec fn read_at(field: Option<String>, scale: nat) -> Scaled {
    match field {
        Some(s) => match parse_scaled_spec(s@, scale) {
            Some(v) => v,
            None => zero_reading(),
        },
        None => zero_reading(),
    }
}

/// The price of a level, in cents.
pub open spec fn level_price(l: PriceLevel) -> Scaled {
    read_at(l.price, 2)
}

/// The quantity of a level, at eight decimal places.
pub open spec fn level_qty(l: PriceLevel) -> Scaled {
    read_at(l.qty, 8)
}

/// The key of a price in cents: the price itself, held at `u64::MAX` beyond
/// it (as a float-to-integer cast saturates).
pub open spec fn price_key(cents: i128) -> u64 {
    if cents > u64::MAX {
        u64::MAX
    } else if cents < 0 {
        0
    } else {
        cents as u64
    }
}

fn key_of(cents: i128) -> (r: u64)
    ensures
        r == price_key(cents),
{
    if cents > u64::MAX as i128 {
        u64::MAX
    } else if cents < 0 {
        0
    } else {
        cents as u64
    }
}

/// The levels of one side of a message; none when the field is missing.
pub open spec fn side_levels(levels: Option<Vec<PriceLevel>>) -> Seq<PriceLevel> {
    match levels {
        Some(v) => v@,
        None => Seq::empty(),
    }
}

/// A snapshot level taken into `m`: only when both fields are strings and
/// both price and quantity are positive.
pub open spec fn with_snapshot_level(m: Map<u64, i128>, l: PriceLevel) -> Map<u64, i128> {
    let p = level_price(l);
    let q = level_qty(l);
    if l.price.is_some() && l.qty.is_some() && p.sign > 0 && q.sign > 0 {
        m.insert(price_key(p.value), q.value)
    } else {
        m
    }
}

/// Snapshot levels taken into `m` in order.
pub open spec fn with_snapshot_levels(m: Map<u64, i128>, ls: Seq<PriceLevel>) -> Map<u64, i128>
    decreases ls.len(),
{
    if ls.len() == 0 {
        m
    } else {
        with_snapshot_level(with_snapshot_levels(m, ls.drop_last()), ls.last())
    }
}

/// An update level applied to `m`: with both fields strings and a positive
/// price, a zero quantity removes the level and any other sets it.
pub open spec fn with_update_level(m: Map<u64, i128>, l: PriceLevel) -> Map<u64, i128> {
    let p = level_price(l);
    let q = level_qty(l);
    if l.price.is_some() && l.qty.is_some() && p.sign > 0 {
        if q.sign == 0 {
            m.remove(price_key(p.value))
        } else {
            m.insert(price_key(p.value), q.value)
        }
    } else {
        m
    }
}

/// Update levels applied to `m` in order.
pub open spec fn with_update_levels(m: Map<u64, i128>, ls: Seq<PriceLevel>) -> Map<u64, i128>
    decreases ls.len(),
{
    if ls.len() == 0 {
        m
    } else {
        with_update_level(with_update_levels(m, ls.drop_last()), ls.last())
    }
}

/// The book after an update: buffered before the snapshot; afterwards
/// applied when its final id is newer than the book's, else dropped.
pub open spec fn after_update(b: BookModel, e: DepthUpdate) -> BookModel {
    if !b.synced {
        BookModel { buffered: b.buffered.push(e), ..b }
    } else {
        match e.final_update_id {
            Some(u) => if u <= b.last_update_id {
                b
            } else {
                BookModel {
                    bids: with_update_levels(b.bids, side_levels(e.bids)),
                    asks: with_update_levels(b.asks, side_levels(e.asks)),
                    last_update_id: u,
                    ..b
                }
            },
            None => b,
        }
    }
}

/// The book after updates in order.
pub open spec fn after_updates(b: BookModel, es: Seq<DepthUpdate>) -> BookModel
    decreases es.len(),
{
    if es.len() == 0 {
        b
    } else {
        after_update(after_updates(b, es.drop_last()), es.last())
    }
}

/// The book after a snapshot: with an id, the levels are replaced by the
/// snapshot's, the book is synced and the buffered updates are replayed;
/// without one nothing changes.
pub open spec fn after_snapshot(b: BookModel, s: DepthSnapshot) -> BookModel {
    match s.last_update_id {
        Some(id) => after_updates(
            BookModel {
                bids: with_snapshot_levels(Map::empty(), side_levels(s.bids)),
                asks: with_snapshot_levels(Map::empty(), side_levels(s.asks)),
                last_update_id: id,
                synced: true,
                buffered: Seq::empty(),
            },
            b.buffered,
        ),
        None => b,
    }
}

fn read_level_field(field: &Option<String>, scale: usize) -> (r: Scaled)
    ensures
        r == read_at(*field, scale as nat),
{
    match field {
        Some(s) => match parse_scaled(s.as_str(), scale) {
            Some(v) => v,
            None => Scaled { value: 0, sign: 0 },
        },
        None => Scaled { value: 0, sign: 0 },
    }
}

/// A positive reading has a non-negative value.
proof fn lemma_positive_field(field: Option<String>, scale: nat)
    requires
        read_at(field, scale).sign > 0,
    ensures
        read_at(field, scale).value >= 0,
{
    if let Some(s) = field {
        lemma_positive_reading(s@, scale);
    }
}

fn load_snapshot_side(m: &mut BTreeMap<u64, i128>, levels: &Option<Vec<PriceLevel>>)
    ensures
        final(m)@ == with_snapshot_levels(old(m)@, side_levels(*levels)),
{
    if let Some(ls) = levels {
        let n = ls.len();
        let mut i: usize = 0;
        assert(ls@.take(0) =~= Seq::<PriceLevel>::empty());
        while i < n
            invariant
                i <= n,
                n == ls@.len(),
                m@ == with_snapshot_levels(old(m)@, ls@.take(i as int)),
            decreases n - i,
        {
            let l = &ls[i];
            assert(ls@.take(i + 1).drop_last() =~= ls@.take(i as int));
            if l.price.is_some() && l.qty.is_some() {
                let p = read_level_field(&l.price, 2);
                let q = read_level_field(&l.qty, 8);
                if p.sign > 0 && q.sign > 0 {
                    proof {
                        lemma_positive_field(l.price, 2);
                    }
                    m.insert(key_of(p.value), q.value);
                }
            }
            i = i + 1;
        }
        assert(ls@.take(n as int) =~= ls@);
    }
}

fn apply_update_side(m: &mut BTreeMap<u64, i128>, levels: &Option<Vec<PriceLevel>>)
    ensures
        final(m)@ == with_update_levels(old(m)@, side_levels(*levels)),
{
    if let Some(ls) = levels {
        let n = ls.len();
        let mut i: usize = 0;
        assert(ls@.take(0) =~= Seq::<PriceLevel>::empty());
        while i < n
            invariant
                i <= n,
                n == ls@.len(),
                m@ == with_update_levels(old(m)@, ls@.take(i as int)),
            decreases n - i,
        {
            let l = &ls[i];
            assert(ls@.take(i + 1).drop_last() =~= ls@.take(i as int));
            if l.price.is_some() && l.qty.is_some() {
                let p = read_level_field(&l.price, 2);
                let q = read_level_field(&l.qty, 8);
                if p.sign > 0 {
                    proof {
                        lemma_positive_field(l.price, 2);
                    }
                    let key = key_of(p.value);
                    if q.sign == 0 {
                        m.remove(&key);
                    } else {
                        m.insert(key, q.value as i128);
                    }
                }
            }
            i = i + 1;
        }
        assert(ls@.take(n as int) =~= ls@);
    }
}

impl LocalOrderBook {
    /// An empty book that waits for its snapshot.
    pub fn new() -> (r: Self)
        ensures
            r@.bids == Map::<u64, i128>::empty(),
            r@.asks == Map::<u64, i128>::empty(),
            r@.last_update_id == 0,
            !r@.synced,
            r@.buffered == Seq::<DepthUpdate>::empty(),
    {
        LocalOrderBook {
            bids: BTreeMap::new(),
            asks: BTreeMap::new(),
            last_update_id: 0,
            synced: false,
            buffered_events: Vec::new(),
        }
    }

    /// Applies an update to a synced book.
    fn apply_synced(&mut self, data: &DepthUpdate)
        requires
            old(self)@.synced,
        ensures
            final(self)@ == after_update(old(self)@, *data),
    {
        let final_update_id = match data.final_update_id {
            Some(u) => u,
            None => {
                return;
            },
        };
        if final_update_id <= self.last_update_id {
            return;
        }
        apply_update_side(&mut self.bids, &data.bids);
        apply_update_side(&mut self.asks, &data.asks);
        self.last_update_id = final_update_id;
    }

    /// Takes a depth update from the stream.
    pub fn apply_depth_update(&mut self, data: DepthUpdate)
        ensures
            final(self)@ == after_update(old(self)@, data),
    {
        if !self.synced {
            self.buffered_events.push(data);
            return;
        }
        self.apply_synced(&data);
    }

    /// Loads the REST snapshot and replays the buffered updates.
    pub fn init_from_snapshot(&mut self, snapshot: &DepthSnapshot)
        ensures
            final(self)@ == after_snapshot(old(self)@, *snapshot),
    {
        if let Some(last_id) = snapshot.last_update_id {
            self.last_update_id = last_id;
            self.bids.clear();
            self.asks.clear();
            load_snapshot_side(&mut self.bids, &snapshot.bids);
            load_snapshot_side(&mut self.asks, &snapshot.asks);
            self.synced = true;
            let mut events: Vec<DepthUpdate> = Vec::new();
            std::mem::swap(&mut events, &mut self.buffered_events);
            let ghost start = self@;
            let n = events.len();
            let mut i: usize = 0;
            assert(events@.take(0) =~= Seq::<DepthUpdate>::empty());
            while i < n
                invariant
                    i <= n,
                    n == events@.len(),
                    self@.synced,
                    self@ == after_updates(start, events@.take(i as int)),
                decreases n - i,
            {
                assert(events@.take(i + 1).drop_last() =~= events@.take(i as int));
                self.apply_synced(&events[i]);
                i = i + 1;
            }
            assert(events@.take(n as int) =~= events@);
        }
    }
}

/// `s` lists the keys of `m` in increasing order.
pub open spec fn is_key_order(s: Seq<u64>, m: Map<u64, i128>) -> bool {
    &&& forall|i: int, j: int| 0 <= i < j < s.len() ==> s[i] < s[j]
    &&& forall|k: u64| m.dom().contains(k) <==> s.contains(k)
}

/// The keys of `m` in increasing order.
pub open spec fn sorted_keys(m: Map<u64, i128>) -> Seq<u64> {
    choose|s: Seq<u64>| is_key_order(s, m)
}

/// Sum of the quantities at the prices `ks`, in order, saturating.
pub open spec fn levels_total(m: Map<u64, i128>, ks: Seq<u64>) -> i128
    decreases ks.len(),
{
    if ks.len() == 0 {
        0
    } else {
        sadd(levels_total(m, ks.drop_last()), m[ks.last()])
    }
}

/// Total bid quantity of the `levels` highest bid prices.
pub open spec fn top_bids_volume(bids: Map<u64, i128>, levels: nat) -> i128 {
    let ks = sorted_keys(bids);
    let lo = if ks.len() > levels {
        ks.len() - levels
    } else {
        0
    };
    levels_total(bids, ks.subrange(lo, ks.len() as int))
}

/// Total ask quantity of the `levels` lowest ask prices.
pub open spec fn top_asks_volume(asks: Map<u64, i128>, levels: nat) -> i128 {
    let ks = sorted_keys(asks);
    let hi = if ks.len() > levels {
        levels as int
    } else {
        ks.len() as int
    };
    levels_total(asks, ks.take(hi))
}

/// The order book imbalance: bid volume over ask volume; 1 when the ask
/// volume is not positive.
pub open spec fn imbalance_ratio(bid_volume: i128, ask_volume: i128) -> i128 {
    if ask_volume > 0 {
        fdiv(bid_volume, ask_volume)
    } else {
        SCALE
    }
}

/// Two increasing orderings of the same keys are the same sequence.
proof fn lemma_key_order_unique(s1: Seq<u64>, s2: Seq<u64>)
    requires
        forall|i: int, j: int| 0 <= i < j < s1.len() ==> s1[i] < s1[j],
        forall|i: int, j: int| 0 <= i < j < s2.len() ==> s2[i] < s2[j],
        forall|k: u64| s1.contains(k) <==> s2.contains(k),
    ensures
        s1 == s2,
    decreases s1.len(),
{
    if s1.len() == 0 {
        if s2.len() > 0 {
            assert(s2.contains(s2[0]));
        }
        assert(s1 =~= s2);
    } else {
        assert(s1.contains(s1[0]));
        assert(s2.len() > 0);
        assert(s2.contains(s2[0]));
        let i = choose|i: int| 0 <= i < s1.len() && s1[i] == s2[0];
        let j = choose|j: int| 0 <= j < s2.len() && s2[j] == s1[0];
        if i > 0 {
            assert(s1[0] < s1[i]);
        }
        if j > 0 {
            assert(s2[0] < s2[j]);
        }
        assert(s1[0] == s2[0]);
        let t1 = s1.drop_first();
        let t2 = s2.drop_first();
        assert forall|k: u64| t1.contains(k) <==> t2.contains(k) by {
            if t1.contains(k) {
                let a = choose|a: int| 0 <= a < t1.len() && t1[a] == k;
                assert(s1[a + 1] == k);
                assert(s1[0] < s1[a + 1]);
                assert(s2.contains(k));
                let b = choose|b: int| 0 <= b < s2.len() && s2[b] == k;
                assert(b != 0);
                assert(t2[b - 1] == k);
            }
            if t2.contains(k) {
                let a = choose|a: int| 0 <= a < t2.len() && t2[a] == k;
                assert(s2[a + 1] == k);
                assert(s2[0] < s2[a + 1]);
                assert(s1.contains(k));
                let b = choose|b: int| 0 <= b < s1.len() && s1[b] == k;
                assert(b != 0);
                assert(t1[b - 1] == k);
            }
        }
        lemma_key_order_unique(t1, t2);
        assert(s1 =~= s2) by {
            assert forall|x: int| 0 <= x < s1.len() implies s1[x] == s2[x] by {
                if x > 0 {
                    assert(s1[x] == t1[x - 1]);
                    assert(s2[x] == t2[x - 1]);
                }
            }
        }
    }
}

/// A finite, non-empty set of prices has a highest one.
proof fn lemma_highest_key(d: Set<u64>) -> (k: u64)
    requires
        d.finite(),
        d.len() > 0,
    ensures
        d.contains(k),
        forall|x: u64| d.contains(x) ==> x <= k,
    decreases d.len(),
{
    let x = d.choose();
    let rest = d.remove(x);
    if rest.len() == 0 {
        assert forall|y: u64| d.contains(y) implies y <= x by {
            if y != x {
                assert(rest.contains(y));
            }
        }
        x
    } else {
        let k2 = lemma_highest_key(rest);
        let k = if x > k2 {
            x
        } else {
            k2
        };
        assert forall|y: u64| d.contains(y) implies y <= k by {
            if y != x {
                assert(rest.contains(y));
            }
        }
        k
    }
}

/// The prices of a finite book side, in increasing order, are its keys:
/// `sorted_keys` lists each key once, lowest first.
pub proof fn lemma_sorted_keys(m: Map<u64, i128>)
    requires
        m.dom().finite(),
    ensures
        is_key_order(sorted_keys(m), m),
    decreases m.dom().len(),
{
    if m.dom().len() == 0 {
        m.dom().lemma_len0_is_empty();
        let s = Seq::<u64>::empty();
        assert(is_key_order(s, m));
    } else {
        let k = lemma_highest_key(m.dom());
        let m2 = m.remove(k);
        assert(m2.dom() =~= m.dom().remove(k));
        lemma_sorted_keys(m2);
        let s2 = sorted_keys(m2);
        let s = s2.push(k);
        assert forall|i: int, j: int| 0 <= i < j < s.len() implies s[i] < s[j] by {
            if j < s2.len() {
                assert(s[i] == s2[i] && s[j] == s2[j]);
            } else {
                assert(s[i] == s2[i]);
                assert(s2.contains(s2[i]));
                assert(m2.dom().contains(s2[i]));
            }
        }
        assert forall|x: u64| m.dom().contains(x) <==> s.contains(x) by {
            if m.dom().contains(x) {
                if x == k {
                    assert(s[s.len() - 1] == k);
                } else {
                    assert(m2.dom().contains(x));
                    assert(s2.contains(x));
                    let a = choose|a: int| 0 <= a < s2.len() && s2[a] == x;
                    assert(s[a] == x);
                }
            }
            if s.contains(x) {
                let a = choose|a: int| 0 <= a < s.len() && s[a] == x;
                if a < s2.len() {
                    assert(s2[a] == x);
                    assert(s2.contains(x));
                    assert(m2.dom().contains(x));
                }
            }
        }
        assert(is_key_order(s, m));
    }
}

/// Quantities that are never negative.
pub open spec fn non_negative_levels(m: Map<u64, i128>) -> bool {
    forall|k: u64| m.contains_key(k) ==> m[k] >= 0
}

proof fn lemma_total_non_negative(m: Map<u64, i128>, ks: Seq<u64>)
    requires
        non_negative_levels(m),
        forall|i: int| 0 <= i < ks.len() ==> m.contains_key(#[trigger] ks[i]),
    ensures
        levels_total(m, ks) >= 0,
    decreases ks.len(),
{
    if ks.len() > 0 {
        lemma_total_non_negative(m, ks.drop_last());
        assert(m.contains_key(ks[ks.len() - 1]));
    }
}

/// Adding levels at the end never lowers a total.
proof fn lemma_total_grows_at_end(m: Map<u64, i128>, s: Seq<u64>, t: Seq<u64>)
    requires
        non_negative_levels(m),
        forall|i: int| 0 <= i < s.len() ==> m.contains_key(#[trigger] s[i]),
        forall|i: int| 0 <= i < t.len() ==> m.contains_key(#[trigger] t[i]),
    ensures
        levels_total(m, s) <= levels_total(m, s + t),
    decreases t.len(),
{
    if t.len() == 0 {
        assert(s + t =~= s);
    } else {
        lemma_total_grows_at_end(m, s, t.drop_last());
        assert((s + t).drop_last() =~= s + t.drop_last());
        assert(m.contains_key(t[t.len() - 1]));
        assert((s + t).last() == t.last());
        lemma_total_non_negative(m, s + t.drop_last());
        assert forall|i: int| 0 <= i < (s + t.drop_last()).len() implies m.contains_key(
            #[trigger] (s + t.drop_last())[i],
        ) by {
            if i < s.len() {
                assert((s + t.drop_last())[i] == s[i]);
            } else {
                assert((s + t.drop_last())[i] == t[i - s.len()]);
            }
        }
    }
}

/// Adding levels at the front never lowers a total.
proof fn lemma_total_grows_at_front(m: Map<u64, i128>, t: Seq<u64>, s: Seq<u64>)
    requires
        non_negative_levels(m),
        forall|i: int| 0 <= i < s.len() ==> m.contains_key(#[trigger] s[i]),
        forall|i: int| 0 <= i < t.len() ==> m.contains_key(#[trigger] t[i]),
    ensures
        levels_total(m, s) <= levels_total(m, t + s),
    decreases s.len(),
{
    if s.len() == 0 {
        assert(t + s =~= t);
        lemma_total_non_negative(m, t);
    } else {
        lemma_total_grows_at_front(m, t, s.drop_last());
        assert((t + s).drop_last() =~= t + s.drop_last());
        assert((t + s).last() == s.last());
    }
}

/// With quantities that are never negative, weighing more levels never gives
/// less volume: the bid and ask volumes of the best `n` levels are at least
/// zero and grow with `n`.
pub proof fn lemma_volumes_grow_with_levels(m: Map<u64, i128>, n: nat, k: nat)
    requires
        m.dom().finite(),
        non_negative_levels(m),
        n <= k,
    ensures
        0 <= top_bids_volume(m, n) <= top_bids_volume(m, k),
        0 <= top_asks_volume(m, n) <= top_asks_volume(m, k),
{
    lemma_sorted_keys(m);
    let ks = sorted_keys(m);
    let len = ks.len() as int;
    assert forall|i: int| 0 <= i < len implies m.contains_key(#[trigger] ks[i]) by {
        assert(ks.contains(ks[i]));
    }
    let lo_n = if ks.len() > n { ks.len() - n } else { 0 };
    let lo_k = if ks.len() > k { ks.len() - k } else { 0 };
    assert(ks.subrange(lo_k, len) =~= ks.subrange(lo_k, lo_n) + ks.subrange(lo_n, len));
    lemma_total_grows_at_front(m, ks.subrange(lo_k, lo_n), ks.subrange(lo_n, len));
    lemma_total_non_negative(m, ks.subrange(lo_n, len));
    let hi_n = if ks.len() > n { n as int } else { len };
    let hi_k = if ks.len() > k { k as int } else { len };
    assert(ks.take(hi_k) =~= ks.take(hi_n) + ks.subrange(hi_n, hi_k));
    lemma_total_grows_at_end(m, ks.take(hi_n), ks.subrange(hi_n, hi_k));
    lemma_total_non_negative(m, ks.take(hi_n));
}

impl LocalOrderBook {
    /// Each side of a book holds finitely many price levels.
    pub proof fn lemma_sides_finite(&self)
        ensures
            self@.bids.dom().finite(),
            self@.asks.dom().finite(),
    {
        assert(self.bids@.dom().finite());
        assert(self.asks@.dom().finite());
    }

    /// On a book whose quantities are never negative, weighing more levels
    /// never gives less volume on either side: what `calculate_imbalance`
    /// returns for `n` levels is at most what it returns for `k >= n`.
    pub proof fn lemma_imbalance_volumes_grow(&self, n: nat, k: nat)
        requires
            n <= k,
            non_negative_levels(self@.bids),
            non_negative_levels(self@.asks),
        ensures
            0 <= top_bids_volume(self@.bids, n) <= top_bids_volume(self@.bids, k),
            0 <= top_asks_volume(self@.asks, n) <= top_asks_volume(self@.asks, k),
    {
        self.lemma_sides_finite();
        lemma_volumes_grow_with_levels(self@.bids, n, k);
        lemma_volumes_grow_with_levels(self@.asks, n, k);
    }
}

/// Keys that the map's iterator yields in increasing order increase.
proof fn lemma_increasing_keys(ks: Seq<u64>)
    requires
        vstd::std_specs::btree::increasing_seq(ks),
    ensures
        forall|i: int, j: int| 0 <= i < j < ks.len() ==> ks[i] < ks[j],
{
    assert(vstd::laws_cmp::obeys_cmp::<u64>());
    assert forall|i: int, j: int| 0 <= i < j < ks.len() implies ks[i] < ks[j] by {
        assert(vstd::std_specs::cmp::OrdSpec::cmp_spec(&ks[i], &ks[j]) is Less);
    }
}

/// Sum of the quantities at the `lo..hi` positions of the key order of `m`.
fn sum_key_range(m: &BTreeMap<u64, i128>, lo: usize, hi: usize) -> (r: i128)
    requires
        lo <= hi <= m@.dom().len(),
    ensures
        r == levels_total(m@, sorted_keys(m@).subrange(lo as int, hi as int)),
        sorted_keys(m@).len() == m@.dom().len(),
{
    let count = m.len();
    let iter = m.iter();
    let ghost rem = iter.remaining();
    let ghost ks = rem.map_values(|kv: (&u64, &i128)| *kv.0);
    proof {
        lemma_increasing_keys(ks);
        assert(is_key_order(ks, m@)) by {
            assert forall|k: u64| m@.dom().contains(k) <==> ks.contains(k) by {
                if m@.dom().contains(k) {
                    assert(rem.contains((&k, &m@[k])));
                    let a = choose|a: int| 0 <= a < rem.len() && rem[a] == (&k, &m@[k]);
                    assert(ks[a] == k);
                }
                if ks.contains(k) {
                    let a = choose|a: int| 0 <= a < ks.len() && ks[a] == k;
                    assert(m@.contains_key(*rem[a].0));
                }
            }
        }
        lemma_key_order_unique(ks, sorted_keys(m@));
    }
    let mut total: i128 = 0;
    let mut idx: usize = 0;
    assert(ks.subrange(lo as int, lo as int) =~= Seq::<u64>::empty());
    for kv in it: iter
        invariant
            lo <= hi <= m@.dom().len(),
            count == m@.dom().len(),
            it.seq() == rem,
            rem.len() == m@.dom().len(),
            ks == rem.map_values(|kv: (&u64, &i128)| *kv.0),
            ks == sorted_keys(m@),
            forall|i: int| 0 <= i < rem.len() ==> m@[*rem[i].0] == *rem[i].1,
            idx == it.index(),
            idx <= rem.len(),
            total == levels_total(
                m@,
                ks.subrange(lo as int, if idx < lo { lo as int } else if idx > hi { hi as int } else { idx as int }),
            ),
    {
        let ghost before = if idx < lo { lo as int } else if idx > hi { hi as int } else { idx as int };
        if lo <= idx && idx < hi {
            assert(ks.subrange(lo as int, idx + 1).drop_last() =~= ks.subrange(lo as int, idx as int));
            assert(*kv.0 == ks[idx as int]);
            total = sat_add(total, *kv.1);
        }
        idx = idx + 1;
    }
    total
}

impl LocalOrderBook {
    /// Bid volume of the `levels` highest bids, ask volume of the `levels`
    /// lowest asks, and their ratio (1 when the ask volume is not positive).
    pub fn calculate_imbalance(&self, levels: usize) -> (r: (i128, i128, i128))
        ensures
            r.0 == top_bids_volume(self@.bids, levels as nat),
            r.1 == top_asks_volume(self@.asks, levels as nat),
            r.2 == imbalance_ratio(r.0, r.1),
    {
        let nb = self.bids.len();
        let na = self.asks.len();
        let bid_volume = sum_key_range(&self.bids, if nb > levels { nb - levels } else { 0 }, nb);
        let ask_volume = sum_key_range(&self.asks, 0, if na > levels { levels } else { na });
        let ratio = if ask_volume > 0 {
            fx_div(bid_volume, ask_volume)
        } else {
            SCALE
        };
        (bid_volume, ask_volume, ratio)
    }
}

/// Updates received before the snapshot count as if they arrived after it:
/// buffering an update and then loading a snapshot gives the same book as
/// loading the snapshot and then applying the update.
pub proof fn lemma_buffered_update_replayed(b: BookModel, e: DepthUpdate, s: DepthSnapshot)
    requires
        !b.synced,
        s.last_update_id.is_some(),
    ensures
        after_snapshot(after_update(b, e), s) == after_update(after_snapshot(b, s), e),
{
    assert(b.buffered.push(e).drop_last() =~= b.buffered);
}

/// Once synced, an update whose final id is not newer than the book's
/// changes nothing.
pub proof fn lemma_stale_update_dropped(b: BookModel, e: DepthUpdate)
    requires
        b.synced,
        e.final_update_id matches Some(u) && u <= b.last_update_id,
    ensures
        after_update(b, e) == b,
{
}

/// Once synced, applying the same update twice is the same as applying it
/// once.
pub proof fn lemma_update_idempotent(b: BookModel, e: DepthUpdate)
    requires
        b.synced,
    ensures
        after_update(after_update(b, e), e) == after_update(b, e),
{
}

/// Once synced, the book's update id never goes back, and the book stays
/// synced with nothing buffered.
pub proof fn lemma_update_id_monotone(b: BookModel, e: DepthUpdate)
    requires
        b.synced,
    ensures
        after_update(b, e).last_update_id >= b.last_update_id,
        after_update(b, e).synced,
        after_update(b, e).buffered == b.buffered,
{
}

/// A snapshot with an id syncs the book, empties the buffer, and the levels
/// it leaves depend only on the snapshot and the buffered updates, not on the
/// levels held before.
pub proof fn lemma_snapshot_replaces_levels(b1: BookModel, b2: BookModel, s: DepthSnapshot)
    requires
        s.last_update_id.is_some(),
        b1.buffered == b2.buffered,
    ensures
        after_snapshot(b1, s) == after_snapshot(b2, s),
        after_snapshot(b1, s).synced,
        after_snapshot(b1, s).buffered.len() == 0,
        after_snapshot(b1, s).last_update_id >= s.last_update_id->0,
{
    lemma_replay_synced(
        BookModel {
            bids: with_snapshot_levels(Map::empty(), side_levels(s.bids)),
            asks: with_snapshot_levels(Map::empty(), side_levels(s.asks)),
            last_update_id: s.last_update_id->0,
            synced: true,
            buffered: Seq::empty(),
        },
        b1.buffered,
    );
}

proof fn lemma_replay_synced(b: BookModel, es: Seq<DepthUpdate>)
    requires
        b.synced,
    ensures
        after_updates(b, es).synced,
        after_updates(b, es).buffered == b.buffered,
        after_updates(b, es).last_update_id >= b.last_update_id,
    decreases es.len(),
{
    if es.len() > 0 {
        lemma_replay_synced(b, es.drop_last());
    }
}

/// An update level with a positive price and a zero quantity leaves no level
/// at that price.
pub proof fn lemma_zero_quantity_removes(m: Map<u64, i128>, l: PriceLevel)
    requires
        l.price.is_some(),
        l.qty.is_some(),
        level_price(l).sign > 0,
        level_qty(l).sign == 0,
    ensures
        !with_update_level(m, l).contains_key(price_key(level_price(l).value)),
{
}

} // verus!
