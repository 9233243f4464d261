//! Text the dashboard and the trade log show: names of states and sides,
//! exit reasons, and fixed-point numbers written with a chosen count of
//! decimals.
use vstd::prelude::*;
use vstd::string::StringExecFns;
use crate::fixed::{abs, magnitude};
use crate::market::{ExitReason, MarketType, Side, SystemStatus};

verus! {

pub open spec fn digit_char(d: int) -> char {
    ('0' as int + d) as char
}

/// The decimal digits of `n`, without leading zeros ("0" for zero).
pub open spec fn nat_digits(n: nat) -> Seq<char>
    decreases n,
{
    if n < 10 {
        seq![digit_char(n as int)]
    } else {
        nat_digits(n / 10).push(digit_char((n % 10) as int))
    }
}

pub open spec fn pow10(n: nat) -> nat
    decreases n,
{
    if n == 0 {
        1
    } else {
        10 * pow10((n - 1) as nat)
    }
}

/// `s` with zeros in front up to `width` characters.
pub open spec fn zero_padded(s: Seq<char>, width: nat) -> Seq<char> {
    if s.len() >= width {
        s
    } else {
        Seq::new((width - s.len()) as nat, |i: int| '0') + s
    }
}

/// `n` units of `unit` rounded to a whole count: to the nearest, ties to the
/// even count, as Rust's `{:.N}` formatting does.
pub open spec fn round_half_even(n: int, unit: int) -> int {
    let q = n / unit;
    let rem = n % unit;
    if 2 * rem > unit || (2 * rem == unit && q % 2 == 1) {
        q + 1
    } else {
        q
    }
}

/// The fixed-point number `v` (eight decimal places) written with `places`
/// decimals, rounded to the nearest with ties to even; a minus sign whenever
/// `v` is negative.
pub open spec fn fixed_text(v: int, places: nat) -> Seq<char> {
    let unit = pow10((8 - places) as nat);
    let r = round_half_even(abs(v), unit as int);
    let ip = r / (pow10(places) as int);
    let fp = r % (pow10(places) as int);
    (if v < 0 {
        seq!['-']
    } else {
        Seq::<char>::empty()
    }) + nat_digits(ip as nat) + if places > 0 {
        seq!['.'] + zero_padded(nat_digits(fp as nat), places)
    } else {
        Seq::<char>::empty()
    }
}

fn digit_text(d: u128) -> (r: &'static str)
    requires
        d < 10,
    ensures
        r@ == seq![digit_char(d as int)],
{
    proof {
        reveal_strlit("0");
        reveal_strlit("1");
        reveal_strlit("2");
        reveal_strlit("3");
        reveal_strlit("4");
        reveal_strlit("5");
        reveal_strlit("6");
        reveal_strlit("7");
        reveal_strlit("8");
        reveal_strlit("9");
    }
    match d {
        0 => "0",
        1 => "1",
        2 => "2",
        3 => "3",
        4 => "4",
        5 => "5",
        6 => "6",
        7 => "7",
        8 => "8",
        _ => "9",
    }
}

/// Appends the decimal digits of `n`.
fn push_number(s: &mut String, n: u128)
    ensures
        final(s)@ == old(s)@ + nat_digits(n as nat),
    decreases n,
{
    if n < 10 {
        s.append(digit_text(n));
    } else {
        push_number(s, n / 10);
        s.append(digit_text(n % 10));
        assert(final(s)@ =~= old(s)@ + nat_digits(n as nat));
    }
}

/// Number of decimal digits of `n`, for `n` below 10^8.
fn digit_count(n: u128) -> (r: usize)
    requires
        n < 100_000_000,
    ensures
        r == nat_digits(n as nat).len(),
        1 <= r <= 8,
    decreases n,
{
    proof {
        lemma_pow10_8();
        lemma_digits_len(n as nat, 8);
    }
    if n < 10 {
        1
    } else {
        digit_count(n / 10) + 1
    }
}

proof fn lemma_pow10_8()
    ensures
        pow10(8) == 100_000_000,
{
    reveal_with_fuel(pow10, 9);
}

proof fn lemma_digits_len(n: nat, k: nat)
    requires
        k >= 1,
        n < pow10(k),
    ensures
        1 <= nat_digits(n).len() <= k,
    decreases n,
{
    if n >= 10 {
        assert(k >= 2) by {
            if k == 1 {
                reveal_with_fuel(pow10, 2);
            }
        }
        assert(n / 10 < pow10((k - 1) as nat)) by {
            assert(pow10(k) == 10 * pow10((k - 1) as nat));
        }
        lemma_digits_len(n / 10, (k - 1) as nat);
    }
}

fn ten_pow(k: u32) -> (r: u128)
    requires
        k <= 8,
    ensures
        r == pow10(k as nat),
        1 <= r <= 100_000_000,
{
    let mut r: u128 = 1;
    let mut i: u32 = 0;
    proof {
        lemma_pow10_monotone(0, 8);
        lemma_pow10_8();
    }
    while i < k
        invariant
            pow10(8) == 100_000_000,
            i <= k <= 8,
            r == pow10(i as nat),
            1 <= r <= pow10(i as nat),
            pow10(i as nat) <= pow10(8),
        decreases k - i,
    {
        proof {
            assert(pow10((i + 1) as nat) == 10 * pow10(i as nat));
            lemma_pow10_monotone((i + 1) as nat, 8);
        }
        r = r * 10;
        i = i + 1;
    }
    proof {
        lemma_pow10_8();
    }
    r
}

proof fn lemma_pow10_monotone(a: nat, b: nat)
    requires
        a <= b,
    ensures
        pow10(a) <= pow10(b),
    decreases b,
{
    if a < b {
        lemma_pow10_monotone(a, (b - 1) as nat);
        assert(pow10(b) == 10 * pow10((b - 1) as nat));
    }
}

/// Writes the fixed-point number `v` with `places` decimals, rounded to the
/// nearest with ties to even.
pub fn format_fixed(v: i128, places: u32) -> (r: String)
    requires
        places <= 8,
    ensures
        r@ == fixed_text(v as int, places as nat),
{
    let mag = magnitude(v);
    let unit = ten_pow(8 - places);
    let q = mag / unit;
    let rem = mag % unit;
    let rounded = if 2 * rem > unit || (2 * rem == unit && q % 2 == 1) {
        q + 1
    } else {
        q
    };
    let p10 = ten_pow(places);
    let ip = rounded / p10;
    let fp = rounded % p10;
    let mut s = String::new();
    proof {
        reveal_strlit("-");
        reveal_strlit(".");
        reveal_strlit("0");
    }
    if v < 0 {
        s.append("-");
    }
    push_number(&mut s, ip);
    let ghost int_text = s@;
    if places > 0 {
        s.append(".");
        proof {
            lemma_pow10_monotone(places as nat, 8);
            lemma_pow10_8();
        }
        let n = digit_count(fp);
        proof {
            lemma_digits_len(fp as nat, places as nat);
        }
        let ghost dotted = s@;
        let mut k = n;
        assert(Seq::new((k - n) as nat, |i: int| '0') =~= Seq::<char>::empty());
        while k < places as usize
            invariant
                n <= k <= places,
                s@ == dotted + Seq::new((k - n) as nat, |i: int| '0'),
            decreases places - k,
        {
            proof {
                reveal_strlit("0");
            }
            s.append("0");
            assert(s@ =~= dotted + Seq::new((k + 1 - n) as nat, |i: int| '0'));
            k = k + 1;
        }
        push_number(&mut s, fp);
        assert(s@ =~= int_text + (seq!['.'] + zero_padded(nat_digits(fp as nat), places as nat)));
    } else {
        assert(s@ =~= int_text + Seq::<char>::empty());
    }
    s
}

/// The dashboard's name for a status.
pub open spec fn status_name(s: SystemStatus) -> Seq<char> {
    match s {
        SystemStatus::Waiting => "WAITING"@,
        SystemStatus::Long => "LONG"@,
        SystemStatus::Short => "SHORT"@,
    }
}

pub fn status_text(s: SystemStatus) -> (r: &'static str)
    ensures
        r@ == status_name(s),
{
    match s {
        SystemStatus::Waiting => "WAITING",
        SystemStatus::Long => "LONG",
        SystemStatus::Short => "SHORT",
    }
}

/// The name of a side.
pub open spec fn side_name(s: Side) -> Seq<char> {
    match s {
        Side::Long => "LONG"@,
        Side::Short => "SHORT"@,
    }
}

pub fn side_text(s: Side) -> (r: &'static str)
    ensures
        r@ == side_name(s),
{
    match s {
        Side::Long => "LONG",
        Side::Short => "SHORT",
    }
}

/// The name of a market type.
pub open spec fn market_name(m: MarketType) -> Seq<char> {
    match m {
        MarketType::Futures => "FUTURES"@,
        MarketType::Spot => "SPOT"@,
    }
}

pub fn market_text(m: MarketType) -> (r: &'static str)
    ensures
        r@ == market_name(m),
{
    match m {
        MarketType::Futures => "FUTURES",
        MarketType::Spot => "SPOT",
    }
}

/// How an exit reason reads, with the stop loss and take profit thresholds
/// written with two decimals.
pub open spec fn exit_reason_name(reason: ExitReason, stop_loss_pct: i128, take_profit_pct: i128) -> Seq<char> {
    match reason {
        ExitReason::StopLoss => "Stop Loss (-"@ + fixed_text(stop_loss_pct as int, 2) + "%)"@,
        ExitReason::TakeProfit => "Take Profit (+"@ + fixed_text(take_profit_pct as int, 2) + "%)"@,
        ExitReason::TimeLimit => "Time Exit (10s)"@,
    }
}

pub fn exit_reason_text(reason: ExitReason, stop_loss_pct: i128, take_profit_pct: i128) -> (r: String)
    ensures
        r@ == exit_reason_name(reason, stop_loss_pct, take_profit_pct),
{
    match reason {
        ExitReason::StopLoss => {
            let mut s = String::new();
            s.append("Stop Loss (-");
            let number = format_fixed(stop_loss_pct, 2);
            s.append(number.as_str());
            s.append("%)");
            assert(s@ =~= exit_reason_name(reason, stop_loss_pct, take_profit_pct));
            s
        },
        ExitReason::TakeProfit => {
            let mut s = String::new();
            s.append("Take Profit (+");
            let number = format_fixed(take_profit_pct, 2);
            s.append(number.as_str());
            s.append("%)");
            assert(s@ =~= exit_reason_name(reason, stop_loss_pct, take_profit_pct));
            s
        },
        ExitReason::TimeLimit => "Time Exit (10s)".to_owned(),
    }
}

} // verus!
