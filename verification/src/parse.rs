//! Reading numbers and words out of the text that the exchange and the
//! environment hand over.
//!
//! Decimal numbers follow the syntax that Rust's float parser accepts for
//! finite numbers: an optional sign, digits, an optional point followed by
//! digits (at least one digit in all), and an optional exponent: `e` or `E`,
//! an optional sign and digits. A number is read into a fixed-point value with
//! a chosen count of decimal places, rounding half away from zero at the first
//! dropped digit.
//!
//! The reading is refused where a fixed-point value cannot hold the number:
//! `inf`, `infinity` and `nan` (in any case), and numbers whose scaled
//! magnitude exceeds `i128::MAX`. A number too small for the chosen places
//! reads as zero (with the number's sign).
use vstd::prelude::*;

verus! {

pub open spec fn is_digit(c: char) -> bool {
    '0' <= c && c <= '9'
}

pub open spec fn digit_value(c: char) -> int {
    c as int - '0' as int
}

pub open spec fn all_digits(s: Seq<char>) -> bool {
    forall|i: int| 0 <= i < s.len() ==> is_digit(#[trigger] s[i])
}

pub open spec fn all_zero(s: Seq<char>) -> bool {
    forall|i: int| 0 <= i < s.len() ==> #[trigger] s[i] == '0'
}

/// The number written by a sequence of decimal digits.
pub open spec fn digits_value(s: Seq<char>) -> int
    decreases s.len(),
{
    if s.len() == 0 {
        0
    } else {
        digits_value(s.drop_last()) * 10 + digit_value(s.last())
    }
}

pub open spec fn sign_len(s: Seq<char>) -> int {
    if s.len() > 0 && (s[0] == '+' || s[0] == '-') {
        1
    } else {
        0
    }
}

pub open spec fn is_negative(s: Seq<char>) -> bool {
    s.len() > 0 && s[0] == '-'
}

/// The text after the sign.
pub open spec fn body(s: Seq<char>) -> Seq<char> {
    s.skip(sign_len(s))
}

/// Index of the first decimal point, or the length when there is none.
pub open spec fn dot_pos(b: Seq<char>) -> int
    decreases b.len(),
{
    if b.len() == 0 {
        0
    } else if b[0] == '.' {
        0
    } else {
        1 + dot_pos(b.drop_first())
    }
}

pub open spec fn int_digits(s: Seq<char>) -> Seq<char> {
    body(s).take(dot_pos(body(s)))
}

pub open spec fn frac_digits(s: Seq<char>) -> Seq<char> {
    let b = body(s);
    let d = dot_pos(b);
    if d < b.len() {
        b.skip(d + 1)
    } else {
        Seq::empty()
    }
}

/// `s` is a decimal number in the accepted syntax.
pub open spec fn decimal_syntax(s: Seq<char>) -> bool {
    &&& all_digits(int_digits(s))
    &&& all_digits(frac_digits(s))
    &&& int_digits(s).len() + frac_digits(s).len() > 0
}

pub open spec fn zeros(n: nat) -> Seq<char> {
    Seq::new(n, |i: int| '0')
}

/// The first `scale` fraction digits, padded with zeros.
pub open spec fn kept_frac(s: Seq<char>, scale: nat) -> Seq<char> {
    let f = frac_digits(s);
    if f.len() <= scale {
        f + zeros((scale - f.len()) as nat)
    } else {
        f.take(scale as int)
    }
}

/// The first dropped digit is 5 or more.
pub open spec fn rounds_up(s: Seq<char>, scale: nat) -> bool {
    frac_digits(s).len() > scale && digit_value(frac_digits(s)[scale as int]) >= 5
}

/// |number| * 10^scale, rounded half away from zero.
pub open spec fn scaled_magnitude(s: Seq<char>, scale: nat) -> int {
    digits_value(int_digits(s) + kept_frac(s, scale)) + if rounds_up(s, scale) {
        1int
    } else {
        0int
    }
}

/// Every digit of the number is zero.
pub open spec fn is_zero_number(s: Seq<char>) -> bool {
    all_zero(int_digits(s)) && all_zero(frac_digits(s))
}

/// A decimal number read at a fixed count of decimal places.
#[derive(Clone, Copy, Debug, PartialEq, Eq, Structural)]
pub struct Scaled {
    /// The number times 10^scale, rounded half away from zero.
    pub value: i128,
    /// The sign of the exact number: -1, 0 or 1.
    pub sign: i8,
}

/// A number without exponent, read at `scale` decimal places.
pub open spec fn parse_plain_spec(s: Seq<char>, scale: nat) -> Option<Scaled> {
    if decimal_syntax(s) && scaled_magnitude(s, scale) <= i128::MAX {
        let m = scaled_magnitude(s, scale);
        Some(
            Scaled {
                value: (if is_negative(s) {
                    -m
                } else {
                    m
                }) as i128,
                sign: if is_zero_number(s) {
                    0
                } else if is_negative(s) {
                    -1i8
                } else {
                    1i8
                },
            },
        )
    } else {
        None
    }
}

/// The characters of a string, in order.
pub fn chars_of(s: &str) -> (v: Vec<char>)
    ensures
        v@ == s@,
{
    let mut v: Vec<char> = Vec::new();
    for c in it: s.chars()
        invariant
            v@ == it.seq().take(it.index()),
    {
        v.push(c);
    }
    v
}

proof fn lemma_digits_nonneg(s: Seq<char>)
    requires
        all_digits(s),
    ensures
        digits_value(s) >= 0,
    decreases s.len(),
{
    if s.len() > 0 {
        assert(all_digits(s.drop_last()));
        lemma_digits_nonneg(s.drop_last());
        assert(is_digit(s[s.len() - 1]));
    }
}

/// A prefix of a digit string writes a number no larger than the whole.
proof fn lemma_prefix_value_le(d: Seq<char>, t: int)
    requires
        all_digits(d),
        0 <= t <= d.len(),
    ensures
        digits_value(d.take(t)) <= digits_value(d),
    decreases d.len() - t,
{
    if t < d.len() {
        lemma_prefix_value_le(d, t + 1);
        assert(d.take(t + 1).drop_last() =~= d.take(t));
        assert(all_digits(d.take(t)));
        lemma_digits_nonneg(d.take(t));
        assert(is_digit(d[t]));
    } else {
        assert(d.take(t) =~= d);
    }
}

proof fn lemma_push_value(s: Seq<char>, c: char)
    ensures
        digits_value(s.push(c)) == digits_value(s) * 10 + digit_value(c),
{
    assert(s.push(c).drop_last() =~= s);
}

proof fn lemma_dot_pos(b: Seq<char>, k: int)
    requires
        0 <= k <= b.len(),
        k == b.len() || b[k] == '.',
        forall|j: int| 0 <= j < k ==> b[j] != '.',
    ensures
        dot_pos(b) == k,
    decreases k,
{
    if k > 0 {
        lemma_dot_pos(b.drop_first(), k - 1);
    }
}

const MAX_MAGNITUDE: u128 = 0x7fff_ffff_ffff_ffff_ffff_ffff_ffff_ffff;

const MAX_LIMIT: u128 = 0xffff_ffff_ffff_ffff;

fn digit_of(c: char) -> (r: u128)
    requires
        is_digit(c),
    ensures
        r as int == digit_value(c),
        r <= 9,
{
    ((c as u32) - ('0' as u32)) as u128
}

/// One more digit `d` after `acc` stays within `limit` exactly when `acc` is
/// at most `(limit - d) / 10`.
proof fn lemma_room(acc: int, d: int, limit: int)
    requires
        0 <= acc,
        0 <= d <= 9,
        9 <= limit,
    ensures
        (acc * 10 + d <= limit) == (acc <= (limit - d) / 10),
{
    let q = (limit - d) / 10;
    let r = (limit - d) % 10;
    assert(limit - d == q * 10 + r && 0 <= r < 10) by (nonlinear_arith)
        requires
            limit - d >= 0,
            q == (limit - d) / 10,
            r == (limit - d) % 10,
    ;
    if acc <= q {
        assert(acc * 10 <= q * 10) by (nonlinear_arith)
            requires
                acc <= q,
        ;
    } else {
        assert(acc * 10 >= q * 10 + 10) by (nonlinear_arith)
            requires
                acc >= q + 1,
        ;
    }
}

/// Pushes the digits `cs[from..to]` after the number written by `prefix`.
fn push_digits(cs: &Vec<char>, from: usize, to: usize, acc: u128, limit: u128, Ghost(prefix): Ghost<Seq<char>>) -> (r:
    Option<u128>)
    requires
        from <= to <= cs@.len(),
        all_digits(prefix),
        acc as int == digits_value(prefix),
        acc <= limit,
        9 <= limit <= MAX_MAGNITUDE,
    ensures
        r matches Some(v) ==> all_digits(cs@.subrange(from as int, to as int)) && v as int
            == digits_value(prefix + cs@.subrange(from as int, to as int)) && v <= limit,
        r is None ==> !all_digits(cs@.subrange(from as int, to as int)) || digits_value(
            prefix + cs@.subrange(from as int, to as int),
        ) > limit,
{
    let ghost seg = cs@.subrange(from as int, to as int);
    let mut acc = acc;
    let mut i = from;
    assert(prefix + seg.take(0) =~= prefix);
    while i < to
        invariant
            from <= i <= to <= cs@.len(),
            seg == cs@.subrange(from as int, to as int),
            all_digits(prefix),
            all_digits(seg.take(i - from)),
            acc as int == digits_value(prefix + seg.take(i - from)),
            acc <= limit,
            9 <= limit <= MAX_MAGNITUDE,
        decreases to - i,
    {
        let c = cs[i];
        assert(seg[i - from] == c);
        if !('0' <= c && c <= '9') {
            return None;
        }
        let d = digit_of(c);
        proof {
            assert(prefix + seg.take(i - from + 1) =~= (prefix + seg.take(i - from)).push(c));
            lemma_push_value(prefix + seg.take(i - from), c);
            assert(seg.take(i - from + 1) =~= seg.take(i - from).push(c));
        }
        let room = (limit - d) / 10;
        proof {
            lemma_room(acc as int, d as int, limit as int);
        }
        if acc > room {
            proof {
                if all_digits(seg) {
                    let whole = prefix + seg;
                    assert(all_digits(whole));
                    assert(whole.take(prefix.len() + i - from + 1) =~= prefix + seg.take(i - from + 1));
                    lemma_prefix_value_le(whole, prefix.len() + i - from + 1);
                }
            }
            return None;
        }
        acc = acc * 10 + d;
        i = i + 1;
    }
    assert(seg.take(i - from) =~= seg);
    Some(acc)
}

/// Pushes `count` zero digits after the number written by `prefix`.
fn push_zeros(acc: u128, count: usize, Ghost(prefix): Ghost<Seq<char>>) -> (r: Option<u128>)
    requires
        all_digits(prefix),
        acc as int == digits_value(prefix),
        acc <= MAX_MAGNITUDE,
    ensures
        r matches Some(v) ==> v as int == digits_value(prefix + zeros(count as nat)) && v
            <= MAX_MAGNITUDE,
        r is None ==> digits_value(prefix + zeros(count as nat)) > MAX_MAGNITUDE,
{
    let mut acc = acc;
    let mut i: usize = 0;
    assert(prefix + zeros(0) =~= prefix);
    while i < count
        invariant
            i <= count,
            all_digits(prefix),
            acc as int == digits_value(prefix + zeros(i as nat)),
            acc <= MAX_MAGNITUDE,
        decreases count - i,
    {
        proof {
            assert(prefix + zeros((i + 1) as nat) =~= (prefix + zeros(i as nat)).push('0'));
            lemma_push_value(prefix + zeros(i as nat), '0');
            lemma_room(acc as int, 0, MAX_MAGNITUDE as int);
        }
        if acc > MAX_MAGNITUDE / 10 {
            proof {
                let whole = prefix + zeros(count as nat);
                assert(all_digits(whole));
                assert(whole.take(prefix.len() + i + 1) =~= prefix + zeros((i + 1) as nat));
                lemma_prefix_value_le(whole, prefix.len() + i + 1);
            }
            return None;
        }
        acc = acc * 10;
        i = i + 1;
    }
    Some(acc)
}

proof fn lemma_push_flags(t: Seq<char>, c: char)
    ensures
        all_digits(t.push(c)) == (all_digits(t) && is_digit(c)),
        all_zero(t.push(c)) == (all_zero(t) && c == '0'),
{
    let t2 = t.push(c);
    assert(t2[t.len() as int] == c);
    assert forall|j: int| 0 <= j < t.len() implies t2[j] == t[j] by {}
    if all_digits(t2) {
        assert forall|j: int| 0 <= j < t.len() implies is_digit(#[trigger] t[j]) by {
            assert(t2[j] == t[j]);
        }
    }
    if all_zero(t2) {
        assert forall|j: int| 0 <= j < t.len() implies #[trigger] t[j] == '0' by {
            assert(t2[j] == t[j]);
        }
    }
}

/// Whether `cs[from..to]` is all digits, and whether it is all zeros.
fn scan_digits(cs: &Vec<char>, from: usize, to: usize) -> (r: (bool, bool))
    requires
        from <= to <= cs@.len(),
    ensures
        r.0 == all_digits(cs@.subrange(from as int, to as int)),
        r.1 == all_zero(cs@.subrange(from as int, to as int)),
{
    let ghost seg = cs@.subrange(from as int, to as int);
    let mut digits = true;
    let mut zero = true;
    let mut i = from;
    while i < to
        invariant
            from <= i <= to <= cs@.len(),
            seg == cs@.subrange(from as int, to as int),
            digits == all_digits(seg.take(i - from)),
            zero == all_zero(seg.take(i - from)),
        decreases to - i,
    {
        let c = cs[i];
        assert(seg[i - from] == c);
        assert(seg.take(i - from + 1) =~= seg.take(i - from).push(c));
        proof {
            lemma_push_flags(seg.take(i - from), c);
        }
        if !('0' <= c && c <= '9') {
            digits = false;
        }
        if c != '0' {
            zero = false;
        }
        i = i + 1;
    }
    assert(seg.take(i - from) =~= seg);
    (digits, zero)
}

/// Where the sign, the integer digits and the fraction digits of `cs` lie:
/// `(start, dot, fstart)`, the integer digits being `cs[start..dot]` and the
/// fraction digits `cs[fstart..]`.
fn number_layout(cs: &Vec<char>) -> (r: (usize, usize, usize))
    ensures
        r.0 <= r.1 <= r.2 <= cs@.len(),
        r.0 as int == sign_len(cs@),
        cs@.subrange(r.0 as int, r.1 as int) == int_digits(cs@),
        cs@.subrange(r.2 as int, cs@.len() as int) == frac_digits(cs@),
{
    let n = cs.len();
    let ghost sq = cs@;
    let start: usize = if n > 0 && (cs[0] == '+' || cs[0] == '-') {
        1
    } else {
        0
    };
    let ghost b = sq.skip(start as int);
    assert(b == body(sq));
    let mut dot = start;
    while dot < n && cs[dot] != '.'
        invariant
            start <= dot <= n,
            n == cs@.len(),
            forall|j: int| start <= j < dot ==> cs@[j] != '.',
        decreases n - dot,
    {
        dot = dot + 1;
    }
    proof {
        assert forall|j: int| 0 <= j < dot - start implies b[j] != '.' by {
            assert(b[j] == cs@[start + j]);
        }
        if dot < n {
            assert(b[dot - start] == cs@[dot as int]);
        }
        lemma_dot_pos(b, dot - start);
    }
    let fstart: usize = if dot < n {
        dot + 1
    } else {
        n
    };
    assert(cs@.subrange(start as int, dot as int) =~= int_digits(sq));
    assert(cs@.subrange(fstart as int, n as int) =~= frac_digits(sq));
    (start, dot, fstart)
}

/// The scaled magnitude of a number in the accepted syntax whose digits are
/// laid out as `number_layout` gives; `None` when it exceeds `i128::MAX`.
fn scaled_magnitude_of(cs: &Vec<char>, start: usize, dot: usize, fstart: usize, scale: usize) -> (r:
    Option<u128>)
    requires
        start <= dot <= fstart <= cs@.len(),
        cs@.subrange(start as int, dot as int) == int_digits(cs@),
        cs@.subrange(fstart as int, cs@.len() as int) == frac_digits(cs@),
        all_digits(int_digits(cs@)),
        all_digits(frac_digits(cs@)),
    ensures
        r matches Some(v) ==> v as int == scaled_magnitude(cs@, scale as nat) && v <= MAX_MAGNITUDE,
        r is None ==> scaled_magnitude(cs@, scale as nat) > MAX_MAGNITUDE,
{
    let n = cs.len();
    let ghost sq = cs@;
    let flen: usize = n - fstart;
    let ghost int_d = cs@.subrange(start as int, dot as int);
    let ghost frac_d = cs@.subrange(fstart as int, n as int);
    let ghost kf = kept_frac(sq, scale as nat);
    let k: usize = if flen <= scale {
        flen
    } else {
        scale
    };
    proof {
        assert(int_d + kf =~= (int_d + frac_d.take(k as int)) + zeros((scale - k) as nat));
        assert(all_digits(int_d + kf));
        assert(cs@.subrange(fstart as int, (fstart + k) as int) =~= frac_d.take(k as int));
    }
    let a1 = push_digits(&cs, start, dot, 0, MAX_MAGNITUDE, Ghost(Seq::empty()));
    assert(Seq::<char>::empty() + int_d =~= int_d);
    if a1.is_none() {
        proof {
            assert((int_d + kf).take(int_d.len() as int) =~= int_d);
            lemma_prefix_value_le(int_d + kf, int_d.len() as int);
        }
        return None;
    }
    let a2 = push_digits(&cs, fstart, fstart + k, a1.unwrap(), MAX_MAGNITUDE, Ghost(int_d));
    if a2.is_none() {
        proof {
            let p = int_d + frac_d.take(k as int);
            assert((int_d + kf).take(p.len() as int) =~= p);
            lemma_prefix_value_le(int_d + kf, p.len() as int);
        }
        return None;
    }
    let a3 = push_zeros(a2.unwrap(), scale - k, Ghost(int_d + frac_d.take(k as int)));
    if a3.is_none() {
        return None;
    }
    let mut acc = a3.unwrap();
    if flen > scale {
        let c = cs[fstart + scale];
        assert(frac_d[scale as int] == c);
        if c >= '5' {
            if acc + 1 > MAX_MAGNITUDE {
                return None;
            }
            acc = acc + 1;
        }
    }
    proof {
        if rounds_up(sq, scale as nat) {
            assert(flen > scale);
        }
    }
    Some(acc)
}

/// Reads a number without exponent at `scale` decimal places.
fn parse_plain(cs: &Vec<char>, scale: usize) -> (r: Option<Scaled>)
    ensures
        r == parse_plain_spec(cs@, scale as nat),
{
    let n = cs.len();
    let ghost sq = cs@;
    let neg = n > 0 && cs[0] == '-';
    assert(neg == is_negative(sq));
    let (start, dot, fstart) = number_layout(&cs);
    let flen: usize = n - fstart;
    let (int_ok, int_zero) = scan_digits(&cs, start, dot);
    let (frac_ok, frac_zero) = scan_digits(&cs, fstart, n);
    if !int_ok || !frac_ok || (dot == start && flen == 0) {
        return None;
    }
    let m = scaled_magnitude_of(&cs, start, dot, fstart, scale);
    if m.is_none() {
        return None;
    }
    let mag = m.unwrap() as i128;
    let value = if neg {
        -mag
    } else {
        mag
    };
    let sign: i8 = if int_zero && frac_zero {
        0
    } else if neg {
        -1
    } else {
        1
    };
    Some(Scaled { value, sign })
}

/// `s` is an unsigned integer as Rust's `u64` parser accepts it: an optional
/// `+` followed by at least one digit.
pub open spec fn u64_syntax(s: Seq<char>) -> bool {
    let b = if s.len() > 0 && s[0] == '+' {
        s.drop_first()
    } else {
        s
    };
    b.len() > 0 && all_digits(b)
}

pub open spec fn u64_digits(s: Seq<char>) -> Seq<char> {
    if s.len() > 0 && s[0] == '+' {
        s.drop_first()
    } else {
        s
    }
}

pub open spec fn parse_u64_spec(s: Seq<char>) -> Option<u64> {
    if u64_syntax(s) && digits_value(u64_digits(s)) <= u64::MAX {
        Some(digits_value(u64_digits(s)) as u64)
    } else {
        None
    }
}

/// Reads an unsigned integer as Rust's `u64` parser does.
pub fn parse_u64(s: &str) -> (r: Option<u64>)
    ensures
        r == parse_u64_spec(s@),
{
    let cs = chars_of(s);
    let n = cs.len();
    let start: usize = if n > 0 && cs[0] == '+' {
        1
    } else {
        0
    };
    assert(cs@.subrange(start as int, n as int) =~= u64_digits(s@));
    if start == n {
        return None;
    }
    let a = push_digits(&cs, start, n, 0, MAX_LIMIT, Ghost(Seq::empty()));
    assert(Seq::<char>::empty() + u64_digits(s@) =~= u64_digits(s@));
    match a {
        Some(v) => Some(v as u64),
        None => None,
    }
}

/// `s` spells `word` (a word of lower-case ASCII letters) in any mix of
/// upper and lower case. For such words this is the same as comparing the
/// Unicode lower-case form of `s` with `word`.
pub open spec fn eq_ignore_case(s: Seq<char>, word: Seq<char>) -> bool {
    &&& s.len() == word.len()
    &&& forall|i: int|
        0 <= i < s.len() ==> (#[trigger] s[i] == word[i] || (s[i] as int) + 32 == word[i] as int)
}

/// Compares `s` with the lower-case ASCII word `word`, ignoring case.
pub fn matches_ignore_case(s: &str, word: &str) -> (r: bool)
    requires
        forall|i: int| 0 <= i < word@.len() ==> 'a' <= #[trigger] word@[i] <= 'z',
    ensures
        r == eq_ignore_case(s@, word@),
{
    let a = chars_of(s);
    let w = chars_of(word);
    if a.len() != w.len() {
        return false;
    }
    let mut i: usize = 0;
    while i < a.len()
        invariant
            i <= a@.len(),
            a@.len() == w@.len(),
            a@ == s@,
            w@ == word@,
            forall|j: int| 0 <= j < word@.len() ==> 'a' <= #[trigger] word@[j] <= 'z',
            forall|j: int|
                0 <= j < i ==> (#[trigger] a@[j] == w@[j] || (a@[j] as int) + 32 == w@[j] as int),
        decreases a@.len() - i,
    {
        let c = a[i];
        let t = w[i];
        assert('a' <= t <= 'z');
        if !(c == t || ('A' <= c && c <= 'Z' && (c as u32) + 32 == (t as u32))) {
            return false;
        }
        i = i + 1;
    }
    true
}

/// A number read with a positive sign has a non-negative scaled value.
proof fn lemma_positive_plain(s: Seq<char>, scale: nat)
    requires
        parse_plain_spec(s, scale) matches Some(v) && v.sign > 0,
    ensures
        parse_plain_spec(s, scale)->0.value >= 0,
{
    let m = scaled_magnitude(s, scale);
    assert(all_digits(int_digits(s) + kept_frac(s, scale))) by {
        let f = frac_digits(s);
        let kf = kept_frac(s, scale);
        assert forall|t: int| 0 <= t < kf.len() implies is_digit(#[trigger] kf[t]) by {
            if t < f.len() {
                assert(kf[t] == f[t]);
            }
        }
    }
    lemma_digits_nonneg(int_digits(s) + kept_frac(s, scale));
    assert(!is_negative(s));
}

/// Exponents are read exactly up to this size; any larger one shifts every
/// digit out of reach (the reading is zero, or too large).
const EXPONENT_CAP: u128 = 0x10_0000_0000_0000_0000_0000_0000;

/// Index of the first `e` or `E`, or the length when there is none.
pub open spec fn exp_pos(s: Seq<char>) -> int
    decreases s.len(),
{
    if s.len() == 0 {
        0
    } else if s[0] == 'e' || s[0] == 'E' {
        0
    } else {
        1 + exp_pos(s.drop_first())
    }
}

/// The number before the exponent.
pub open spec fn mantissa(s: Seq<char>) -> Seq<char> {
    s.take(exp_pos(s))
}

/// The text after `e` or `E`.
pub open spec fn exponent_text(s: Seq<char>) -> Seq<char> {
    s.skip(exp_pos(s) + 1)
}

/// The digits of an exponent, after its sign.
pub open spec fn exponent_digits(x: Seq<char>) -> Seq<char> {
    x.skip(sign_len(x))
}

/// An exponent: an optional sign and at least one digit.
pub open spec fn exponent_syntax(x: Seq<char>) -> bool {
    exponent_digits(x).len() > 0 && all_digits(exponent_digits(x))
}

pub open spec fn exponent_value(x: Seq<char>) -> int {
    if is_negative(x) {
        -digits_value(exponent_digits(x))
    } else {
        digits_value(exponent_digits(x))
    }
}

/// The number `m` (without exponent) times 10^`x`, written without exponent:
/// its digits with the point moved `x` places to the right.
pub open spec fn shifted(m: Seq<char>, x: int) -> Seq<char> {
    let d = int_digits(m) + frac_digits(m);
    let p = int_digits(m).len() + x;
    m.take(sign_len(m)) + if p <= 0 {
        seq!['0', '.'] + zeros((-p) as nat) + d
    } else if p >= d.len() {
        d + zeros((p - d.len()) as nat)
    } else {
        d.take(p) + seq!['.'] + d.skip(p)
    }
}

/// A decimal number read at `scale` decimal places: without exponent as
/// written; with one, the mantissa times the power of ten that the exponent
/// gives. `None` when the text is not a decimal number or its scaled
/// magnitude exceeds `i128::MAX`.
pub open spec fn parse_scaled_spec(s: Seq<char>, scale: nat) -> Option<Scaled> {
    if exp_pos(s) < s.len() {
        let m = mantissa(s);
        let x = exponent_text(s);
        if decimal_syntax(m) && exponent_syntax(x) {
            parse_plain_spec(shifted(m, exponent_value(x)), scale)
        } else {
            None
        }
    } else {
        parse_plain_spec(s, scale)
    }
}

/// A positive reading has a non-negative value.
pub proof fn lemma_positive_reading(s: Seq<char>, scale: nat)
    requires
        parse_scaled_spec(s, scale) matches Some(v) && v.sign > 0,
    ensures
        parse_scaled_spec(s, scale)->0.value >= 0,
{
    if exp_pos(s) < s.len() {
        lemma_positive_plain(shifted(mantissa(s), exponent_value(exponent_text(s))), scale);
    } else {
        lemma_positive_plain(s, scale);
    }
}

proof fn lemma_exp_pos(s: Seq<char>, k: int)
    requires
        0 <= k <= s.len(),
        k == s.len() || s[k] == 'e' || s[k] == 'E',
        forall|j: int| 0 <= j < k ==> s[j] != 'e' && s[j] != 'E',
    ensures
        exp_pos(s) == k,
    decreases k,
{
    if k > 0 {
        lemma_exp_pos(s.drop_first(), k - 1);
    }
}

/// `cs[from..to]` copied into a new vector.
fn copy_range(cs: &Vec<char>, from: usize, to: usize) -> (r: Vec<char>)
    requires
        from <= to <= cs@.len(),
    ensures
        r@ == cs@.subrange(from as int, to as int),
{
    let mut r: Vec<char> = Vec::new();
    let mut i = from;
    while i < to
        invariant
            from <= i <= to <= cs@.len(),
            r@ == cs@.subrange(from as int, i as int),
        decreases to - i,
    {
        r.push(cs[i]);
        assert(r@ =~= cs@.subrange(from as int, i + 1));
        i = i + 1;
    }
    r
}

/// Appends `n` zeros.
fn push_zero_chars(v: &mut Vec<char>, n: usize)
    ensures
        final(v)@ == old(v)@ + zeros(n as nat),
{
    let mut i: usize = 0;
    assert(old(v)@ + zeros(0) =~= old(v)@);
    while i < n
        invariant
            i <= n,
            v@ == old(v)@ + zeros(i as nat),
        decreases n - i,
    {
        v.push('0');
        assert(v@ =~= old(v)@ + zeros((i + 1) as nat));
        i = i + 1;
    }
}

/// Appends `cs[from..to]`.
fn push_range(v: &mut Vec<char>, cs: &Vec<char>, from: usize, to: usize)
    requires
        from <= to <= cs@.len(),
    ensures
        final(v)@ == old(v)@ + cs@.subrange(from as int, to as int),
{
    let mut i = from;
    assert(old(v)@ + cs@.subrange(from as int, from as int) =~= old(v)@);
    while i < to
        invariant
            from <= i <= to <= cs@.len(),
            v@ == old(v)@ + cs@.subrange(from as int, i as int),
        decreases to - i,
    {
        v.push(cs[i]);
        assert(v@ =~= old(v)@ + cs@.subrange(from as int, i + 1));
        i = i + 1;
    }
}

/// The mantissa `m` (in the accepted syntax) with its point moved `x`
/// places, written out as `shifted` gives.
fn shift_point(m: &Vec<char>, x: i128) -> (r: Vec<char>)
    requires
        decimal_syntax(m@),
        -(int_digits(m@).len() as int) - (usize::MAX as int) <= x <= frac_digits(m@).len() + 40,
    ensures
        r@ == shifted(m@, x as int),
{
    let (start, dot, fstart) = number_layout(m);
    let n = m.len();
    let ghost int_d = m@.subrange(start as int, dot as int);
    let ghost frac_d = m@.subrange(fstart as int, n as int);
    let ghost d = int_d + frac_d;
    let ilen = dot - start;
    let dlen: usize = ilen + (n - fstart);
    let mut r = copy_range(m, 0, start);
    assert(r@ =~= m@.take(sign_len(m@)));
    let p: i128 = ilen as i128 + x as i128;
    if p <= 0 {
        r.push('0');
        r.push('.');
        push_zero_chars(&mut r, (-p) as usize);
        push_range(&mut r, m, start, dot);
        push_range(&mut r, m, fstart, n);
        assert(r@ =~= m@.take(sign_len(m@)) + (seq!['0', '.'] + zeros((-p) as nat) + d));
    } else if p >= dlen as i128 {
        push_range(&mut r, m, start, dot);
        push_range(&mut r, m, fstart, n);
        push_zero_chars(&mut r, (p - dlen as i128) as usize);
        assert(r@ =~= m@.take(sign_len(m@)) + (d + zeros((p - dlen) as nat)));
    } else {
        let pu = p as usize;
        if pu <= ilen {
            push_range(&mut r, m, start, start + pu);
            r.push('.');
            push_range(&mut r, m, start + pu, dot);
            push_range(&mut r, m, fstart, n);
            assert(d.take(pu as int) =~= m@.subrange(start as int, (start + pu) as int));
            assert(d.skip(pu as int) =~= m@.subrange((start + pu) as int, dot as int) + frac_d);
        } else {
            push_range(&mut r, m, start, dot);
            push_range(&mut r, m, fstart, fstart + (pu - ilen));
            r.push('.');
            push_range(&mut r, m, fstart + (pu - ilen), n);
            assert(d.take(pu as int) =~= int_d + m@.subrange(fstart as int, (fstart + (pu - ilen)) as int));
            assert(d.skip(pu as int) =~= m@.subrange((fstart + (pu - ilen)) as int, n as int));
        }
        assert(r@ =~= m@.take(sign_len(m@)) + (d.take(pu as int) + seq!['.'] + d.skip(pu as int)));
    }
    r
}

/// Reads a decimal number at `scale` decimal places: `None` when the text is
/// not a decimal number or its scaled magnitude exceeds `i128::MAX`.
pub fn parse_scaled(s: &str, scale: usize) -> (r: Option<Scaled>)
    ensures
        r == parse_scaled_spec(s@, scale as nat),
{
    let cs = chars_of(s);
    let n = cs.len();
    let mut e: usize = 0;
    while e < n && cs[e] != 'e' && cs[e] != 'E'
        invariant
            e <= n,
            n == cs@.len(),
            forall|j: int| 0 <= j < e ==> cs@[j] != 'e' && cs@[j] != 'E',
        decreases n - e,
    {
        e = e + 1;
    }
    proof {
        lemma_exp_pos(cs@, e as int);
    }
    if e == n {
        return parse_plain(&cs, scale);
    }
    let m = copy_range(&cs, 0, e);
    assert(m@ =~= mantissa(cs@));
    let x = copy_range(&cs, e + 1, n);
    assert(x@ =~= exponent_text(cs@));
    let xs: usize = if x.len() > 0 && (x[0] == '+' || x[0] == '-') {
        1
    } else {
        0
    };
    assert(x@.subrange(xs as int, x@.len() as int) =~= exponent_digits(x@));
    if xs == x.len() {
        return None;
    }
    let (x_ok, _) = scan_digits(&x, xs, x.len());
    if !x_ok {
        return None;
    }
    let (start, dot, fstart) = number_layout(&m);
    let (int_ok, int_zero) = scan_digits(&m, start, dot);
    let (frac_ok, frac_zero) = scan_digits(&m, fstart, m.len());
    if !int_ok || !frac_ok || (dot == start && fstart == m.len()) {
        return None;
    }
    let ilen = dot - start;
    let flen = m.len() - fstart;
    let zero = int_zero && frac_zero;
    let negative_x = x[0] == '-';
    let ghost xv = exponent_value(x@);
    let digits = push_digits(&x, xs, x.len(), 0, EXPONENT_CAP, Ghost(Seq::empty()));
    assert(Seq::<char>::empty() + exponent_digits(x@) =~= exponent_digits(x@));
    proof {
        lemma_digits_nonneg(exponent_digits(x@));
    }
    let (tiny, huge) = match digits {
        Some(v) => (negative_x && v >= ilen as u128 + scale as u128 + 1, !negative_x && v >= flen as u128 + 41),
        None => (negative_x, !negative_x),
    };
    if tiny {
        proof {
            lemma_tiny_reading(m@, xv, scale as nat);
        }
        let sign: i8 = if zero {
            0
        } else if m.len() > 0 && m[0] == '-' {
            -1
        } else {
            1
        };
        return Some(Scaled { value: 0, sign });
    }
    if huge {
        proof {
            lemma_huge_reading(m@, xv, scale as nat);
        }
        if zero {
            return Some(Scaled { value: 0, sign: 0 });
        }
        return None;
    }
    let v = digits.unwrap();
    let shift: i128 = if negative_x {
        -(v as i128)
    } else {
        v as i128
    };
    let t = shift_point(&m, shift);
    parse_plain(&t, scale)
}

/// The number written by all-zero digits is zero.
proof fn lemma_zero_value(s: Seq<char>)
    requires
        all_zero(s),
    ensures
        digits_value(s) == 0,
    decreases s.len(),
{
    if s.len() > 0 {
        assert(all_zero(s.drop_last()));
        assert(s[s.len() - 1] == '0');
        lemma_zero_value(s.drop_last());
    }
}

/// Digits that are not all zero write a number of at least one.
proof fn lemma_nonzero_value(s: Seq<char>)
    requires
        all_digits(s),
        !all_zero(s),
    ensures
        digits_value(s) >= 1,
    decreases s.len(),
{
    let t = s.drop_last();
    assert(all_digits(t));
    lemma_digits_nonneg(t);
    assert(is_digit(s[s.len() - 1]));
    if s[s.len() - 1] == '0' {
        assert(!all_zero(t)) by {
            if all_zero(t) {
                assert forall|i: int| 0 <= i < s.len() implies #[trigger] s[i] == '0' by {
                    if i < t.len() {
                        assert(s[i] == t[i]);
                    }
                }
            }
        }
        lemma_nonzero_value(t);
    }
}

pub open spec fn exp10(n: nat) -> nat
    decreases n,
{
    if n == 0 {
        1
    } else {
        10 * exp10((n - 1) as nat)
    }
}

proof fn lemma_value_with_zeros(s: Seq<char>, j: nat)
    ensures
        digits_value(s + zeros(j)) == digits_value(s) * exp10(j),
    decreases j,
{
    if j == 0 {
        assert(s + zeros(0) =~= s);
        assert(exp10(0) == 1);
        assert(digits_value(s) * 1 == digits_value(s));
    } else {
        lemma_value_with_zeros(s, (j - 1) as nat);
        assert(s + zeros(j) =~= (s + zeros((j - 1) as nat)).push('0'));
        lemma_push_value(s + zeros((j - 1) as nat), '0');
        assert(digit_value('0') == 0);
        assert(exp10(j) == 10 * exp10((j - 1) as nat));
        assert(digits_value(s) * exp10((j - 1) as nat) * 10 == digits_value(s) * exp10(j)) by (nonlinear_arith)
            requires
                exp10(j) == 10 * exp10((j - 1) as nat),
        ;
    }
}

proof fn lemma_exp10_grows(a: nat, b: nat)
    requires
        a <= b,
    ensures
        exp10(a) <= exp10(b),
    decreases b,
{
    if a < b {
        lemma_exp10_grows(a, (b - 1) as nat);
    }
}

/// A mantissa moved so far right of the point that more than `scale` zeros
/// follow it reads as zero, with the mantissa's sign.
proof fn lemma_tiny_reading(m: Seq<char>, x: int, scale: nat)
    requires
        decimal_syntax(m),
        x + int_digits(m).len() <= -(scale + 1),
    ensures
        parse_plain_spec(shifted(m, x), scale) == Some(
            Scaled {
                value: 0,
                sign: if is_zero_number(m) {
                    0i8
                } else if is_negative(m) {
                    -1i8
                } else {
                    1i8
                },
            },
        ),
{
    let d = int_digits(m) + frac_digits(m);
    let p = int_digits(m).len() + x;
    let sg = m.take(sign_len(m));
    let b = seq!['0', '.'] + zeros((-p) as nat) + d;
    let t = shifted(m, x);
    assert(t == sg + b);
    assert(sign_len(t) == sign_len(m)) by {
        if sign_len(m) == 1 {
            assert(t[0] == m[0]);
        } else {
            assert(t[0] == '0');
        }
    }
    assert(is_negative(t) == is_negative(m)) by {
        if sign_len(m) == 1 {
            assert(t[0] == m[0]);
        } else {
            assert(t[0] == '0');
        }
    }
    assert(body(t) =~= b);
    lemma_dot_pos(b, 1);
    assert(int_digits(t) =~= seq!['0']);
    let f = zeros((-p) as nat) + d;
    assert(frac_digits(t) =~= f);
    lemma_all_digits_of(m);
    assert(all_digits(f)) by {
        assert forall|i: int| 0 <= i < f.len() implies is_digit(#[trigger] f[i]) by {
            if i >= -p {
                assert(f[i] == d[i + p]);
            }
        }
    }
    assert(all_digits(seq!['0']));
    assert(decimal_syntax(t));
    assert(kept_frac(t, scale) =~= zeros(scale));
    assert(f[scale as int] == '0');
    assert(!rounds_up(t, scale));
    assert(all_zero(seq!['0'] + zeros(scale)));
    lemma_zero_value(seq!['0'] + zeros(scale));
    assert(scaled_magnitude(t, scale) == 0);
    assert(all_zero(f) == all_zero(d)) by {
        if all_zero(d) {
            assert forall|i: int| 0 <= i < f.len() implies #[trigger] f[i] == '0' by {
                if i >= -p {
                    assert(f[i] == d[i + p]);
                }
            }
        }
        if all_zero(f) {
            assert forall|i: int| 0 <= i < d.len() implies #[trigger] d[i] == '0' by {
                assert(f[i - p] == d[i]);
            }
        }
    }
    assert(is_zero_number(t) == is_zero_number(m));
}

/// The digits of a number, integer part then fraction, are digits, and are
/// all zero exactly when the number is zero.
proof fn lemma_all_digits_of(m: Seq<char>)
    requires
        decimal_syntax(m),
    ensures
        all_digits(int_digits(m) + frac_digits(m)),
        all_zero(int_digits(m) + frac_digits(m)) == is_zero_number(m),
{
    let d = int_digits(m) + frac_digits(m);
    assert forall|i: int| 0 <= i < d.len() implies is_digit(#[trigger] d[i]) by {
        if i < int_digits(m).len() {
            assert(d[i] == int_digits(m)[i]);
        } else {
            assert(d[i] == frac_digits(m)[i - int_digits(m).len()]);
        }
    }
    if all_zero(d) {
        assert forall|i: int| 0 <= i < int_digits(m).len() implies #[trigger] int_digits(m)[i] == '0' by {
            assert(d[i] == int_digits(m)[i]);
        }
        assert forall|i: int| 0 <= i < frac_digits(m).len() implies #[trigger] frac_digits(m)[i] == '0' by {
            assert(d[i + int_digits(m).len()] == frac_digits(m)[i]);
        }
    }
    if all_zero(int_digits(m)) && all_zero(frac_digits(m)) {
        assert forall|i: int| 0 <= i < d.len() implies #[trigger] d[i] == '0' by {
            if i < int_digits(m).len() {
                assert(d[i] == int_digits(m)[i]);
            } else {
                assert(d[i] == frac_digits(m)[i - int_digits(m).len()]);
            }
        }
    }
}

/// The shape of a mantissa moved more than forty places left of the point:
/// a whole number, the mantissa's digits followed by zeros, with its sign.
proof fn lemma_huge_shape(m: Seq<char>, x: int, scale: nat)
    requires
        decimal_syntax(m),
        x >= frac_digits(m).len() + 41,
    ensures
        ({
            let d = int_digits(m) + frac_digits(m);
            let k = (int_digits(m).len() + x - d.len()) as nat;
            let t = shifted(m, x);
            &&& k >= 41
            &&& decimal_syntax(t)
            &&& is_negative(t) == is_negative(m)
            &&& is_zero_number(t) == is_zero_number(m)
            &&& scaled_magnitude(t, scale) == digits_value(d + zeros(k + scale))
        }),
{
    let d = int_digits(m) + frac_digits(m);
    let p = int_digits(m).len() + x;
    let k = (p - d.len()) as nat;
    let sg = m.take(sign_len(m));
    let b = d + zeros(k);
    let t = shifted(m, x);
    lemma_all_digits_of(m);
    assert(t == sg + b);
    assert(all_digits(b)) by {
        assert forall|i: int| 0 <= i < b.len() implies is_digit(#[trigger] b[i]) by {
            if i < d.len() {
                assert(b[i] == d[i]);
            }
        }
    }
    assert(is_digit(b[0]));
    assert(sign_len(t) == sign_len(m) && is_negative(t) == is_negative(m)) by {
        if sign_len(m) == 1 {
            assert(t[0] == m[0]);
        } else {
            assert(t[0] == b[0]);
        }
    }
    assert(body(t) =~= b);
    assert forall|j: int| 0 <= j < b.len() implies b[j] != '.' by {
        assert(is_digit(b[j]));
    }
    lemma_dot_pos(b, b.len() as int);
    assert(int_digits(t) =~= b);
    assert(frac_digits(t) =~= Seq::<char>::empty());
    assert(kept_frac(t, scale) =~= zeros(scale));
    assert(b + zeros(scale) =~= d + zeros(k + scale));
    assert(all_zero(b) == all_zero(d)) by {
        if all_zero(d) {
            assert forall|i: int| 0 <= i < b.len() implies #[trigger] b[i] == '0' by {
                if i < d.len() {
                    assert(b[i] == d[i]);
                }
            }
        }
        if all_zero(b) {
            assert forall|i: int| 0 <= i < d.len() implies #[trigger] d[i] == '0' by {
                assert(b[i] == d[i]);
            }
        }
    }
}

/// A mantissa moved more than forty places left of the point reads as zero
/// when all its digits are zero, and is out of range otherwise.
proof fn lemma_huge_reading(m: Seq<char>, x: int, scale: nat)
    requires
        decimal_syntax(m),
        x >= frac_digits(m).len() + 41,
    ensures
        is_zero_number(m) ==> parse_plain_spec(shifted(m, x), scale) == Some(Scaled { value: 0, sign: 0 }),
        !is_zero_number(m) ==> parse_plain_spec(shifted(m, x), scale) is None,
{
    lemma_huge_shape(m, x, scale);
    lemma_all_digits_of(m);
    let d = int_digits(m) + frac_digits(m);
    let k = (int_digits(m).len() + x - d.len()) as nat;
    lemma_value_with_zeros(d, k + scale);
    if is_zero_number(m) {
        lemma_zero_value(d);
        assert(digits_value(d) * exp10(k + scale) == 0) by (nonlinear_arith)
            requires
                digits_value(d) == 0,
        ;
    } else {
        lemma_nonzero_value(d);
        lemma_exp10_grows(41, k + scale);
        assert(exp10(41) == 100_000_000_000_000_000_000_000_000_000_000_000_000_000) by {
            reveal_with_fuel(exp10, 42);
        }
        assert(digits_value(d) * exp10(k + scale) >= exp10(k + scale)) by (nonlinear_arith)
            requires
                digits_value(d) >= 1,
        ;
    }
}

} // verus!
