//! Fixed-point arithmetic used by the strategy engine.
//!
//! Every price, quantity, amount of USDT and ratio is an `i128` holding the
//! number times `SCALE` (eight decimal places). Each operation saturates at the
//! bounds of `i128` and every division rounds toward zero, as Rust's integer
//! division does. Dividing by zero gives zero.
use vstd::prelude::*;

verus! {

/// Number of fixed-point units in one whole unit (eight decimal places).
pub const SCALE: i128 = 100_000_000;

/// `x` brought back into the range of `i128`.
pub open spec fn clamp(x: int) -> int {
    if x > i128::MAX {
        i128::MAX as int
    } else if x < i128::MIN {
        i128::MIN as int
    } else {
        x
    }
}

pub open spec fn abs(x: int) -> int {
    if x < 0 {
        -x
    } else {
        x
    }
}

/// Division rounding toward zero; zero when `b` is zero.
pub open spec fn trunc_div(a: int, b: int) -> int {
    if b == 0 {
        0
    } else if (a >= 0) == (b > 0) {
        abs(a) / abs(b)
    } else {
        -(abs(a) / abs(b))
    }
}

pub open spec fn sat_add_spec(a: int, b: int) -> int {
    clamp(a + b)
}

pub open spec fn sat_sub_spec(a: int, b: int) -> int {
    clamp(a - b)
}

pub open spec fn sat_mul_spec(a: int, b: int) -> int {
    clamp(a * b)
}

pub open spec fn quot_spec(a: int, b: int) -> int {
    clamp(trunc_div(a, b))
}

/// Product of two fixed-point numbers.
pub open spec fn fx_mul_spec(a: int, b: int) -> int {
    quot_spec(sat_mul_spec(a, b), SCALE as int)
}

/// Quotient of two fixed-point numbers (zero when `b` is zero).
pub open spec fn fx_div_spec(a: int, b: int) -> int {
    quot_spec(sat_mul_spec(a, SCALE as int), b)
}

/// `a + b`, saturating.
pub open spec fn sadd(a: i128, b: i128) -> i128 {
    sat_add_spec(a as int, b as int) as i128
}

/// `a - b`, saturating.
pub open spec fn ssub(a: i128, b: i128) -> i128 {
    sat_sub_spec(a as int, b as int) as i128
}

/// `a * b` for a plain integer factor, saturating.
pub open spec fn smul(a: i128, b: i128) -> i128 {
    sat_mul_spec(a as int, b as int) as i128
}

/// `a / b` rounded toward zero; zero when `b` is zero.
pub open spec fn squot(a: i128, b: i128) -> i128 {
    quot_spec(a as int, b as int) as i128
}

/// Fixed-point product.
pub open spec fn fmul(a: i128, b: i128) -> i128 {
    fx_mul_spec(a as int, b as int) as i128
}

/// Fixed-point quotient; zero when `b` is zero.
pub open spec fn fdiv(a: i128, b: i128) -> i128 {
    fx_div_spec(a as int, b as int) as i128
}

pub fn sat_add(a: i128, b: i128) -> (r: i128)
    ensures
        r == sat_add_spec(a as int, b as int),
        r == sadd(a, b),
{
    match a.checked_add(b) {
        Some(v) => v,
        None => {
            if b > 0 {
                i128::MAX
            } else {
                i128::MIN
            }
        },
    }
}

pub fn sat_sub(a: i128, b: i128) -> (r: i128)
    ensures
        r == sat_sub_spec(a as int, b as int),
        r == ssub(a, b),
{
    match a.checked_sub(b) {
        Some(v) => v,
        None => {
            if b < 0 {
                i128::MAX
            } else {
                i128::MIN
            }
        },
    }
}

pub fn sat_mul(a: i128, b: i128) -> (r: i128)
    ensures
        r == sat_mul_spec(a as int, b as int),
        r == smul(a, b),
{
    match a.checked_mul(b) {
        Some(v) => v,
        None => {
            if (a > 0) == (b > 0) {
                assert(a as int * b as int >= 0) by (nonlinear_arith)
                    requires
                        (a > 0) == (b > 0),
                ;
                i128::MAX
            } else {
                assert(a as int * b as int <= 0) by (nonlinear_arith)
                    requires
                        (a > 0) != (b > 0),
                ;
                i128::MIN
            }
        },
    }
}

proof fn lemma_trunc_div_bounded(a: int, b: int)
    requires
        b != 0,
        i128::MIN <= a <= i128::MAX,
        !(a == i128::MIN && b == -1),
    ensures
        i128::MIN <= trunc_div(a, b) <= i128::MAX,
{
    let q = abs(a) / abs(b);
    assert(0 <= q <= abs(a)) by (nonlinear_arith)
        requires
            abs(b) >= 1,
            abs(a) >= 0,
            q == abs(a) / abs(b),
    ;
    if a == i128::MIN && abs(b) >= 2 {
        assert(q <= abs(a) / 2) by (nonlinear_arith)
            requires
                abs(b) >= 2,
                abs(a) >= 0,
                q == abs(a) / abs(b),
        ;
    }
}

/// Magnitude of `a` as an unsigned number.
pub fn magnitude(a: i128) -> (r: u128)
    ensures
        r as int == abs(a as int),
{
    if a < 0 {
        ((-(a + 1)) as u128) + 1
    } else {
        a as u128
    }
}

/// Integer division rounding toward zero; zero when `b` is zero.
pub fn quot(a: i128, b: i128) -> (r: i128)
    ensures
        r == quot_spec(a as int, b as int),
        r == squot(a, b),
{
    if b == 0 {
        0
    } else if a == i128::MIN && b == -1 {
        i128::MAX
    } else {
        proof {
            lemma_trunc_div_bounded(a as int, b as int);
        }
        let q: u128 = magnitude(a) / magnitude(b);
        if (a >= 0) == (b > 0) {
            q as i128
        } else if q == 0x8000_0000_0000_0000_0000_0000_0000_0000u128 {
            i128::MIN
        } else {
            -(q as i128)
        }
    }
}

/// Product of two fixed-point numbers.
pub fn fx_mul(a: i128, b: i128) -> (r: i128)
    ensures
        r == fx_mul_spec(a as int, b as int),
        r == fmul(a, b),
{
    quot(sat_mul(a, b), SCALE)
}

/// Quotient of two fixed-point numbers; zero when `b` is zero.
pub fn fx_div(a: i128, b: i128) -> (r: i128)
    ensures
        r == fx_div_spec(a as int, b as int),
        r == fdiv(a, b),
{
    quot(sat_mul(a, SCALE), b)
}

} // verus!
