//! Fixed-point quantities.
//!
//! Every physical quantity of the model is an `i64` counting millionths of its
//! unit (`SCALE` stands for `1.0`). A quantity is in range when its magnitude is
//! at most `LIMIT`; the operations below take quantities in range and saturate
//! their result at `LIMIT`, so a chain of them never overflows.
use vstd::prelude::*;
use vstd::arithmetic::div_mod::{lemma_div_is_ordered, lemma_div_multiples_vanish};

verus! {

/// The fixed-point representation of `1.0`.
pub const SCALE: i64 = 1_000_000;

/// The largest magnitude of a quantity (a thousand million whole units).
pub const LIMIT: i64 = 1_000_000_000_000_000;

pub open spec fn in_range(x: int) -> bool {
    -LIMIT <= x <= LIMIT
}

/// `x` saturated to the range of quantities.
pub open spec fn clamp(x: int) -> int {
    if x > LIMIT {
        LIMIT as int
    } else if x < -LIMIT {
        -LIMIT as int
    } else {
        x
    }
}

pub open spec fn abs(x: int) -> int {
    if x < 0 {
        -x
    } else {
        x
    }
}

/// Integer quotient rounded toward zero, as Rust's `/` rounds.
pub open spec fn quot(x: int, d: int) -> int {
    let q = abs(x) / abs(d);
    if (x >= 0) == (d > 0) {
        q
    } else {
        -q
    }
}

/// Sum of two quantities.
pub open spec fn sum(a: int, b: int) -> int {
    clamp(a + b)
}

/// Difference of two quantities.
pub open spec fn diff(a: int, b: int) -> int {
    clamp(a - b)
}

/// Product of two quantities.
pub open spec fn product(a: int, b: int) -> int {
    clamp(quot(a * b, SCALE as int))
}

/// Quotient of two quantities (`b != 0`).
pub open spec fn ratio(a: int, b: int) -> int {
    clamp(quot(a * SCALE, b))
}

pub open spec fn min(a: int, b: int) -> int {
    if a <= b {
        a
    } else {
        b
    }
}

pub open spec fn max(a: int, b: int) -> int {
    if a >= b {
        a
    } else {
        b
    }
}

pub proof fn lemma_quot_nonneg_ordered(x: int, y: int, d: int)
    requires
        0 <= x <= y,
        0 < d,
    ensures
        0 <= quot(x, d) <= quot(y, d),
{
    lemma_div_is_ordered(0, x, d);
    lemma_div_is_ordered(x, y, d);
}

/// Rounding toward zero keeps the order of the numerators.
pub proof fn lemma_quot_ordered(x: int, y: int, d: int)
    requires
        x <= y,
        0 < d,
    ensures
        quot(x, d) <= quot(y, d),
{
    lemma_div_is_ordered(0, abs(x), d);
    lemma_div_is_ordered(0, abs(y), d);
    if x >= 0 {
        lemma_div_is_ordered(x, y, d);
    } else if y < 0 {
        lemma_div_is_ordered(-y, -x, d);
    }
}

/// A quotient is never larger in magnitude than its numerator over a divisor of at least one.
pub proof fn lemma_quot_bound(x: int, d: int)
    requires
        1 <= d,
    ensures
        abs(quot(x, d)) <= abs(x),
        quot(-x, d) == -quot(x, d),
{
    lemma_div_is_ordered(0, abs(x), d);
    vstd::arithmetic::div_mod::lemma_div_is_ordered_by_denominator(abs(x), 1, d);
}

/// An exact multiple divides back to its factor.
pub proof fn lemma_quot_exact(x: int, d: int)
    requires
        0 < d,
    ensures
        quot(x * d, d) == x,
{
    lemma_div_multiples_vanish(abs(x), d);
    if x >= 0 {
        assert(x * d >= 0) by (nonlinear_arith)
            requires
                x >= 0,
                d > 0,
        ;
        assert(abs(x * d) == d * abs(x)) by (nonlinear_arith)
            requires
                x >= 0,
                x * d >= 0,
        ;
    } else {
        assert(x * d < 0) by (nonlinear_arith)
            requires
                x < 0,
                d > 0,
        ;
        assert(abs(x * d) == d * abs(x)) by (nonlinear_arith)
            requires
                x < 0,
                x * d < 0,
        ;
    }
}

/// Rounding toward zero is off by less than the divisor.
pub proof fn lemma_quot_error(x: int, d: int)
    requires
        0 < d,
    ensures
        abs(quot(x, d) * d - x) < d,
        abs(quot(x, d)) * d <= abs(x),
{
    let a = abs(x);
    vstd::arithmetic::div_mod::lemma_fundamental_div_mod(a, d);
    vstd::arithmetic::div_mod::lemma_mod_bound(a, d);
    let q = a / d;
    assert(d * q == q * d) by (nonlinear_arith);
    if x >= 0 {
        assert(quot(x, d) == q);
    } else {
        assert(quot(x, d) == -q);
        assert((-q) * d == -(q * d)) by (nonlinear_arith);
    }
}

pub proof fn lemma_clamp_ordered(x: int, y: int)
    requires
        x <= y,
    ensures
        clamp(x) <= clamp(y),
{
}

/// Magnitude of a quantity.
pub fn fx_abs(a: i64) -> (r: i64)
    requires
        in_range(a as int),
    ensures
        r == abs(a as int),
{
    if a < 0 {
        -a
    } else {
        a
    }
}

pub fn fx_min(a: i64, b: i64) -> (r: i64)
    ensures
        r == min(a as int, b as int),
{
    if a <= b {
        a
    } else {
        b
    }
}

pub fn fx_max(a: i64, b: i64) -> (r: i64)
    ensures
        r == max(a as int, b as int),
{
    if a >= b {
        a
    } else {
        b
    }
}

/// Saturates a wide intermediate value to the range of quantities.
fn clamp_wide(x: i128) -> (r: i64)
    ensures
        r == clamp(x as int),
{
    if x > LIMIT as i128 {
        LIMIT
    } else if x < -(LIMIT as i128) {
        -LIMIT
    } else {
        x as i64
    }
}

/// Quotient rounded toward zero of two wide values of moderate size.
fn quot_wide(x: i128, d: i128) -> (r: i128)
    requires
        d != 0,
        -0x4000_0000_0000_0000_0000_0000_0000_0000 < x < 0x4000_0000_0000_0000_0000_0000_0000_0000,
        -0x4000_0000_0000_0000_0000_0000_0000_0000 < d < 0x4000_0000_0000_0000_0000_0000_0000_0000,
    ensures
        r == quot(x as int, d as int),
{
    let ax: i128 = if x < 0 { -x } else { x };
    let ad: i128 = if d < 0 { -d } else { d };
    let q: i128 = ax / ad;
    proof {
        lemma_div_is_ordered(0, ax as int, ad as int);
        vstd::arithmetic::div_mod::lemma_div_is_ordered_by_denominator(ax as int, 1, ad as int);
    }
    if (x >= 0) == (d > 0) {
        q
    } else {
        -q
    }
}

/// Saturating sum of two quantities.
pub fn fx_add(a: i64, b: i64) -> (r: i64)
    requires
        in_range(a as int),
        in_range(b as int),
    ensures
        r == sum(a as int, b as int),
        in_range(r as int),
{
    clamp_wide(a as i128 + b as i128)
}

/// Saturating difference of two quantities.
pub fn fx_sub(a: i64, b: i64) -> (r: i64)
    requires
        in_range(a as int),
        in_range(b as int),
    ensures
        r == diff(a as int, b as int),
        in_range(r as int),
{
    clamp_wide(a as i128 - b as i128)
}

/// Saturating product of two quantities, rounded toward zero.
pub fn fx_mul(a: i64, b: i64) -> (r: i64)
    requires
        in_range(a as int),
        in_range(b as int),
    ensures
        r == product(a as int, b as int),
        in_range(r as int),
{
    proof {
        assert(-LIMIT * LIMIT <= (a as int) * (b as int) <= LIMIT * LIMIT) by (nonlinear_arith)
            requires
                -LIMIT <= a <= LIMIT,
                -LIMIT <= b <= LIMIT,
        ;
    }
    let p: i128 = (a as i128) * (b as i128);
    clamp_wide(quot_wide(p, SCALE as i128))
}

/// Saturating quotient of two quantities, rounded toward zero.
pub fn fx_div(a: i64, b: i64) -> (r: i64)
    requires
        in_range(a as int),
        in_range(b as int),
        b != 0,
    ensures
        r == ratio(a as int, b as int),
        in_range(r as int),
{
    let p: i128 = (a as i128) * (SCALE as i128);
    clamp_wide(quot_wide(p, b as i128))
}

} // verus!
