//! Signed division that rounds towards zero.

use vstd::prelude::*;

verus! {

/// The absolute value.
pub open spec fn magnitude(a: int) -> int {
    if a < 0 {
        -a
    } else {
        a
    }
}

/// The quotient, rounded towards zero.
pub open spec fn quotient(a: int, b: int) -> int {
    if (a < 0) == (b < 0) {
        magnitude(a) / magnitude(b)
    } else {
        -(magnitude(a) / magnitude(b))
    }
}

/// The remainder, with the sign of the dividend.
pub open spec fn remainder(a: int, b: int) -> int {
    if a < 0 {
        -(magnitude(a) % magnitude(b))
    } else {
        magnitude(a) % magnitude(b)
    }
}

/// Quotient and remainder give the dividend back, and the remainder is the smaller.
pub proof fn law_division(a: int, b: int)
    requires
        b != 0,
    ensures
        quotient(a, b) * b + remainder(a, b) == a,
        magnitude(remainder(a, b)) < magnitude(b),
{
    let (m, n) = (magnitude(a), magnitude(b));
    vstd::arithmetic::div_mod::lemma_fundamental_div_mod(m, n);
    let q = m / n;
    assert(n * q == q * n) by (nonlinear_arith);
    assert((-q) * b == -(q * b)) by (nonlinear_arith);
    assert(q * (-n) == -(q * n)) by (nonlinear_arith);
}

fn magnitude_of(a: i64) -> (m: u64)
    ensures
        m == magnitude(a as int),
{
    if a == i64::MIN {
        9223372036854775808
    } else if a < 0 {
        (-a) as u64
    } else {
        a as u64
    }
}

/// Divides, rounding towards zero.
pub fn div_trunc(a: i64, b: i64) -> (q: i64)
    requires
        b != 0,
        !(a == i64::MIN && b == -1),
    ensures
        q == quotient(a as int, b as int),
{
    let m = magnitude_of(a);
    let n = magnitude_of(b);
    let q: u64 = m / n;
    proof {
        vstd::arithmetic::div_mod::lemma_div_is_ordered_by_denominator(m as int, 1, n as int);
        vstd::arithmetic::div_mod::lemma_div_basics(m as int);
        if n >= 2 {
            vstd::arithmetic::div_mod::lemma_div_is_ordered_by_denominator(m as int, 2, n as int);
        }
    }
    if (a < 0) == (b < 0) {
        q as i64
    } else if q == 9223372036854775808 {
        i64::MIN
    } else {
        -(q as i64)
    }
}

/// The remainder of `div_trunc`.
pub fn rem_trunc(a: i64, b: i64) -> (r: i64)
    requires
        b != 0,
        !(a == i64::MIN && b == -1),
    ensures
        r == remainder(a as int, b as int),
{
    let m = magnitude_of(a);
    let n = magnitude_of(b);
    let r: u64 = m % n;
    if a < 0 {
        -(r as i64)
    } else {
        r as i64
    }
}

} // verus!
