//! Division of whole numbers as binary fractions of 53 digits carry it out,
//! in whole-number arithmetic.
//!
//! A binary fraction of 53 digits holds every whole number below 2^53.  A
//! larger one, and a quotient, is held as the nearest number that 53 digits
//! can write; where two are equally near, as the one whose last digit is
//! zero.

use vstd::prelude::*;

verus! {

/// 2^53: from here on 53 binary digits no longer hold every whole number.
pub const DIGITS_53: u128 = 0x20_0000_0000_0000;

/// One million.
pub const MILLION: u128 = 1_000_000;

/// 2^52 million: a number of millions from here on, and below twice this,
/// has 53 binary digits before the point.
pub const FULL_WIDTH: u128 = 4_503_599_627_370_496_000_000;

/// The whole number nearest to `a / b`; of two that are equally near, the
/// even one.
pub open spec fn nearest(a: nat, b: nat) -> nat {
    let q = a / b;
    let r = a % b;
    if 2 * r > b || (2 * r == b && q % 2 == 1) {
        q + 1
    } else {
        q
    }
}

/// The multiple of `unit` nearest to `n`; of two that are equally near, the
/// even multiple.
pub open spec fn nearest_multiple(n: nat, unit: nat) -> nat {
    let q = n / unit;
    let r = n % unit;
    if 2 * r > unit || (2 * r == unit && q % 2 == 1) {
        (n - r + unit) as nat
    } else {
        (n - r) as nat
    }
}

/// The distance between neighbouring numbers of 53 binary digits around
/// `n`: `unit` doubled until 2^53 units pass `n`.
pub open spec fn spacing(n: nat, unit: nat) -> nat
    decreases n - unit,
{
    if unit > 0 && n >= DIGITS_53 * unit {
        spacing(n, 2 * unit)
    } else {
        unit
    }
}

/// `n` as 53 binary digits hold it.
pub open spec fn held(n: nat) -> nat {
    nearest_multiple(n, spacing(n, 1))
}

/// `p` doubled until it has reached [`FULL_WIDTH`].
pub open spec fn widened(p: nat) -> nat
    decreases 2 * FULL_WIDTH - p,
{
    if 0 < p < FULL_WIDTH {
        widened(2 * p)
    } else {
        p
    }
}

/// `s` doubled as often as [`widened`] doubles `p`.
pub open spec fn widening(p: nat, s: nat) -> nat
    decreases 2 * FULL_WIDTH - p,
{
    if 0 < p < FULL_WIDTH {
        widening(2 * p, 2 * s)
    } else {
        s
    }
}

/// A count in tenths of a million, for a count of a million or more: the
/// count as 53 binary digits hold it is divided by a million, the quotient
/// is held in 53 binary digits again, and the tenth nearest to it is taken.
///
/// With `n` the count as held and `s = widening(n, 1)`, the quotient as
/// held is `nearest(n * s, MILLION) / s`: `s` is the power of two that
/// brings `n / MILLION` to 53 digits before the point.
pub open spec fn tenths_of_millions(count: nat) -> nat {
    let n = held(count);
    let mantissa = nearest(widened(n), MILLION as nat);
    nearest(10 * mantissa, widening(n, 1))
}

/// The whole number nearest to `a / b`.
pub fn nearest_quotient(a: u128, b: u128) -> (r: u128)
    requires
        0 < b <= u128::MAX / 2,
        a < u128::MAX,
    ensures
        r == nearest(a as nat, b as nat),
        r <= a / b + 1,
{
    let q: u128 = a / b;
    let r: u128 = a % b;
    assert(q <= a) by (nonlinear_arith)
        requires
            q == a / b,
            b >= 1,
    ;
    if 2 * r > b || (2 * r == b && q % 2 == 1) {
        q + 1
    } else {
        q
    }
}

/// `count` as 53 binary digits hold it.
pub fn hold(count: u64) -> (r: u128)
    ensures
        r == held(count as nat),
        count >= 4096 ==> r >= 1,
        r <= count + 4096,
{
    let n: u128 = count as u128;
    let mut unit: u128 = 1;
    while n >= DIGITS_53 * unit
        invariant
            n == count,
            1 <= unit < 4096,
            spacing(n as nat, unit as nat) == spacing(n as nat, 1),
        decreases 4096 - unit,
    {
        unit = 2 * unit;
    }
    let q: u128 = n / unit;
    let r: u128 = n % unit;
    assert(n >= 4096 ==> q >= 1) by (nonlinear_arith)
        requires
            q == n / unit,
            1 <= unit < 4096,
    ;
    assert(n == unit * q + r) by (nonlinear_arith)
        requires
            q == n / unit,
            r == n % unit,
            unit > 0,
    ;
    assert(q >= 1 ==> unit * q >= unit) by (nonlinear_arith)
        requires
            unit >= 1,
    ;
    if 2 * r > unit || (2 * r == unit && q % 2 == 1) {
        n - r + unit
    } else {
        n - r
    }
}

/// A count of a million or more in tenths of a million.
pub fn millions_in_tenths(count: u64) -> (r: u128)
    requires
        count >= 1_000_000,
    ensures
        r == tenths_of_millions(count as nat),
{
    let n: u128 = hold(count);
    let mut p: u128 = n;
    let mut s: u128 = 1;
    while p < FULL_WIDTH
        invariant
            1 <= s <= p < 2 * FULL_WIDTH,
            widened(p as nat) == widened(n as nat),
            widening(p as nat, s as nat) == widening(n as nat, 1),
        decreases 2 * FULL_WIDTH - p,
    {
        p = 2 * p;
        s = 2 * s;
    }
    let mantissa: u128 = nearest_quotient(p, MILLION);
    assert(p / MILLION <= DIGITS_53);
    nearest_quotient(10 * mantissa, s)
}

} // verus!
