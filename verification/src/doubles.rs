//! Double-precision numbers carried as their IEEE 754 bit patterns: read as sign
//! and magnitude, the patterns of numbers are ordered as the numbers are.
//! Arithmetic on numbers that are not negative is done on their significands and
//! exponents, with the result rounded to the nearest double.

use vstd::arithmetic::div_mod::lemma_fundamental_div_mod;
use vstd::arithmetic::power2::{
    lemma2_to64, lemma2_to64_rest, lemma_pow2_pos, lemma_pow2_unfold, pow2,
};
use vstd::prelude::*;

verus! {

/// The sign bit.
pub const SIGN: u64 = 0x8000_0000_0000_0000;

/// The pattern of positive infinity: a greater magnitude is no number.
pub const INFINITY: u64 = 0x7ff0_0000_0000_0000;

/// The pattern of `0.0`.
pub const ZERO: u64 = 0;

/// The pattern of `2.0`.
pub const TWO: u64 = 0x4000_0000_0000_0000;

/// The pattern of `300.0`.
pub const THREE_HUNDRED: u64 = 0x4072_c000_0000_0000;

/// The pattern of `0.7`.
pub const SEVEN_TENTHS: u64 = 0x3fe6_6666_6666_6666;

/// The pattern of `90.0`.
pub const NINETY: u64 = 0x4056_8000_0000_0000;

/// The pattern of `95.0`.
pub const NINETY_FIVE: u64 = 0x4057_c000_0000_0000;

/// The pattern of `100.0`.
pub const HUNDRED: u64 = 0x4059_0000_0000_0000;

/// The least significand of 53 bits.
pub const LEAST: u64 = 0x10_0000_0000_0000;

/// The least number of 54 bits.
pub const BEYOND: u64 = 0x20_0000_0000_0000;

/// The pattern without its sign.
pub open spec fn magnitude(bits: u64) -> int {
    if bits >= SIGN {
        bits - SIGN
    } else {
        bits as int
    }
}

/// The pattern stands for no number.
pub open spec fn is_nan(bits: u64) -> bool {
    magnitude(bits) > INFINITY
}

/// An integer that is ordered as the number is; both zeros have the key 0.
pub open spec fn order_key(bits: u64) -> int {
    if bits >= SIGN {
        -magnitude(bits)
    } else {
        magnitude(bits)
    }
}

/// `a > b` as numbers; false as soon as one of them is no number.
pub open spec fn greater(a: u64, b: u64) -> bool {
    !is_nan(a) && !is_nan(b) && order_key(a) > order_key(b)
}

/// The number held between two limits; what is no number stays so.
pub open spec fn clamped(bits: u64, low: u64, high: u64) -> u64 {
    if greater(low, bits) {
        low
    } else if greater(bits, high) {
        high
    } else {
        bits
    }
}

/// The number held between two limits; what is no number is held at the lower
/// one.
pub open spec fn held(bits: u64, low: u64, high: u64) -> u64 {
    if is_nan(bits) {
        low
    } else {
        clamped(bits, low, high)
    }
}

/// `a > b` as numbers.
pub fn is_greater(a: u64, b: u64) -> (r: bool)
    ensures
        r == greater(a, b),
{
    let a_negative = a >= SIGN;
    let b_negative = b >= SIGN;
    let a_size: u64 = if a_negative {
        a - SIGN
    } else {
        a
    };
    let b_size: u64 = if b_negative {
        b - SIGN
    } else {
        b
    };
    if a_size > INFINITY || b_size > INFINITY {
        false
    } else if a_negative {
        b_negative && a_size < b_size
    } else if b_negative {
        a_size > 0 || b_size > 0
    } else {
        a_size > b_size
    }
}

/// Holds a number between two limits.
pub fn clamp(bits: u64, low: u64, high: u64) -> (r: u64)
    ensures
        r == clamped(bits, low, high),
{
    if is_greater(low, bits) {
        low
    } else if is_greater(bits, high) {
        high
    } else {
        bits
    }
}

/// Holds a number between two limits, and what is no number at the lower one.
pub fn hold(bits: u64, low: u64, high: u64) -> (r: u64)
    ensures
        r == held(bits, low, high),
{
    let size: u64 = if bits >= SIGN {
        bits - SIGN
    } else {
        bits
    };
    if size > INFINITY {
        low
    } else {
        clamp(bits, low, high)
    }
}

/// A number held between two limits lies between them, and holding it there
/// again changes nothing.
pub proof fn law_clamped_between(bits: u64, low: u64, high: u64)
    requires
        !is_nan(bits),
        !is_nan(low),
        !is_nan(high),
        order_key(low) <= order_key(high),
    ensures
        order_key(low) <= order_key(clamped(bits, low, high)) <= order_key(high),
        clamped(clamped(bits, low, high), low, high) == clamped(bits, low, high),
{
}

/// Whatever is held between two limits is a number between them, and a number
/// that lies there stays as it is.
pub proof fn law_held_between(bits: u64, low: u64, high: u64)
    requires
        !is_nan(low),
        !is_nan(high),
        order_key(low) <= order_key(high),
    ensures
        !is_nan(held(bits, low, high)),
        order_key(low) <= order_key(held(bits, low, high)) <= order_key(high),
        !is_nan(bits) && order_key(low) <= order_key(bits) <= order_key(high) ==> held(
            bits,
            low,
            high,
        ) == bits,
        !is_nan(bits) && order_key(bits) < order_key(low) ==> held(bits, low, high) == low,
        !is_nan(bits) && order_key(bits) > order_key(high) ==> held(bits, low, high) == high,
{
}

/// A number that is not negative: `significand * 2^exponent`.
pub struct DoubleView {
    pub significand: nat,
    pub exponent: int,
}

/// A number that is not negative: `significand * 2^exponent`.
#[derive(Debug, Clone, Copy, PartialEq, Eq)]
pub struct Double {
    pub significand: u64,
    pub exponent: i32,
}

impl View for Double {
    type V = DoubleView;

    open spec fn view(&self) -> DoubleView {
        DoubleView { significand: self.significand as nat, exponent: self.exponent as int }
    }
}

impl DoubleView {
    /// The bit pattern of a number with a significand of 53 bits, or with the
    /// least one of 54 bits, whose extra bit carries into the exponent.
    pub open spec fn pattern(self) -> int {
        if self.significand == 0 {
            0
        } else {
            (self.exponent + 1074) * LEAST + self.significand
        }
    }

    /// The significand is that of a positive double, and the exponent lies
    /// between two bounds.
    pub open spec fn within(self, low: int, high: int) -> bool {
        LEAST <= self.significand <= BEYOND && low <= self.exponent <= high
    }
}

/// The integer nearest to `n / d`; of two that are equally near, the even one.
pub open spec fn half_even(n: nat, d: nat) -> nat {
    let low = n / d;
    let rest = n % d;
    if 2 * rest > d || (2 * rest == d && low % 2 == 1) {
        low + 1
    } else {
        low
    }
}

/// The double nearest to `n / d * 2^exponent`; of two that are equally near, the
/// one with the even significand. The exponent is not bounded.
pub open spec fn nearest(n: nat, d: nat, exponent: int) -> DoubleView
    decreases
            if n < d * LEAST {
                d * LEAST - n
            } else if n >= d * BEYOND {
                n - d * BEYOND + 1
            } else {
                0
            },
{
    if n == 0 || d == 0 {
        DoubleView { significand: 0, exponent }
    } else if n < d * LEAST {
        nearest(2 * n, d, exponent - 1)
    } else if n >= d * BEYOND {
        nearest(n, 2 * d, exponent + 1)
    } else {
        DoubleView { significand: half_even(n, d), exponent }
    }
}

/// The double nearest to an integer.
pub open spec fn double_of(n: nat) -> DoubleView {
    nearest(n, 1, 0)
}

/// The double nearest to the quotient of two doubles.
pub open spec fn quotient(x: DoubleView, y: DoubleView) -> DoubleView {
    nearest(x.significand, y.significand, x.exponent - y.exponent)
}

/// The double nearest to the product of two doubles.
pub open spec fn product(x: DoubleView, y: DoubleView) -> DoubleView {
    nearest(x.significand * y.significand, 1, x.exponent + y.exponent)
}

pub(crate) proof fn lemma_half_even_between(n: nat, d: nat, low: nat, high: nat)
    requires
        d > 0,
        low * d <= n <= high * d,
    ensures
        low <= half_even(n, d) <= high,
{
    lemma_fundamental_div_mod(n as int, d as int);
    let q = n / d;
    let r = n % d;
    assert(low <= q) by (nonlinear_arith)
        requires
            low * d <= n,
            n == d * q + r,
            0 <= r < d,
            q >= 0,
            low >= 0,
    ;
    assert(q <= high && (q == high ==> r == 0)) by (nonlinear_arith)
        requires
            n <= high * d,
            n == d * q + r,
            0 <= r < d,
            q >= 0,
            high >= 0,
    ;
}

proof fn lemma_half_even_doubled(n: nat, d: nat)
    requires
        d > 0,
    ensures
        half_even(2 * n, 2 * d) == half_even(n, d),
{
    lemma_fundamental_div_mod(n as int, d as int);
    lemma_fundamental_div_mod((2 * n) as int, (2 * d) as int);
    let q = n / d;
    let r = n % d;
    let qq = (2 * n) / (2 * d);
    let rr = (2 * n) % (2 * d);
    assert(q == qq && rr == 2 * r) by (nonlinear_arith)
        requires
            n == d * q + r,
            2 * n == (2 * d) * qq + rr,
            0 <= r < d,
            0 <= rr < 2 * d,
            q >= 0,
            qq >= 0,
    ;
}

pub(crate) proof fn lemma_nearest_significand(n: nat, d: nat, e: int)
    requires
        n > 0,
        d > 0,
    ensures
        LEAST <= nearest(n, d, e).significand <= BEYOND,
    decreases
            if n < d * LEAST {
                d * LEAST - n
            } else if n >= d * BEYOND {
                n - d * BEYOND + 1
            } else {
                0
            },
{
    if n < d * LEAST {
        lemma_nearest_significand(2 * n, d, e - 1);
    } else if n >= d * BEYOND {
        lemma_nearest_significand(n, 2 * d, e + 1);
    } else {
        lemma_half_even_between(n, d, LEAST as nat, BEYOND as nat);
    }
}

proof fn lemma_nearest_doubled(n: nat, d: nat, e: int)
    requires
        n > 0,
        d > 0,
    ensures
        nearest(2 * n, 2 * d, e) == nearest(n, d, e),
    decreases
            if n < d * LEAST {
                d * LEAST - n
            } else if n >= d * BEYOND {
                n - d * BEYOND + 1
            } else {
                0
            },
{
    if n < d * LEAST {
        lemma_nearest_doubled(2 * n, d, e - 1);
    } else if n >= d * BEYOND {
        lemma_nearest_doubled(n, 2 * d, e + 1);
    } else {
        lemma_half_even_doubled(n, d);
    }
}

pub(crate) proof fn lemma_nearest_scaled(n: nat, d: nat, e: int, up: nat, down: nat)
    requires
        n > 0,
        d > 0,
    ensures
        nearest(n * pow2(up), d * pow2(down), e + down - up) == nearest(n, d, e),
    decreases up + down,
{
    lemma2_to64();
    if up > 0 {
        let k = (up - 1) as nat;
        lemma_nearest_scaled(n, d, e, k, down);
        lemma_pow2_unfold(up);
        lemma_pow2_pos(k);
        lemma_pow2_pos(down);
        let m = n * pow2(k);
        let b = d * pow2(down);
        assert(m > 0 && n * pow2(up) == 2 * m) by (nonlinear_arith)
            requires
                m == n * pow2(k),
                pow2(up) == 2 * pow2(k),
                pow2(k) > 0,
                n > 0,
        ;
        assert(b > 0) by (nonlinear_arith)
            requires
                b == d * pow2(down),
                pow2(down) > 0,
                d > 0,
        ;
        if m >= b * LEAST {
            lemma_nearest_doubled(m, b, e + down - k);
        }
    } else if down > 0 {
        let k = (down - 1) as nat;
        lemma_nearest_scaled(n, d, e, 0, k);
        lemma_pow2_unfold(down);
        lemma_pow2_pos(k);
        let b = d * pow2(k);
        assert(b > 0 && d * pow2(down) == 2 * b) by (nonlinear_arith)
            requires
                b == d * pow2(k),
                pow2(down) == 2 * pow2(k),
                pow2(k) > 0,
                d > 0,
        ;
        assert(n * pow2(0) == n);
        if n < b * BEYOND {
            lemma_nearest_doubled(n, b, e + k);
        }
    } else {
        assert(n * pow2(0) == n && d * pow2(0) == d);
    }
}

pub(crate) proof fn lemma_exponent_at_least(n: nat, d: nat, e: int)
    requires
        d > 0,
        n >= d * LEAST,
    ensures
        nearest(n, d, e).exponent >= e,
    decreases n - d * LEAST,
{
    if n >= d * BEYOND {
        lemma_exponent_at_least(n, 2 * d, e + 1);
    }
}

pub(crate) proof fn lemma_exponent_at_most(n: nat, d: nat, e: int)
    requires
        n > 0,
        n < d * BEYOND,
    ensures
        nearest(n, d, e).exponent <= e,
    decreases d * BEYOND - n,
{
    if n < d * LEAST {
        lemma_exponent_at_most(2 * n, d, e - 1);
    }
}

proof fn lemma_half_even_grows(n: nat, m: nat, d: nat)
    requires
        d > 0,
        n <= m,
    ensures
        half_even(n, d) <= half_even(m, d),
{
    lemma_fundamental_div_mod(n as int, d as int);
    lemma_fundamental_div_mod(m as int, d as int);
    let q = n / d;
    let r = n % d;
    let p = m / d;
    let t = m % d;
    assert(q <= p && (q == p ==> r <= t)) by (nonlinear_arith)
        requires
            n == d * q + r,
            m == d * p + t,
            n <= m,
            0 <= r < d,
            0 <= t < d,
    ;
}

/// Rounding keeps the order of numbers.
proof fn lemma_nearest_grows(n: nat, m: nat, d: nat, e: int)
    requires
        0 < n <= m,
        d > 0,
    ensures
        nearest(n, d, e).exponent <= nearest(m, d, e).exponent,
        nearest(n, d, e).exponent == nearest(m, d, e).exponent ==> nearest(n, d, e).significand
            <= nearest(m, d, e).significand,
    decreases
            if n < d * LEAST {
                d * LEAST - n
            } else if n >= d * BEYOND {
                n - d * BEYOND + 1
            } else {
                0
            },
{
    if m < d * LEAST {
        lemma_nearest_grows(2 * n, 2 * m, d, e - 1);
    } else if n < d * LEAST {
        lemma_exponent_at_most(2 * n, d, e - 1);
        lemma_exponent_at_least(m, d, e);
    } else if n >= d * BEYOND {
        lemma_nearest_grows(n, m, 2 * d, e + 1);
    } else if m >= d * BEYOND {
        lemma_exponent_at_least(m, 2 * d, e + 1);
    } else {
        lemma_half_even_grows(n, m, d);
    }
}

/// The double nearest to a number of at most one is at most one, and one is exact.
proof fn lemma_at_most_one(n: nat, d: nat)
    requires
        0 < n <= d,
    ensures
        nearest(n, d, 0).exponent <= -53 || nearest(n, d, 0) == (DoubleView {
            significand: LEAST as nat,
            exponent: -52,
        }),
        n == d ==> nearest(n, d, 0) == (DoubleView {
            significand: LEAST as nat,
            exponent: -52,
        }),
{
    lemma2_to64();
    lemma2_to64_rest();
    let m = n * pow2(53);
    if n < d {
        lemma_nearest_scaled(n, d, 0, 53, 0);
        assert(d * pow2(0) == d);
        lemma_exponent_at_most(m, d, -53);
    } else {
        lemma_nearest_scaled(n, d, 0, 53, 1);
        assert(d * pow2(1) == 2 * d);
        lemma_half_even_between(m, 2 * d, LEAST as nat, LEAST as nat);
    }
}

/// The quotient of an integer and one that is not less is at most one, and one if
/// they are the same.
pub(crate) proof fn lemma_share(n: nat, d: nat)
    requires
        0 < n <= d,
    ensures
        ({
            let q = quotient(double_of(n), double_of(d));
            let one = DoubleView { significand: LEAST as nat, exponent: -52 };
            &&& LEAST <= q.significand <= BEYOND
            &&& q.exponent <= -53 || q == one
            &&& n == d ==> q == one
        }),
{
    let x = double_of(n);
    let y = double_of(d);
    lemma2_to64();
    lemma_nearest_significand(n, 1, 0);
    lemma_nearest_significand(d, 1, 0);
    lemma_nearest_grows(n, d, 1, 0);
    lemma_quotient_within(x, y);
    let k = (y.exponent - x.exponent) as nat;
    lemma_nearest_scaled(x.significand, y.significand, x.exponent - y.exponent, 0, k);
    assert(x.significand * pow2(0) == x.significand);
    let b = y.significand * pow2(k);
    if k == 0 {
        assert(b == y.significand) by (nonlinear_arith)
            requires
                b == y.significand * pow2(k),
                pow2(k) == 1,
        ;
    } else {
        lemma_pow2_unfold(k);
        lemma_pow2_pos((k - 1) as nat);
        assert(b >= 2 * y.significand) by (nonlinear_arith)
            requires
                b == y.significand * pow2(k),
                pow2(k) == 2 * pow2((k - 1) as nat),
                pow2((k - 1) as nat) >= 1,
        ;
    }
    lemma_at_most_one(x.significand, b);
}

proof fn lemma_double_of_within(n: nat)
    requires
        0 < n <= u64::MAX,
    ensures
        double_of(n).within(-52, 11),
{
    lemma2_to64();
    lemma2_to64_rest();
    lemma_nearest_significand(n, 1, 0);
    lemma_nearest_scaled(n, 1, 0, 52, 0);
    lemma_exponent_at_least(n * pow2(52), 1, -52);
    lemma_nearest_scaled(n, 1, 0, 0, 11);
    lemma_exponent_at_most(n, pow2(11), 11);
}

proof fn lemma_quotient_within(x: DoubleView, y: DoubleView)
    requires
        LEAST <= x.significand <= BEYOND,
        LEAST <= y.significand <= BEYOND,
    ensures
        quotient(x, y).within(x.exponent - y.exponent - 53, x.exponent - y.exponent),
{
    let e = x.exponent - y.exponent;
    lemma2_to64();
    lemma2_to64_rest();
    lemma_nearest_significand(x.significand, y.significand, e);
    lemma_nearest_scaled(x.significand, y.significand, e, 53, 0);
    lemma_exponent_at_least(x.significand * pow2(53), y.significand, e - 53);
    lemma_exponent_at_most(x.significand, y.significand, e);
}

proof fn lemma_product_within(x: DoubleView, y: DoubleView)
    requires
        LEAST <= x.significand <= BEYOND,
        LEAST <= y.significand <= BEYOND,
    ensures
        product(x, y).within(x.exponent + y.exponent, x.exponent + y.exponent + 54),
        x.significand * y.significand <= BEYOND * BEYOND,
{
    let n = x.significand * y.significand;
    let e = x.exponent + y.exponent;
    assert(LEAST * LEAST <= n <= BEYOND * BEYOND) by (nonlinear_arith)
        requires
            n == x.significand * y.significand,
            LEAST <= x.significand <= BEYOND,
            LEAST <= y.significand <= BEYOND,
    ;
    lemma2_to64();
    lemma2_to64_rest();
    lemma_nearest_significand(n, 1, e);
    lemma_exponent_at_least(n, 1, e);
    lemma_nearest_scaled(n, 1, e, 0, 54);
    lemma_exponent_at_most(n, pow2(54), e + 54);
}

proof fn lemma_small_is_exact(n: nat, e: int) -> (k: nat)
    requires
        0 < n < BEYOND,
    ensures
        nearest(n, 1, e) == (DoubleView { significand: n * pow2(k), exponent: e - k }),
    decreases BEYOND - n,
{
    lemma2_to64();
    if n < LEAST {
        let k = lemma_small_is_exact(2 * n, e - 1);
        lemma_pow2_unfold(k + 1);
        assert((2 * n) * pow2(k) == n * pow2(k + 1)) by (nonlinear_arith)
            requires
                pow2(k + 1) == 2 * pow2(k),
        ;
        k + 1
    } else {
        assert(n * pow2(0) == n);
        0
    }
}

/// Integers of at most 53 bits are doubles, so their quotient is rounded once.
pub(crate) proof fn lemma_quotient_of_integers(n: nat, d: nat)
    requires
        0 < n < BEYOND,
        0 < d < BEYOND,
    ensures
        quotient(double_of(n), double_of(d)) == nearest(n, d, 0),
{
    let up = lemma_small_is_exact(n, 0);
    let down = lemma_small_is_exact(d, 0);
    lemma_nearest_scaled(n, d, 0, up, down);
}

/// A double divided by an integer of at most 53 bits.
pub(crate) proof fn lemma_quotient_by_integer(x: DoubleView, d: nat)
    requires
        x.significand > 0,
        0 < d < BEYOND,
    ensures
        quotient(x, double_of(d)) == nearest(x.significand, d, x.exponent),
{
    let down = lemma_small_is_exact(d, 0);
    lemma2_to64();
    lemma_nearest_scaled(x.significand, d, x.exponent, 0, down);
    assert(x.significand * pow2(0) == x.significand);
}

/// A hundred times a double.
pub(crate) proof fn lemma_hundredfold(x: DoubleView)
    requires
        LEAST <= x.significand <= BEYOND,
    ensures
        product(x, double_of(100)) == (if 100 * x.significand < 64 * BEYOND {
            DoubleView {
                significand: half_even(100 * x.significand, 64),
                exponent: x.exponent + 6,
            }
        } else {
            DoubleView {
                significand: half_even(100 * x.significand, 128),
                exponent: x.exponent + 7,
            }
        }),
{
    let n = 100 * x.significand;
    let up = lemma_small_is_exact(100, 0);
    lemma2_to64();
    assert(x.significand * (100 * pow2(up)) == n * pow2(up)) by (nonlinear_arith)
        requires
            n == 100 * x.significand,
    ;
    lemma_nearest_scaled(n, 1, x.exponent, up, 0);
    if n < 64 * BEYOND {
        lemma_nearest_scaled(n, 1, x.exponent, 0, 6);
    } else {
        lemma_nearest_scaled(n, 1, x.exponent, 0, 7);
    }
    assert(n * pow2(0) == n);
}

/// The double nearest to `n / d * 2^exponent`.
fn round(n: u128, d: u128, exponent: i32) -> (x: Double)
    requires
        0 < d <= BEYOND,
        n <= BEYOND * BEYOND,
        -1000 <= exponent <= 1000,
        n > 0 ==> -1000 <= nearest(n as nat, d as nat, exponent as int).exponent <= 1000,
    ensures
        x@ == nearest(n as nat, d as nat, exponent as int),
{
    if n == 0 {
        return Double { significand: 0, exponent };
    }
    let ghost rounded = nearest(n as nat, d as nat, exponent as int);
    let mut top: u128 = n;
    let mut bottom: u128 = d;
    let mut e: i32 = exponent;
    while top < bottom * 0x10_0000_0000_0000
        invariant
            top > 0,
            bottom == d,
            0 < d <= BEYOND,
            top <= BEYOND * BEYOND,
            -1000 <= e <= 1000,
            -1000 <= rounded.exponent,
            nearest(top as nat, bottom as nat, e as int) == rounded,
        decreases bottom * BEYOND - top,
    {
        proof {
            lemma_exponent_at_most((2 * top) as nat, bottom as nat, e - 1);
        }
        top = 2 * top;
        e -= 1;
    }
    while top >= bottom * 0x20_0000_0000_0000
        invariant
            top >= bottom * LEAST,
            0 < bottom <= BEYOND * BEYOND,
            top <= BEYOND * BEYOND,
            -1000 <= e <= 1000,
            rounded.exponent <= 1000,
            nearest(top as nat, bottom as nat, e as int) == rounded,
        decreases top - bottom,
    {
        proof {
            lemma_exponent_at_least(top as nat, (2 * bottom) as nat, e + 1);
        }
        bottom = 2 * bottom;
        e += 1;
    }
    let low: u128 = top / bottom;
    let rest: u128 = top % bottom;
    proof {
        lemma_half_even_between(top as nat, bottom as nat, LEAST as nat, BEYOND as nat);
        lemma_fundamental_div_mod(top as int, bottom as int);
        assert(low <= BEYOND) by (nonlinear_arith)
            requires
                top == bottom * low + rest,
                rest >= 0,
                top < bottom * BEYOND,
                bottom > 0,
        ;
    }
    let significand: u128 = if 2 * rest > bottom || (2 * rest == bottom && low % 2 == 1) {
        low + 1
    } else {
        low
    };
    Double { significand: significand as u64, exponent: e }
}

impl Double {
    /// The double nearest to an integer.
    pub fn of(n: u64) -> (x: Double)
        ensures
            x@ == double_of(n as nat),
            n == 0 ==> x@.significand == 0 && x@.exponent == 0,
            n > 0 ==> x@.within(-52, 11),
    {
        proof {
            if n > 0 {
                lemma_double_of_within(n as nat);
            }
        }
        round(n as u128, 1, 0)
    }

    /// The double nearest to the quotient of two doubles.
    pub fn over(self, y: Double) -> (q: Double)
        requires
            self@.significand == 0 ==> -400 <= self@.exponent <= 400,
            self@.significand != 0 ==> self@.within(-400, 400),
            y@.within(-400, 400),
        ensures
            q@ == quotient(self@, y@),
            self@.significand == 0 ==> q@.significand == 0 && q@.exponent == self@.exponent
                - y@.exponent,
            self@.significand != 0 ==> q@.within(
                self@.exponent - y@.exponent - 53,
                self@.exponent - y@.exponent,
            ),
    {
        proof {
            if self.significand != 0 {
                lemma_quotient_within(self@, y@);
            }
        }
        round(self.significand as u128, y.significand as u128, self.exponent - y.exponent)
    }

    /// The double nearest to the product of two doubles.
    pub fn times(self, y: Double) -> (p: Double)
        requires
            self@.significand == 0 ==> -400 <= self@.exponent <= 400,
            self@.significand != 0 ==> self@.within(-400, 400),
            y@.within(-400, 400),
        ensures
            p@ == product(self@, y@),
            self@.significand == 0 ==> p@.significand == 0,
            self@.significand != 0 ==> p@.within(
                self@.exponent + y@.exponent,
                self@.exponent + y@.exponent + 54,
            ),
    {
        proof {
            if self.significand != 0 {
                lemma_product_within(self@, y@);
            }
        }
        round(self.significand as u128 * y.significand as u128, 1, self.exponent + y.exponent)
    }

    /// The bit pattern.
    pub fn bits(self) -> (r: u64)
        requires
            self@.significand != 0 ==> self@.within(-1000, 900),
        ensures
            r == self@.pattern(),
    {
        if self.significand == 0 {
            return 0;
        }
        (self.exponent + 1074) as u64 * 0x10_0000_0000_0000 + self.significand
    }
}

/// How a pattern is read: the top bit is the sign, the rest the magnitude; what is
/// beyond infinity is no number; and numbers are compared by both.
pub proof fn law_patterns_are_compared(a: u64, b: u64)
    ensures
        a < 0x8000_0000_0000_0000 ==> order_key(a) == a,
        a >= 0x8000_0000_0000_0000 ==> order_key(a) == 0x8000_0000_0000_0000 - a,
        is_nan(a) <==> order_key(a) > 0x7ff0_0000_0000_0000 || order_key(a)
            < -0x7ff0_0000_0000_0000,
        greater(a, b) <==> !is_nan(a) && !is_nan(b) && order_key(a) > order_key(b),
{
}

/// The integer that `n / d` is rounded to is off by one half at most, and even if it
/// is off by just that.
pub proof fn law_rounding_to_an_integer(n: nat, d: nat)
    requires
        d > 0,
    ensures
        2 * (n - d * half_even(n, d)) <= d,
        2 * (d * half_even(n, d) - n) <= d,
        2 * (n - d * half_even(n, d)) == d || 2 * (d * half_even(n, d) - n) == d ==> half_even(
            n,
            d,
        ) % 2 == 0,
{
    lemma_fundamental_div_mod(n as int, d as int);
    let q = n / d;
    assert(d * (q + 1) == d * q + d) by (nonlinear_arith);
}

/// `x` is the double nearest to `n / d * 2^exponent`: with `n` doubled `up` times
/// and `d` doubled `down` times their quotient has 53 bits, and the significand of
/// `x` is off by one half at most, and even if it is off by just that.
pub open spec fn rounds_with(
    x: DoubleView,
    n: nat,
    d: nat,
    exponent: int,
    up: nat,
    down: nat,
) -> bool {
    let top = n * pow2(up);
    let bottom = d * pow2(down);
    &&& x.exponent == exponent + down - up
    &&& bottom * 0x10_0000_0000_0000 <= top < bottom * 0x20_0000_0000_0000
    &&& 2 * (top - bottom * x.significand) <= bottom
    &&& 2 * (bottom * x.significand - top) <= bottom
    &&& 2 * (top - bottom * x.significand) == bottom || 2 * (bottom * x.significand - top) == bottom
        ==> x.significand % 2 == 0
}

/// `x` is the double nearest to `n / d * 2^exponent`.
pub open spec fn rounds(x: DoubleView, n: nat, d: nat, exponent: int) -> bool {
    exists|up: nat, down: nat| rounds_with(x, n, d, exponent, up, down)
}

proof fn lemma_nearest_rounds(n: nat, d: nat, e: int) -> (shift: (nat, nat))
    requires
        n > 0,
        d > 0,
    ensures
        rounds_with(nearest(n, d, e), n, d, e, shift.0, shift.1),
    decreases
            if n < d * LEAST {
                d * LEAST - n
            } else if n >= d * BEYOND {
                n - d * BEYOND + 1
            } else {
                0
            },
{
    lemma2_to64();
    if n < d * LEAST {
        let (up, down) = lemma_nearest_rounds(2 * n, d, e - 1);
        lemma_pow2_unfold(up + 1);
        assert((2 * n) * pow2(up) == n * pow2(up + 1)) by (nonlinear_arith)
            requires
                pow2(up + 1) == 2 * pow2(up),
        ;
        (up + 1, down)
    } else if n >= d * BEYOND {
        let (up, down) = lemma_nearest_rounds(n, 2 * d, e + 1);
        lemma_pow2_unfold(down + 1);
        assert((2 * d) * pow2(down) == d * pow2(down + 1)) by (nonlinear_arith)
            requires
                pow2(down + 1) == 2 * pow2(down),
        ;
        (up, down + 1)
    } else {
        law_rounding_to_an_integer(n, d);
        assert(n * pow2(0) == n && d * pow2(0) == d);
        (0, 0)
    }
}

/// Integers, quotients and products are rounded to the nearest double.
pub proof fn law_arithmetic_is_rounded(n: nat, x: DoubleView, y: DoubleView)
    requires
        n > 0,
        x.significand > 0,
        y.significand > 0,
    ensures
        rounds(double_of(n), n, 1, 0),
        rounds(quotient(x, y), x.significand, y.significand, x.exponent - y.exponent),
        rounds(product(x, y), x.significand * y.significand, 1, x.exponent + y.exponent),
{
    let (a, b) = lemma_nearest_rounds(n, 1, 0);
    assert(rounds_with(double_of(n), n, 1, 0, a, b));
    let e = x.exponent - y.exponent;
    let (c, d) = lemma_nearest_rounds(x.significand, y.significand, e);
    assert(rounds_with(quotient(x, y), x.significand, y.significand, e, c, d));
    let m = x.significand * y.significand;
    assert(m > 0) by (nonlinear_arith)
        requires
            m == x.significand * y.significand,
            x.significand > 0,
            y.significand > 0,
    ;
    let f = x.exponent + y.exponent;
    let (g, h) = lemma_nearest_rounds(m, 1, f);
    assert(rounds_with(product(x, y), m, 1, f, g, h));
}

/// A double with a significand of 53 bits has the pattern of IEEE 754: the biased
/// exponent above the 52 lower bits of the significand.
pub proof fn law_pattern_of_a_double(x: DoubleView)
    requires
        0x10_0000_0000_0000 <= x.significand < 0x20_0000_0000_0000,
    ensures
        x.pattern() == (x.exponent + 52 + 1023) * 0x10_0000_0000_0000 + (x.significand
            - 0x10_0000_0000_0000),
{
}

} // verus!
