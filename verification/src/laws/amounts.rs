//! What the rounding of amounts is: that of double-precision numbers.
use vstd::arithmetic::power2::{lemma2_to64, lemma_pow2_pos, lemma_pow2_unfold, pow2};
use vstd::prelude::*;

use crate::amount::{
    lemma_nearest_exact, lemma_nearest_order, lemma_round_multiple, lemma_spacing,
    lemma_spacing_grows, nearest_double, round_half_even, spacing, EXACT_LIMIT,
};

verus! {

/// A spacing is a power of two.
proof fn lemma_spacing_is_power(n: nat) -> (k: nat)
    ensures
        spacing(n) == pow2(k),
        k > 0 ==> spacing(n) > 1,
    decreases n,
{
    if n < EXACT_LIMIT {
        lemma2_to64();
        0
    } else {
        let half = lemma_spacing_is_power(n / 2);
        lemma_pow2_unfold(half + 1);
        lemma_spacing(n / 2);
        half + 1
    }
}

/// Twice a double is a double.
proof fn lemma_doubled(n: nat)
    requires
        nearest_double(n as int) == n,
    ensures
        nearest_double(2 * n as int) == 2 * n,
{
    if 2 * n < EXACT_LIMIT {
        lemma_nearest_exact(2 * n as int);
    } else {
        let unit = spacing(n);
        lemma_spacing(n);
        assert(spacing((2 * n) as nat) == 2 * unit);
        let down = n / unit;
        let rest = n % unit;
        assert(n == down * unit + rest && 0 <= rest < unit) by (nonlinear_arith)
            requires
                unit > 0,
                down == n / unit,
                rest == n % unit,
        ;
        assert((down + 1) * unit == down * unit + unit) by (nonlinear_arith);
        assert(rest == 0);
        let twice = 2 * unit;
        assert(2 * n == down * twice) by (nonlinear_arith)
            requires
                n == down * unit,
                twice == 2 * unit,
        ;
        assert((down * twice) % twice == 0) by (nonlinear_arith)
            requires
                twice > 0,
        ;
        lemma_round_multiple((2 * n) as nat, twice);
    }
}

proof fn lemma_scaled(m: nat, k: nat)
    requires
        m <= EXACT_LIMIT,
    ensures
        nearest_double(m * pow2(k) as int) == m * pow2(k),
    decreases k,
{
    if k == 0 {
        lemma2_to64();
        lemma_nearest_exact(m as int);
    } else {
        let below = pow2((k - 1) as nat);
        lemma_scaled(m, (k - 1) as nat);
        lemma_pow2_unfold(k);
        assert(m * pow2(k) == 2 * (m * below)) by (nonlinear_arith)
            requires
                pow2(k) == 2 * below,
        ;
        lemma_doubled(m * below);
    }
}

/// A number with a mantissa of up to 2^53, times a power of two, is kept as it is.
pub proof fn law_doubles_are_kept(m: int, k: nat)
    requires
        -0x20_0000_0000_0000 <= m <= 0x20_0000_0000_0000,
    ensures
        nearest_double(m * pow2(k)) == m * pow2(k),
{
    lemma_pow2_pos(k);
    if m >= 0 {
        assert(m * pow2(k) >= 0) by (nonlinear_arith)
            requires
                m >= 0,
        ;
        lemma_scaled(m as nat, k);
    } else {
        lemma_scaled((-m) as nat, k);
        assert(m * pow2(k) == -((-m) * pow2(k)) && m * pow2(k) < 0) by (nonlinear_arith)
            requires
                m < 0,
                pow2(k) > 0,
        ;
    }
}

/// Rounding treats both signs alike and keeps the order of numbers.
pub proof fn law_rounding_is_symmetric_and_ordered(a: int, b: int)
    requires
        a <= b,
    ensures
        nearest_double(-a) == -nearest_double(a),
        nearest_double(a) <= nearest_double(b),
{
    lemma_nearest_order(a, b);
    if a == 0 {
        lemma_nearest_exact(0);
    }
}

/// A rounded number is a double: a mantissa of up to 2^53 times a power of two. The number was off
/// by half that power at most, and by exactly half only where the mantissa is even.
pub proof fn law_rounding_gives_a_double(v: int) -> (parts: (int, nat))
    requires
        v >= 0,
    ensures
        ({
            let (m, k) = parts;
            let off = nearest_double(v) - v;
            &&& nearest_double(v) == m * pow2(k)
            &&& 0 <= m <= 0x20_0000_0000_0000
            &&& -pow2(k) <= 2 * off <= pow2(k)
            &&& 2 * off == pow2(k) || -2 * off == pow2(k) ==> m % 2 == 0
        }),
{
    let n = v as nat;
    let unit = spacing(n);
    lemma_spacing(n);
    let k = lemma_spacing_is_power(n);
    let down = n / unit;
    let rest = n % unit;
    assert(n == down * unit + rest && 0 <= rest < unit) by (nonlinear_arith)
        requires
            unit > 0,
            down == n / unit,
            rest == n % unit,
    ;
    assert((down + 1) * unit == down * unit + unit) by (nonlinear_arith);
    assert(down < EXACT_LIMIT) by (nonlinear_arith)
        requires
            n == down * unit + rest,
            rest >= 0,
            n < 0x20_0000_0000_0000 * unit,
            unit > 0,
            EXACT_LIMIT == 0x20_0000_0000_0000,
    ;
    let m: int = if 2 * rest < unit || (2 * rest == unit && down % 2 == 0) {
        down as int
    } else {
        down + 1int
    };
    (m, k)
}

/// No double is nearer to a number than the one that it is rounded to.
pub proof fn law_rounding_is_to_the_nearest(v: int, m: int, k: nat)
    requires
        v >= 0,
        -0x20_0000_0000_0000 <= m <= 0x20_0000_0000_0000,
    ensures
        ({
            let other = m * pow2(k);
            let rounded = nearest_double(v);
            &&& other <= v ==> other - v <= rounded - v <= v - other
            &&& other >= v ==> v - other <= rounded - v <= other - v
        }),
{
    let other = m * pow2(k);
    law_doubles_are_kept(m, k);
    let n = v as nat;
    let unit = spacing(n);
    lemma_spacing(n);
    let down = n / unit;
    let rest = n % unit;
    assert(n == down * unit + rest && 0 <= rest < unit) by (nonlinear_arith)
        requires
            unit > 0,
            down == n / unit,
            rest == n % unit,
    ;
    assert((down + 1) * unit == down * unit + unit) by (nonlinear_arith);
    let low = down * unit;
    if low < other < low + unit {
        let d = other as nat;
        let du = spacing(d);
        lemma_spacing(d);
        if d <= n {
            lemma_spacing_grows(d, n);
        } else {
            lemma_spacing_grows(n, d);
        }
        assert(down + 1 <= EXACT_LIMIT) by (nonlinear_arith)
            requires
                n == down * unit + rest,
                rest >= 0,
                n < 0x20_0000_0000_0000 * unit,
                unit > 0,
                EXACT_LIMIT == 0x20_0000_0000_0000,
        ;
        assert(low + unit <= 0x20_0000_0000_0000 * unit) by (nonlinear_arith)
            requires
                (down + 1) * unit == low + unit,
                down + 1 <= 0x20_0000_0000_0000,
                unit > 0,
        ;
        if unit > 1 {
            assert(down >= 0x10_0000_0000_0000) by (nonlinear_arith)
                requires
                    n == down * unit + rest,
                    rest < unit,
                    2 * n >= 0x20_0000_0000_0000 * unit,
                    unit > 0,
            ;
            assert(low >= 0x10_0000_0000_0000 * unit) by (nonlinear_arith)
                requires
                    low == down * unit,
                    down >= 0x10_0000_0000_0000,
                    unit > 0,
            ;
        }
        assert(du == unit);
        let q = d / unit;
        assert(round_half_even(d, unit) == d);
        assert(d % unit == 0) by {
            assert((q * unit) % unit == 0 && ((q + 1) * unit) % unit == 0) by (nonlinear_arith)
                requires
                    unit > 0,
            ;
        }
        assert(false) by (nonlinear_arith)
            requires
                unit > 0,
                d % unit == 0,
                down * unit < d,
                d < (down + 1) * unit,
        ;
    }
}

} // verus!
