//! Token amounts as the tracker stores them: whole numbers kept in double precision.
//!
//! A double represents every whole number up to 2^53 and, past that, only the multiples of
//! a growing power of two. Adding or subtracting two whole doubles gives the exact sum or
//! difference rounded to the nearest double, ties going to the even multiple. That rounding is
//! [`nearest_double`]; with it the amounts of this crate are plain integers.
use vstd::prelude::*;

verus! {

/// 2^53: every whole number up to here is a double.
pub const EXACT_LIMIT: i128 = 0x20_0000_0000_0000;

/// 2^125: no amount is larger than this, nor smaller than its negation.
pub const AMOUNT_LIMIT: i128 = 0x2000_0000_0000_0000_0000_0000_0000_0000;

/// 2^64: no single change of an amount is larger than this.
pub const STEP_LIMIT: i128 = 0x1_0000_0000_0000_0000;

/// The distance between neighbouring doubles from `n` upwards, for a whole number `n`.
pub open spec fn spacing(n: nat) -> nat
    decreases n,
{
    if n < EXACT_LIMIT {
        1
    } else {
        2 * spacing(n / 2)
    }
}

/// `n` rounded to a multiple of `unit`: to the nearer one, or to the even one of two equally near.
pub open spec fn round_half_even(n: nat, unit: nat) -> nat
    recommends
        unit > 0,
{
    let down = n / unit;
    let rest = n % unit;
    if 2 * rest < unit || (2 * rest == unit && down % 2 == 0) {
        down * unit
    } else {
        (down + 1) * unit
    }
}

/// The double nearest to the whole number `v`.
pub open spec fn nearest_double(v: int) -> int {
    if v >= 0 {
        round_half_even(v as nat, spacing(v as nat)) as int
    } else {
        -(round_half_even((-v) as nat, spacing((-v) as nat)) as int)
    }
}

/// Whether `v` lies within the range that amounts are kept in.
pub open spec fn in_range(v: int) -> bool {
    -AMOUNT_LIMIT <= v <= AMOUNT_LIMIT
}

/// Whether the whole number `v` is a double.
pub open spec fn is_double(v: int) -> bool {
    nearest_double(v) == v
}

/// Whether `v` is a value that an amount can take: a double within range.
pub open spec fn is_amount(v: int) -> bool {
    in_range(v) && is_double(v)
}

/// A spacing is 1 or even, and it fits the numbers it is the spacing of.
pub proof fn lemma_spacing(n: nat)
    ensures
        spacing(n) >= 1,
        n < EXACT_LIMIT * spacing(n),
        spacing(n) > 1 ==> {
            &&& spacing(n) % 2 == 0
            &&& 2 * n >= EXACT_LIMIT * spacing(n)
        },
    decreases n,
{
    if n >= EXACT_LIMIT {
        lemma_spacing(n / 2);
    }
}

/// A larger number has the same spacing, or one that is at least twice as large.
pub proof fn lemma_spacing_grows(a: nat, b: nat)
    requires
        a <= b,
    ensures
        spacing(a) == spacing(b) || 2 * spacing(a) <= spacing(b),
    decreases b,
{
    if b >= EXACT_LIMIT {
        if a >= EXACT_LIMIT {
            lemma_spacing_grows(a / 2, b / 2);
        } else {
            lemma_spacing(b / 2);
        }
    }
}

/// Rounding does not move a number past a multiple of the unit.
proof fn lemma_round_bounds(n: nat, unit: nat, k: nat)
    requires
        unit > 0,
    ensures
        n <= k * unit ==> round_half_even(n, unit) <= k * unit,
        n >= k * unit ==> round_half_even(n, unit) >= k * unit,
        round_half_even(n, unit) % unit == 0,
{
    let down = n / unit;
    let rest = n % unit;
    assert(n == down * unit + rest && 0 <= rest < unit) by (nonlinear_arith)
        requires
            unit > 0,
            down == n / unit,
            rest == n % unit,
    ;
    assert((down + 1) * unit == down * unit + unit) by (nonlinear_arith);
    if n <= k * unit {
        assert(down < k || (down == k && rest == 0)) by (nonlinear_arith)
            requires
                n == down * unit + rest,
                0 <= rest < unit,
                n <= k * unit,
        ;
        if down < k {
            assert((down + 1) * unit <= k * unit) by (nonlinear_arith)
                requires
                    down < k,
            ;
        }
    }
    if n >= k * unit {
        assert(down >= k) by (nonlinear_arith)
            requires
                n == down * unit + rest,
                0 <= rest < unit,
                n >= k * unit,
        ;
        assert(down * unit >= k * unit) by (nonlinear_arith)
            requires
                down >= k,
        ;
    }
    assert((down * unit) % unit == 0) by (nonlinear_arith)
        requires
            unit > 0,
    ;
    assert(((down + 1) * unit) % unit == 0) by (nonlinear_arith)
        requires
            unit > 0,
    ;
}

/// A multiple of the unit is not changed by rounding.
pub proof fn lemma_round_multiple(n: nat, unit: nat)
    requires
        unit > 0,
        n % unit == 0,
    ensures
        round_half_even(n, unit) == n,
{
    assert((n / unit) * unit == n) by (nonlinear_arith)
        requires
            unit > 0,
            n % unit == 0,
    ;
}

/// Rounding to one unit keeps the order of numbers.
proof fn lemma_round_order(a: nat, b: nat, unit: nat)
    requires
        unit > 0,
        a <= b,
    ensures
        round_half_even(a, unit) <= round_half_even(b, unit),
{
    let qa = a / unit;
    let qb = b / unit;
    assert(qa <= qb) by (nonlinear_arith)
        requires
            unit > 0,
            a <= b,
            qa == a / unit,
            qb == b / unit,
    ;
    assert((qa + 1) * unit == qa * unit + unit) by (nonlinear_arith);
    if qa < qb {
        assert((qa + 1) * unit <= qb * unit) by (nonlinear_arith)
            requires
                qa < qb,
        ;
        assert((qb + 1) * unit == qb * unit + unit) by (nonlinear_arith);
    } else {
        assert(a % unit <= b % unit) by (nonlinear_arith)
            requires
                unit > 0,
                a <= b,
                a / unit == b / unit,
        ;
    }
}

proof fn lemma_nearest_order_nat(a: nat, b: nat)
    requires
        a <= b,
    ensures
        round_half_even(a, spacing(a)) <= round_half_even(b, spacing(b)),
{
    let ua = spacing(a);
    let ub = spacing(b);
    lemma_spacing(a);
    lemma_spacing(b);
    lemma_spacing_grows(a, b);
    if ua == ub {
        lemma_round_order(a, b, ua);
    } else {
        let half = (EXACT_LIMIT / 2) as nat;
        lemma_round_bounds(a, ua, EXACT_LIMIT as nat);
        lemma_round_bounds(b, ub, half);
    }
}

proof fn lemma_nearest_twice_nat(n: nat)
    ensures
        ({
            let m = round_half_even(n, spacing(n));
            round_half_even(m, spacing(m)) == m
        }),
{
    let u = spacing(n);
    lemma_spacing(n);
    let m = round_half_even(n, u);
    let um = spacing(m);
    lemma_spacing(m);
    lemma_round_bounds(n, u, 0x20_0000_0000_0000);
    lemma_round_bounds(n, u, 0x10_0000_0000_0000);
    assert(m <= 0x20_0000_0000_0000 * u);
    assert(u > 1 ==> m >= 0x10_0000_0000_0000 * u);
    if um == u {
        lemma_round_multiple(m, um);
    } else if m <= n {
        lemma_spacing_grows(m, n);
    } else {
        lemma_spacing_grows(n, m);
        assert(m == 0x10_0000_0000_0000 * um);
        assert(m % um == 0) by (nonlinear_arith)
            requires
                um > 0,
                m == 0x10_0000_0000_0000 * um,
        ;
        lemma_round_multiple(m, um);
    }
}

/// A whole number within 2^53 is a double.
pub proof fn lemma_nearest_exact(v: int)
    requires
        -EXACT_LIMIT <= v <= EXACT_LIMIT,
    ensures
        nearest_double(v) == v,
{
    let n = if v >= 0 { v as nat } else { (-v) as nat };
    if n < EXACT_LIMIT {
        lemma_round_multiple(n, 1);
    } else {
        reveal_with_fuel(spacing, 2);
        lemma_round_multiple(n, 2);
    }
}

/// The nearest double is off by one part in 2^53 at most.
pub proof fn lemma_nearest_error(v: int)
    requires
        v >= 0,
    ensures
        EXACT_LIMIT * (nearest_double(v) - v) <= v,
{
    let n = v as nat;
    let unit = spacing(n);
    lemma_spacing(n);
    let down = n / unit;
    let rest = n % unit;
    assert(n == down * unit + rest && 0 <= rest < unit) by (nonlinear_arith)
        requires
            unit > 0,
            down == n / unit,
            rest == n % unit,
    ;
    assert((down + 1) * unit == down * unit + unit) by (nonlinear_arith);
    assert(2 * (nearest_double(v) - v) <= unit);
}

/// Taking the nearest double keeps the order of numbers.
pub proof fn lemma_nearest_order(a: int, b: int)
    requires
        a <= b,
    ensures
        nearest_double(a) <= nearest_double(b),
{
    if a >= 0 {
        lemma_nearest_order_nat(a as nat, b as nat);
    } else if b < 0 {
        lemma_nearest_order_nat((-b) as nat, (-a) as nat);
    }
}

/// The nearest double is a double.
pub proof fn lemma_nearest_twice(v: int)
    ensures
        nearest_double(nearest_double(v)) == nearest_double(v),
{
    if v >= 0 {
        lemma_nearest_twice_nat(v as nat);
    } else {
        lemma_nearest_twice_nat((-v) as nat);
        let m = round_half_even((-v) as nat, spacing((-v) as nat));
        if m == 0 {
            lemma_nearest_exact(0);
        }
    }
}

/// Changing a number within range by one step leaves its nearest double within range.
pub proof fn lemma_nearest_in_range(v: int)
    requires
        -AMOUNT_LIMIT - STEP_LIMIT <= v <= AMOUNT_LIMIT + STEP_LIMIT,
    ensures
        is_amount(nearest_double(v)),
{
    let top = AMOUNT_LIMIT + STEP_LIMIT;
    assert(spacing(top as nat) == 0x200_0000_0000_0000_0000) by {
        reveal_with_fuel(spacing, 80);
    }
    assert(nearest_double(top) == AMOUNT_LIMIT);
    assert(nearest_double(-top) == -AMOUNT_LIMIT);
    lemma_nearest_order(v, top);
    lemma_nearest_order(-top, v);
    lemma_nearest_twice(v);
}

/// A token count is nearest to a double within one step.
pub proof fn lemma_nearest_step(tokens: u64)
    ensures
        0 <= nearest_double(tokens as int) <= STEP_LIMIT,
{
    lemma_nearest_exact(0);
    lemma_nearest_order(0, tokens as int);
    assert(spacing(STEP_LIMIT as nat) == 0x1000) by {
        reveal_with_fuel(spacing, 14);
    }
    assert(nearest_double(STEP_LIMIT as int) == STEP_LIMIT);
    lemma_nearest_order(tokens as int, STEP_LIMIT as int);
}

/// The nearest double of the difference of two amounts is within twice their range.
pub proof fn lemma_nearest_in_double_range(v: int)
    requires
        -2 * AMOUNT_LIMIT <= v <= 2 * AMOUNT_LIMIT,
    ensures
        -2 * AMOUNT_LIMIT <= nearest_double(v) <= 2 * AMOUNT_LIMIT,
{
    let top = 2 * AMOUNT_LIMIT;
    assert(spacing(top as nat) == 0x400_0000_0000_0000_0000) by {
        reveal_with_fuel(spacing, 80);
    }
    assert(nearest_double(top) == top);
    lemma_nearest_order(v, top);
    lemma_nearest_order(-top, v);
}

/// Rounds a magnitude to the nearest double.
fn round_magnitude(n: u128) -> (r: u128)
    requires
        n <= 2 * AMOUNT_LIMIT,
    ensures
        r == round_half_even(n as nat, spacing(n as nat)),
{
    let mut unit: u128 = 1;
    let mut scaled: u128 = n;
    while scaled >= EXACT_LIMIT as u128
        invariant
            n <= 2 * AMOUNT_LIMIT,
            spacing(n as nat) == unit * spacing(scaled as nat),
            1 <= unit <= n || unit == 1,
            unit * scaled <= n,
        decreases scaled,
    {
        let ghost before = scaled;
        let ghost unit_before = unit;
        assert(unit * 0x20_0000_0000_0000 <= unit * scaled) by (nonlinear_arith)
            requires
                scaled >= 0x20_0000_0000_0000,
        ;
        scaled = scaled / 2;
        unit = unit * 2;
        proof {
            assert(unit * scaled <= unit_before * before) by (nonlinear_arith)
                requires
                    unit == unit_before * 2,
                    scaled == before / 2,
            ;
            assert(unit * spacing(scaled as nat) == unit_before * (2 * spacing(scaled as nat)))
                by (nonlinear_arith)
                requires
                    unit == unit_before * 2,
            ;
        }
    }
    let down: u128 = n / unit;
    let rest: u128 = n % unit;
    proof {
        assert(unit * spacing(scaled as nat) == unit) by (nonlinear_arith)
            requires
                spacing(scaled as nat) == 1,
        ;
        lemma_spacing(n as nat);
        lemma_round_bounds(n as nat, unit as nat, 0x20_0000_0000_0000);
        assert(down * unit <= n && n < (down + 1) * unit) by (nonlinear_arith)
            requires
                unit > 0,
                down == n / unit,
        ;
        assert((down + 1) * unit == down * unit + unit) by (nonlinear_arith);
    }
    if 2 * rest < unit || (2 * rest == unit && down % 2 == 0) {
        down * unit
    } else {
        (down + 1) * unit
    }
}

/// Rounds a whole number to the nearest double, as double-precision arithmetic does.
pub fn round_to_double(v: i128) -> (r: i128)
    requires
        -2 * AMOUNT_LIMIT <= v <= 2 * AMOUNT_LIMIT,
    ensures
        r == nearest_double(v as int),
{
    proof {
        lemma_nearest_in_double_range(v as int);
    }
    if v >= 0 {
        round_magnitude(v as u128) as i128
    } else {
        -(round_magnitude((-v) as u128) as i128)
    }
}

} // verus!
