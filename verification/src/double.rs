//! Binary floating-point numbers with 53 significant bits, as integers.
//!
//! A number of days is written as a multiple of 2^-69 of a day, which is the finest step that
//! the numbers here have: the smallest of them that is not zero is that of one second.
use vstd::prelude::*;

verus! {

/// `n / unit`, rounded to the nearest integer, and to the even one of two.
pub open spec fn nearest(n: int, unit: int) -> int {
    let q = n / unit;
    let r = n % unit;
    if 2 * r > unit || (2 * r == unit && q % 2 == 1) {
        q + 1
    } else {
        q
    }
}

/// The distance of the numbers with 53 bits around `n`, if it is at least `step`.
pub open spec fn spacing(n: int, step: int) -> int
    decreases n - step,
{
    if step <= 0 || n < 0x20_0000_0000_0000 * step {
        step
    } else {
        spacing(n, 2 * step)
    }
}

/// `n` in 53 bits.
pub open spec fn in_double(n: int) -> int {
    let s = spacing(n, 1);
    nearest(n, s) * s
}

/// `n / d` in 53 bits, where no finer step than one is needed.
pub open spec fn quotient_in_double(n: int, d: int) -> int {
    let s = spacing(n / d, 1);
    nearest(n, d * s) * s
}

/// One day.
pub const ONE: u128 = 0x20_0000_0000_0000_0000;

/// So many seconds, in days.
pub open spec fn in_days(seconds: int) -> int {
    quotient_in_double(in_double(seconds) * ONE, 86400)
}

/// The same for a number of seconds that may be negative.
pub open spec fn signed_days(seconds: int) -> int {
    if seconds < 0 {
        -in_days(-seconds)
    } else {
        in_days(seconds)
    }
}

/// What 0.99 stands for.
pub open spec fn almost_one() -> int {
    quotient_in_double(99 * ONE, 100)
}

/// What is left of `days` days after so many seconds, in whole days: 0.99 of a day is added,
/// and a part of a day dropped. It is at least one day and at most what 32 bits hold.
pub open spec fn whole_days_left(days: int, seconds: int) -> int {
    let rest = in_double(days * ONE - signed_days(seconds));
    let n = in_double(rest + almost_one()) / (ONE as int);
    if n < 1 {
        1
    } else if n > u32::MAX {
        u32::MAX as int
    } else {
        n
    }
}

// ---------------------------------------------------------------------------------------
// Bounds and order

proof fn spacing_bound(n: int, step: int)
    requires
        0 <= n,
        1 <= step,
        step == 1 || 0x10_0000_0000_0000 * step <= n,
    ensures
        n < 0x20_0000_0000_0000 * spacing(n, step),
        spacing(n, step) >= step,
        spacing(n, step) == 1 || 0x10_0000_0000_0000 * spacing(n, step) <= n,
    decreases n - step,
{
    if n >= 0x20_0000_0000_0000 * step {
        spacing_bound(n, 2 * step);
    }
}

proof fn nearest_bound(n: int, unit: int)
    requires
        0 <= n,
        0 < unit,
    ensures
        0 <= nearest(n, unit),
        n - unit <= nearest(n, unit) * unit <= n + unit,
        n / unit <= nearest(n, unit) <= n / unit + 1,
        nearest(n, 1) == n,
{
    let q = n / unit;
    vstd::arithmetic::div_mod::lemma_fundamental_div_mod(n, unit);
    vstd::arithmetic::div_mod::lemma_mod_bound(n, unit);
    vstd::arithmetic::div_mod::lemma_div_pos_is_pos(n, unit);
    assert((q + 1) * unit == q * unit + unit) by (nonlinear_arith);
    assert(q * unit == unit * q) by (nonlinear_arith);
}

/// Rounding moves a number by less than a 2^52-th, and an integer below 2^53 not at all.
pub proof fn double_bound(n: int)
    requires
        0 <= n,
    ensures
        0 <= in_double(n),
        n < 0x20_0000_0000_0000 ==> in_double(n) == n,
        n - 1 - n / 0x10_0000_0000_0000 <= in_double(n) <= n + 1 + n / 0x10_0000_0000_0000,
{
    let s = spacing(n, 1);
    spacing_bound(n, 1);
    nearest_bound(n, s);
    let v = nearest(n, s);
    assert(0 <= v * s) by (nonlinear_arith)
        requires
            0 <= v,
            1 <= s,
    ;
    if n < 0x20_0000_0000_0000 {
        assert(s == 1 && v == n);
    }
}

proof fn spacing_order(n: int, m: int, step: int)
    requires
        0 <= n <= m,
        1 <= step,
    ensures
        spacing(n, step) == spacing(m, step) || 2 * spacing(n, step) <= spacing(m, step),
    decreases m - step,
{
    if n >= 0x20_0000_0000_0000 * step {
        spacing_order(n, m, 2 * step);
    } else if m >= 0x20_0000_0000_0000 * step {
        spacing_at_least(m, 2 * step);
    }
}

proof fn spacing_at_least(n: int, step: int)
    requires
        1 <= step,
    ensures
        spacing(n, step) >= step,
    decreases n - step,
{
    if n >= 0x20_0000_0000_0000 * step {
        spacing_at_least(n, 2 * step);
    }
}

proof fn nearest_order(n: int, m: int, unit: int)
    requires
        0 <= n <= m,
        0 < unit,
    ensures
        nearest(n, unit) <= nearest(m, unit),
{
    vstd::arithmetic::div_mod::lemma_div_is_ordered(n, m, unit);
    vstd::arithmetic::div_mod::lemma_fundamental_div_mod(n, unit);
    vstd::arithmetic::div_mod::lemma_fundamental_div_mod(m, unit);
}

/// Rounding keeps the order.
pub proof fn double_order(n: int, m: int)
    requires
        0 <= n <= m,
    ensures
        in_double(n) <= in_double(m),
{
    let s = spacing(n, 1);
    let t = spacing(m, 1);
    spacing_bound(n, 1);
    spacing_bound(m, 1);
    spacing_order(n, m, 1);
    if s == t {
        nearest_order(n, m, s);
        let a = nearest(n, s);
        let b = nearest(m, s);
        assert(a * s <= b * s) by (nonlinear_arith)
            requires
                a <= b,
                1 <= s,
        ;
    } else {
        nearest_bound(n, s);
        nearest_bound(m, t);
        let a = nearest(n, s);
        let b = nearest(m, t);
        let top = 0x20_0000_0000_0000int;
        assert(n / s < top) by (nonlinear_arith)
            requires
                0 <= n < top * s,
                1 <= s,
        ;
        assert(m / t >= 0x10_0000_0000_0000) by (nonlinear_arith)
            requires
                0x10_0000_0000_0000 * t <= m,
                1 <= t,
        ;
        assert(a * s <= top * s) by (nonlinear_arith)
            requires
                a <= top,
                1 <= s,
        ;
        assert(b * t >= 0x10_0000_0000_0000 * t) by (nonlinear_arith)
            requires
                b >= 0x10_0000_0000_0000,
                1 <= t,
        ;
    }
}

proof fn quotient_bound(n: int, d: int)
    requires
        0 <= n,
        0 < d,
    ensures
        0 <= quotient_in_double(n, d) <= n / d + 1 + n / d / 0x10_0000_0000_0000,
{
    let q = n / d;
    let s = spacing(q, 1);
    vstd::arithmetic::div_mod::lemma_div_pos_is_pos(n, d);
    spacing_bound(q, 1);
    assert(d * s > 0) by (nonlinear_arith)
        requires
            d > 0,
            s > 0,
    ;
    nearest_bound(n, d * s);
    vstd::arithmetic::div_mod::lemma_div_denominator(n, d, s);
    let v = nearest(n, d * s);
    nearest_bound(q, s);
    assert(0 <= v * s) by (nonlinear_arith)
        requires
            0 <= v,
            1 <= s,
    ;
    vstd::arithmetic::div_mod::lemma_fundamental_div_mod(q, s);
    vstd::arithmetic::div_mod::lemma_mod_bound(q, s);
    assert(v * s <= (q / s + 1) * s) by (nonlinear_arith)
        requires
            v <= q / s + 1,
            1 <= s,
    ;
    assert((q / s + 1) * s == s * (q / s) + s) by (nonlinear_arith);
}

/// What is left of a delay is at least one day; and, if no time is negative, it is no more
/// than the delay.
pub proof fn left_bounds(days: int, seconds: int)
    requires
        1 <= days <= u32::MAX,
        0 <= seconds < days * 86400,
    ensures
        1 <= whole_days_left(days, seconds) <= days,
{
    in_days_bound(days, seconds);
    let age = in_days(seconds);
    let rest = days * ONE - age;
    double_bound(rest);
    almost_one_bound();
    let sum = in_double(rest) + almost_one();
    double_bound(sum);
    assert(in_double(sum) < (days + 1) * ONE);
    assert(in_double(sum) / (ONE as int) < days + 1);
}

/// A longer delay never leaves less.
pub proof fn left_order(days: int, more: int, seconds: int)
    requires
        1 <= days <= more <= u32::MAX,
        0 <= seconds < days * 86400,
    ensures
        whole_days_left(days, seconds) <= whole_days_left(more, seconds),
{
    in_days_bound(days, seconds);
    let age = in_days(seconds);
    almost_one_bound();
    double_order(days * ONE - age, more * ONE - age);
    let a = in_double(days * ONE - age) + almost_one();
    let b = in_double(more * ONE - age) + almost_one();
    double_bound(days * ONE - age);
    double_order(a, b);
    vstd::arithmetic::div_mod::lemma_div_is_ordered(in_double(a), in_double(b), ONE as int);
}

proof fn in_days_bound(days: int, seconds: int)
    requires
        1 <= days <= u32::MAX,
        0 <= seconds < days * 86400,
    ensures
        0 <= in_days(seconds) <= days * ONE,
{
    double_bound(seconds);
    quotient_bound(seconds * ONE, 86400);
    let q = seconds * ONE / 86400;
    assert(seconds * ONE <= (days * 86400 - 1) * ONE) by (nonlinear_arith)
        requires
            seconds <= days * 86400 - 1,
    ;
    assert((days * 86400 - 1) * ONE == days * ONE * 86400 - ONE) by (nonlinear_arith);
}

proof fn quotient_low(n: int, d: int)
    requires
        0 <= n,
        0 < d,
    ensures
        quotient_in_double(n, d) >= n / d - 1 - n / d / 0x10_0000_0000_0000,
{
    let q = n / d;
    let s = spacing(q, 1);
    vstd::arithmetic::div_mod::lemma_div_pos_is_pos(n, d);
    spacing_bound(q, 1);
    assert(d * s > 0) by (nonlinear_arith)
        requires
            d > 0,
            s > 0,
    ;
    nearest_bound(n, d * s);
    vstd::arithmetic::div_mod::lemma_div_denominator(n, d, s);
    let v = nearest(n, d * s);
    vstd::arithmetic::div_mod::lemma_fundamental_div_mod(q, s);
    vstd::arithmetic::div_mod::lemma_mod_bound(q, s);
    assert(v * s >= (q / s) * s) by (nonlinear_arith)
        requires
            v >= q / s,
            1 <= s,
    ;
    assert((q / s) * s == s * (q / s)) by (nonlinear_arith);
}

/// What is left of a delay, in days, is what is left of it in seconds, with 0.99 of a day added
/// and the rest of a day dropped, but for two seconds either way; and it is never less than
/// one day.
pub proof fn left_is_close(days: int, seconds: int)
    requires
        1 <= days <= u32::MAX,
        0 <= seconds < days * 86400,
    ensures
        ({
            let left = whole_days_left(days, seconds);
            let rest = days * 86400 - seconds;
            &&& 86400 * left > rest - 866
            &&& left == 1 || 86400 * left < rest + 85539
        }),
{
    left_bounds(days, seconds);
    in_days_bound(days, seconds);
    double_bound(seconds);
    quotient_bound(seconds * ONE, 86400);
    quotient_low(seconds * ONE, 86400);
    quotient_bound(99 * ONE, 100);
    quotient_low(99 * ONE, 100);
    let q = seconds * ONE / 86400;
    let age = in_days(seconds);
    let rest = days * ONE - age;
    double_bound(rest);
    let sum = in_double(rest) + almost_one();
    double_bound(sum);
    let n = in_double(sum) / (ONE as int);
    assert(n * ONE <= in_double(sum) < n * ONE + ONE);
    assert(0 <= q <= days * ONE);
    assert(seconds * ONE - 86400 < q * 86400 <= seconds * ONE);
}

proof fn almost_one_bound()
    ensures
        0 <= almost_one() <= 99 * ONE / 100 + 0x1_0000_0000,
{
    quotient_bound(99 * ONE, 100);
}

// ---------------------------------------------------------------------------------------
// Computing

/// `n / unit`, rounded as `nearest` has it.
pub fn nearest_of(n: u128, unit: u128) -> (r: u128)
    requires
        0 < unit < 0x4000_0000_0000_0000_0000_0000_0000_0000,
        n < 0x8000_0000_0000_0000_0000_0000_0000_0000,
    ensures
        r == nearest(n as int, unit as int),
{
    let q: u128 = n / unit;
    let m: u128 = n % unit;
    assert(n as int / unit as int <= n) by (nonlinear_arith)
        requires
            unit >= 1,
    ;
    if 2 * m > unit || (2 * m == unit && q % 2 == 1) {
        q + 1
    } else {
        q
    }
}

fn spacing_of(n: u128) -> (r: u128)
    ensures
        r == spacing(n as int, 1),
        1 <= r <= 1 + n / 0x10_0000_0000_0000,
{
    let mut step: u128 = 1;
    proof {
        spacing_bound(n as int, 1);
    }
    while n / 0x20_0000_0000_0000 >= step
        invariant
            1 <= step <= spacing(n as int, 1),
            spacing(n as int, 1) <= 1 + n / 0x10_0000_0000_0000,
            spacing(n as int, 1) == spacing(n as int, step as int),
        decreases n - step,
    {
        proof {
            spacing_at_least(n as int, 2 * step as int);
        }
        step = 2 * step;
    }
    step
}

/// `n` in 53 bits.
pub fn double_of(n: u128) -> (r: u128)
    requires
        n < 0x1000_0000_0000_0000_0000_0000_0000_0000,
    ensures
        r == in_double(n as int),
{
    let s: u128 = spacing_of(n);
    let q: u128 = nearest_of(n, s);
    proof {
        double_bound(n as int);
    }
    q * s
}

proof fn nearest_scaled(n: int, unit: int, k: int)
    requires
        0 <= n,
        0 < unit,
        0 < k,
    ensures
        nearest(n * k, unit * k) == nearest(n, unit),
{
    vstd::arithmetic::div_mod::lemma_div_multiples_vanish_quotient(k, n, unit);
    vstd::arithmetic::div_mod::lemma_truncate_middle(n, k, unit);
    assert(k * n == n * k && k * unit == unit * k) by (nonlinear_arith);
    let r = n % unit;
    assert(2 * (k * r) > k * unit <==> 2 * r > unit) by (nonlinear_arith)
        requires
            k > 0,
    ;
    assert(2 * (k * r) == k * unit <==> 2 * r == unit) by (nonlinear_arith)
        requires
            k > 0,
    ;
}

/// A day has 675 times 128 seconds.
proof fn in_days_reduced(x: int)
    requires
        0 <= x,
    ensures
        quotient_in_double(x * ONE, 86400) == quotient_in_double(x * 0x4000_0000_0000_0000, 675),
{
    let n = x * 0x4000_0000_0000_0000;
    assert(x * ONE == n * 128);
    vstd::arithmetic::div_mod::lemma_div_multiples_vanish_quotient(128, n, 675);
    let s = spacing(n / 675, 1);
    spacing_at_least(n / 675, 1);
    nearest_scaled(n, 675 * s, 128);
    assert(675 * s * 128 == 86400 * s);
}

/// So many seconds, in days.
fn days_of(seconds: u128) -> (r: u128)
    requires
        seconds <= 0x1_0000_0000_0000_0000,
    ensures
        r == in_days(seconds as int),
        r <= 0x40_0000_0000_0000_0000_0000_0000_0000,
{
    let x: u128 = double_of(seconds);
    proof {
        double_bound(seconds as int);
        in_days_reduced(x as int);
    }
    let n: u128 = x * 0x4000_0000_0000_0000;
    let q: u128 = n / 675;
    let s: u128 = spacing_of(q);
    let v: u128 = nearest_of(n, 675 * s);
    proof {
        quotient_bound(n as int, 675);
    }
    v * s
}

fn find_almost_one() -> (r: u128)
    ensures
        r == almost_one(),
        r <= ONE,
{
    proof {
        almost_one_bound();
    }
    let n: u128 = 99 * ONE;
    let s: u128 = spacing_of(n / 100);
    let v: u128 = nearest_of(n, 100 * s);
    v * s
}

/// What is left of `days` days after so many seconds, in whole days.
pub fn days_left_of(days: u32, seconds: i128) -> (r: u32)
    requires
        -0x1_0000_0000_0000_0000 <= seconds < days * 86400,
    ensures
        r == whole_days_left(days as int, seconds as int),
{
    let whole: u128 = days as u128 * ONE;
    let exact: u128 = if seconds < 0 {
        whole + days_of((-seconds) as u128)
    } else {
        proof {
            in_days_bound(days as int, seconds as int);
        }
        whole - days_of(seconds as u128)
    };
    let rest: u128 = double_of(exact);
    let more: u128 = find_almost_one();
    proof {
        double_bound(exact as int);
    }
    let n: u128 = double_of(rest + more) / ONE;
    if n < 1 {
        1
    } else if n > u32::MAX as u128 {
        u32::MAX
    } else {
        n as u32
    }
}

/// So many seconds in tenths of a day, rounded; none where they are negative.
pub open spec fn tenths(seconds: int) -> int {
    if seconds < 0 {
        0
    } else {
        nearest(in_days(seconds) * 10, ONE as int)
    }
}

/// So many seconds in tenths of a day, rounded; none where they are negative.
pub fn tenths_of(seconds: i64) -> (r: u64)
    ensures
        r == tenths(seconds as int),
{
    if seconds < 0 {
        return 0;
    }
    let d: u128 = days_of(seconds as u128);
    let n: u128 = nearest_of(d * 10, ONE);
    proof {
        nearest_bound(d * 10, ONE as int);
    }
    n as u64
}

} // verus!
