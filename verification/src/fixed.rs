//! Fixed-point arithmetic shared by every indicator.

use vstd::prelude::*;

verus! {

/// Number of ticks in one whole unit.
pub const UNIT: i64 = 1_000_000;

/// Largest magnitude, in ticks, that a price or volume may have.
pub const VALUE_MAX: i64 = 1_000_000_000_000_000;

/// Largest magnitude of the difference of two admissible values.
pub const SPAN_MAX: i64 = 2_000_000_000_000_000;

/// One hundred whole units, the upper end of the bounded oscillators.
pub const HUNDRED: i64 = 100_000_000;

/// The value is an admissible price or volume.
pub open spec fn in_range(x: int) -> bool {
    -VALUE_MAX <= x <= VALUE_MAX
}

/// The value is an admissible difference of two prices.
pub open spec fn in_span(x: int) -> bool {
    -SPAN_MAX <= x <= SPAN_MAX
}

/// Every element of the series is an admissible price or volume.
pub open spec fn all_in_range(s: Seq<i64>) -> bool {
    forall|i: int| 0 <= i < s.len() ==> in_range(#[trigger] s[i] as int)
}

/// The value where it is admissible, else the admissible value nearest to it.
pub open spec fn clamped(x: i64) -> i64 {
    if x > VALUE_MAX {
        VALUE_MAX
    } else if x < -VALUE_MAX {
        (-VALUE_MAX) as i64
    } else {
        x
    }
}

/// Every element of the series, clamped.
pub open spec fn clamped_all(s: Seq<i64>) -> Seq<i64> {
    Seq::new(s.len(), |i: int| clamped(s[i]))
}

/// The exact quotient `a / b`, rounded down. Unspecified for `b == 0`.
pub open spec fn quot(a: int, b: int) -> int {
    if b > 0 {
        a / b
    } else {
        (-a) / (-b)
    }
}

/// An optional tick count as an optional integer.
pub open spec fn lift(v: Option<i64>) -> Option<int> {
    match v {
        Some(x) => Some(x as int),
        None => None,
    }
}

/// An optional wide tick count as an optional integer.
pub open spec fn lift_wide(v: Option<i128>) -> Option<int> {
    match v {
        Some(x) => Some(x as int),
        None => None,
    }
}

/// The distance of a value from zero.
pub open spec fn magnitude(x: int) -> int {
    if x < 0 {
        -x
    } else {
        x
    }
}

/// The larger of two values.
pub open spec fn larger(a: int, b: int) -> int {
    if a >= b {
        a
    } else {
        b
    }
}

/// The smaller of two values.
pub open spec fn smaller(a: int, b: int) -> int {
    if a <= b {
        a
    } else {
        b
    }
}

/// True range of a bar against the previous close.
pub open spec fn true_range(high: int, low: int, prev_close: int) -> int {
    larger(larger(high - low, magnitude(high - prev_close)), magnitude(low - prev_close))
}

/// One step of Wilder smoothing over `n` periods.
pub open spec fn wilder(prev: int, x: int, n: int) -> int {
    (prev * (n - 1) + x) / n
}

/// One step of the exponential filter with factor `2 / (n + 1)`.
pub open spec fn ema_step(prev: int, x: int, n: int) -> int {
    prev + ((x - prev) * 2) / (n + 1)
}

/// `r` is the largest number that is not negative and whose square is no more
/// than `x`; zero where `x` is negative.
pub open spec fn is_floor_sqrt(x: int, r: int) -> bool {
    if x <= 0 {
        r == 0
    } else {
        r >= 0 && r * r <= x && x < (r + 1) * (r + 1)
    }
}

/// The square root of `x`, rounded down; zero for a negative `x`.
pub open spec fn floor_sqrt(x: int) -> int {
    choose|r: int| is_floor_sqrt(x, r)
}

/// There is one square root rounded down.
pub proof fn lemma_floor_sqrt_unique(x: int, r1: int, r2: int)
    requires
        is_floor_sqrt(x, r1),
        is_floor_sqrt(x, r2),
    ensures
        r1 == r2,
{
    if x > 0 {
        if r1 < r2 {
            assert((r1 + 1) * (r1 + 1) <= r2 * r2) by (nonlinear_arith)
                requires
                    0 <= r1,
                    r1 + 1 <= r2,
            ;
        }
        if r2 < r1 {
            assert((r2 + 1) * (r2 + 1) <= r1 * r1) by (nonlinear_arith)
                requires
                    0 <= r2,
                    r2 + 1 <= r1,
            ;
        }
    }
}

/// A Wilder step stays between its two inputs.
pub proof fn lemma_wilder_between(prev: int, x: int, n: int, lo: int, hi: int)
    requires
        n >= 1,
        lo <= prev <= hi,
        lo <= x <= hi,
    ensures
        lo <= wilder(prev, x, n) <= hi,
{
    let num = prev * (n - 1) + x;
    assert(lo * n <= num <= hi * n) by (nonlinear_arith)
        requires
            n >= 1,
            lo <= prev <= hi,
            lo <= x <= hi,
            num == prev * (n - 1) + x,
    ;
    assert(lo <= num / n <= hi) by (nonlinear_arith)
        requires
            n >= 1,
            lo * n <= num <= hi * n,
    ;
}

/// An exponential-filter step stays between the previous value and the input.
pub proof fn lemma_ema_between(prev: int, x: int, n: int)
    requires
        n >= 1,
    ensures
        smaller(prev, x) <= ema_step(prev, x, n) <= larger(prev, x),
{
    let d = x - prev;
    let q = (d * 2) / (n + 1);
    if d >= 0 {
        assert(0 <= q <= d) by (nonlinear_arith)
            requires
                d >= 0,
                n >= 1,
                q == (d * 2) / (n + 1),
        ;
    } else {
        assert(d <= q <= 0) by (nonlinear_arith)
            requires
                d < 0,
                n >= 1,
                q == (d * 2) / (n + 1),
        ;
    }
}

/// The true range of admissible prices is a magnitude.
pub proof fn lemma_true_range_bounds(high: int, low: int, prev_close: int)
    requires
        in_range(high),
        in_range(low),
        in_range(prev_close),
    ensures
        0 <= true_range(high, low, prev_close) <= SPAN_MAX,
{
}

/// A quotient rounded down is no larger in magnitude than its dividend.
pub proof fn lemma_quot_magnitude(a: int, b: int)
    requires
        b != 0,
    ensures
        -magnitude(a) <= quot(a, b) <= magnitude(a),
{
    let n = if b > 0 {
        a
    } else {
        -a
    };
    let d = if b > 0 {
        b
    } else {
        -b
    };
    let m = magnitude(a);
    assert(-m <= n / d <= m) by (nonlinear_arith)
        requires
            d >= 1,
            -m <= n <= m,
    ;
}

/// Quotient of two integers, rounded down.
pub fn div_floor(a: i128, b: i128) -> (q: i128)
    requires
        b != 0,
        a > i128::MIN,
        b > i128::MIN,
    ensures
        q == quot(a as int, b as int),
        -magnitude(a as int) <= q <= magnitude(a as int),
{
    proof {
        lemma_quot_magnitude(a as int, b as int);
    }
    let (n, d): (i128, i128) = if b > 0 {
        (a, b)
    } else {
        (-a, -b)
    };
    if n >= 0 {
        n / d
    } else {
        let m: i128 = -n;
        let t: i128 = (m - 1) / d;
        proof {
            let mi: int = m as int;
            let di: int = d as int;
            let ti: int = t as int;
            assert((0 - mi) / di == 0 - ti - 1) by (nonlinear_arith)
                requires
                    di > 0,
                    mi >= 1,
                    ti == (mi - 1) / di,
            ;
        }
        -t - 1
    }
}

/// The larger of two values.
pub fn max_of(a: i64, b: i64) -> (r: i64)
    ensures
        r == larger(a as int, b as int),
{
    if a >= b {
        a
    } else {
        b
    }
}

/// The value where it is admissible, else the admissible value nearest to it.
pub fn clamp(x: i64) -> (r: i64)
    ensures
        r == clamped(x),
        in_range(r as int),
{
    if x > VALUE_MAX {
        VALUE_MAX
    } else if x < -VALUE_MAX {
        -VALUE_MAX
    } else {
        x
    }
}

/// Every element of the series, clamped.
pub fn clamp_series(xs: &[i64]) -> (out: Vec<i64>)
    ensures
        out@ == clamped_all(xs@),
        all_in_range(out@),
{
    let mut out: Vec<i64> = Vec::new();
    let mut i: usize = 0;
    while i < xs.len()
        invariant
            i <= xs.len(),
            out@.len() == i,
            forall|j: int| 0 <= j < i ==> #[trigger] out@[j] == clamped(xs@[j]),
        decreases xs.len() - i,
    {
        out.push(clamp(xs[i]));
        i += 1;
    }
    assert(out@ =~= clamped_all(xs@));
    out
}

/// Whether a value is admissible as a price or volume.
pub fn value_in_range(x: i64) -> (ok: bool)
    ensures
        ok == in_range(x as int),
{
    -VALUE_MAX <= x && x <= VALUE_MAX
}

/// Whether every element of a series is admissible.
pub fn series_in_range(values: &[i64]) -> (ok: bool)
    ensures
        ok == all_in_range(values@),
{
    let mut i: usize = 0;
    while i < values.len()
        invariant
            i <= values.len(),
            forall|j: int| 0 <= j < i ==> in_range(#[trigger] values@[j] as int),
        decreases values.len() - i,
    {
        if !value_in_range(values[i]) {
            return false;
        }
        i += 1;
    }
    true
}

/// True range of a bar against the previous close.
pub fn true_range_of(high: i64, low: i64, prev_close: i64) -> (tr: i64)
    requires
        in_range(high as int),
        in_range(low as int),
        in_range(prev_close as int),
    ensures
        tr == true_range(high as int, low as int, prev_close as int),
        0 <= tr <= SPAN_MAX,
{
    let a: i64 = high - low;
    let b: i64 = if high >= prev_close {
        high - prev_close
    } else {
        prev_close - high
    };
    let c: i64 = if low >= prev_close {
        low - prev_close
    } else {
        prev_close - low
    };
    max_of(max_of(a, b), c)
}

/// One step of Wilder smoothing over `n` periods.
pub fn wilder_next(prev: i64, x: i64, n: usize) -> (r: i64)
    requires
        n >= 1,
        in_span(prev as int),
        in_span(x as int),
    ensures
        r == wilder(prev as int, x as int, n as int),
        smaller(prev as int, x as int) <= r <= larger(prev as int, x as int),
{
    proof {
        lemma_wilder_between(
            prev as int,
            x as int,
            n as int,
            smaller(prev as int, x as int),
            larger(prev as int, x as int),
        );
        assert(-SPAN_MAX * 0x1_0000_0000_0000_0000 <= (prev as int) * (n as int - 1)
            <= SPAN_MAX * 0x1_0000_0000_0000_0000) by (nonlinear_arith)
            requires
                -SPAN_MAX <= prev as int <= SPAN_MAX,
                0 <= n as int - 1 < 0x1_0000_0000_0000_0000,
        ;
    }
    let num: i128 = (prev as i128) * (n as i128 - 1) + (x as i128);
    let q: i128 = div_floor(num, n as i128);
    q as i64
}

/// One step of the exponential filter with factor `2 / (n + 1)`.
pub fn ema_next(prev: i64, x: i64, n: usize) -> (r: i64)
    requires
        n >= 1,
        in_span(prev as int),
        in_span(x as int),
    ensures
        r == ema_step(prev as int, x as int, n as int),
        smaller(prev as int, x as int) <= r <= larger(prev as int, x as int),
{
    proof {
        lemma_ema_between(prev as int, x as int, n as int);
    }
    let d: i128 = (x as i128 - prev as i128) * 2;
    let q: i128 = div_floor(d, n as i128 + 1);
    (prev as i128 + q) as i64
}

/// Integer square root, rounded down; zero for a negative argument.
pub fn isqrt(x: i128) -> (r: i128)
    ensures
        is_floor_sqrt(x as int, r as int),
        r == floor_sqrt(x as int),
        0 <= r <= 13_043_817_825_332_782_212,
{
    if x <= 0 {
        proof {
            assert(is_floor_sqrt(x as int, 0));
            lemma_floor_sqrt_unique(x as int, 0, floor_sqrt(x as int));
        }
        return 0;
    }
    let mut lo: i128 = 0;
    let mut hi: i128 = 13_043_817_825_332_782_213;
    assert(hi * hi > i128::MAX) by (nonlinear_arith)
        requires
            hi == 13_043_817_825_332_782_213,
    ;
    while hi - lo > 1
        invariant
            0 <= lo < hi <= 13_043_817_825_332_782_213,
            lo * lo <= x,
            x < hi * hi,
        decreases hi - lo,
    {
        let mid: i128 = lo + (hi - lo) / 2;
        assert(mid * mid <= i128::MAX) by (nonlinear_arith)
            requires
                0 <= mid <= 13_043_817_825_332_782_212,
        ;
        if mid * mid <= x {
            lo = mid;
        } else {
            hi = mid;
        }
    }
    proof {
        assert(is_floor_sqrt(x as int, lo as int));
        lemma_floor_sqrt_unique(x as int, lo as int, floor_sqrt(x as int));
    }
    lo
}

} // verus!
