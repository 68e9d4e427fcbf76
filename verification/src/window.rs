//! Aggregates over the window of the most recent values of a series.

use vstd::prelude::*;
use crate::fixed::all_in_range;
use crate::fixed::in_range;
use crate::fixed::larger;
use crate::fixed::smaller;
use crate::fixed::VALUE_MAX;
use crate::history::last_n;
use crate::history::lemma_last_n_push;
use crate::history::HistoryBuffer;
use crate::series::lemma_sum_push;
use crate::series::sum;

verus! {

/// The window of the `n` most recent values once `x` has arrived after `s`.
pub open spec fn window_with(s: Seq<i64>, x: i64, n: nat) -> Seq<i64> {
    last_n(s.push(x), n)
}

/// Sum of the products of two series, element by element.
pub open spec fn dot(a: Seq<i64>, b: Seq<i64>) -> int
    decreases a.len(),
{
    if a.len() == 0 || b.len() != a.len() {
        0
    } else {
        dot(a.drop_last(), b.drop_last()) + a.last() * b.last()
    }
}

/// Sum of a series weighted by position: the oldest value counts once, the
/// next twice, and so on.
pub open spec fn weighted_sum(s: Seq<i64>) -> int
    decreases s.len(),
{
    if s.len() == 0 {
        0
    } else {
        weighted_sum(s.drop_last()) + s.last() * s.len()
    }
}

/// The largest value of a series; the smallest admissible value for an empty
/// one.
pub open spec fn highest(s: Seq<i64>) -> int
    decreases s.len(),
{
    if s.len() == 0 {
        -VALUE_MAX as int
    } else {
        larger(highest(s.drop_last()), s.last() as int)
    }
}

/// The smallest value of a series; the largest admissible value for an empty
/// one.
pub open spec fn lowest(s: Seq<i64>) -> int
    decreases s.len(),
{
    if s.len() == 0 {
        VALUE_MAX as int
    } else {
        smaller(lowest(s.drop_last()), s.last() as int)
    }
}

/// Largest magnitude of the weighted sum of `k` admissible values.
pub open spec fn weight_bound(k: int) -> int {
    k * k * VALUE_MAX
}

/// The sum of a series is its first value and the sum of the rest.
pub proof fn lemma_sum_skip_first(s: Seq<i64>)
    requires
        s.len() >= 1,
    ensures
        sum(s) == s[0] + sum(s.skip(1)),
    decreases s.len(),
{
    if s.len() == 1 {
        assert(s.skip(1) =~= Seq::<i64>::empty());
        assert(s.drop_last() =~= Seq::<i64>::empty());
    } else {
        lemma_sum_skip_first(s.drop_last());
        assert(s.drop_last().skip(1) =~= s.skip(1).drop_last());
    }
}

/// The sum over the window moves by what arrives less what leaves.
pub proof fn lemma_sum_window_push(s: Seq<i64>, x: i64, n: nat)
    requires
        1 <= n <= s.len(),
    ensures
        sum(window_with(s, x, n)) == sum(last_n(s, n)) - s[s.len() - n] + x,
{
    lemma_last_n_push(s, x, n);
    lemma_sum_skip_first(last_n(s, n));
    lemma_sum_push(last_n(s, n).skip(1), x);
}

/// The sum of products of two series with one more value each.
pub proof fn lemma_dot_push(a: Seq<i64>, b: Seq<i64>, x: i64, y: i64)
    requires
        a.len() == b.len(),
    ensures
        dot(a.push(x), b.push(y)) == dot(a, b) + x * y,
{
    assert(a.push(x).drop_last() =~= a);
    assert(b.push(y).drop_last() =~= b);
}

/// The sum of products is the first product and the sum of the rest.
pub proof fn lemma_dot_skip_first(a: Seq<i64>, b: Seq<i64>)
    requires
        a.len() >= 1,
        a.len() == b.len(),
    ensures
        dot(a, b) == a[0] * b[0] + dot(a.skip(1), b.skip(1)),
    decreases a.len(),
{
    if a.len() == 1 {
        assert(a.skip(1) =~= Seq::<i64>::empty());
        assert(b.skip(1) =~= Seq::<i64>::empty());
        assert(a.drop_last() =~= Seq::<i64>::empty());
        assert(b.drop_last() =~= Seq::<i64>::empty());
        assert(dot(a.drop_last(), b.drop_last()) == 0);
        assert(dot(a.skip(1), b.skip(1)) == 0);
    } else {
        lemma_dot_skip_first(a.drop_last(), b.drop_last());
        assert(a.drop_last().skip(1) =~= a.skip(1).drop_last());
        assert(b.drop_last().skip(1) =~= b.skip(1).drop_last());
        assert(a.skip(1).last() == a.last());
        assert(b.skip(1).last() == b.last());
        assert(a.drop_last()[0] == a[0]);
        assert(b.drop_last()[0] == b[0]);
    }
}

/// The sum of products over the window moves by the product that arrives less
/// the product that leaves.
pub proof fn lemma_dot_window_push(a: Seq<i64>, b: Seq<i64>, x: i64, y: i64, n: nat)
    requires
        a.len() == b.len(),
        1 <= n <= a.len(),
    ensures
        dot(window_with(a, x, n), window_with(b, y, n)) == dot(last_n(a, n), last_n(b, n))
            - a[a.len() - n] * b[b.len() - n] + x * y,
{
    lemma_last_n_push(a, x, n);
    lemma_last_n_push(b, y, n);
    lemma_dot_skip_first(last_n(a, n), last_n(b, n));
    lemma_dot_push(last_n(a, n).skip(1), last_n(b, n).skip(1), x, y);
}

/// The sum of products of admissible values is no more than the largest
/// product for each pair.
pub proof fn lemma_dot_bounds(a: Seq<i64>, b: Seq<i64>)
    requires
        a.len() == b.len(),
        all_in_range(a),
        all_in_range(b),
    ensures
        -a.len() * (VALUE_MAX * VALUE_MAX) <= dot(a, b) <= a.len() * (VALUE_MAX * VALUE_MAX),
    decreases a.len(),
{
    if a.len() > 0 {
        lemma_dot_bounds(a.drop_last(), b.drop_last());
        let x = a.last() as int;
        let y = b.last() as int;
        let m = VALUE_MAX as int;
        assert(-(m * m) <= x * y <= m * m) by (nonlinear_arith)
            requires
                -m <= x <= m,
                -m <= y <= m,
        ;
        let k = a.len() as int;
        assert(k * (m * m) == (k - 1) * (m * m) + m * m) by (nonlinear_arith);
    }
}

/// The weighted sum of admissible values is within the weight bound.
pub proof fn lemma_weighted_sum_bounds(s: Seq<i64>)
    requires
        all_in_range(s),
    ensures
        -weight_bound(s.len() as int) <= weighted_sum(s) <= weight_bound(s.len() as int),
    decreases s.len(),
{
    if s.len() > 0 {
        lemma_weighted_sum_bounds(s.drop_last());
        let x = s.last() as int;
        let k = s.len() as int;
        let m = VALUE_MAX as int;
        assert(-(k * m) <= x * k <= k * m) by (nonlinear_arith)
            requires
                -m <= x <= m,
                k >= 1,
        ;
        assert((k - 1) * (k - 1) * m + k * m <= k * k * m) by (nonlinear_arith)
            requires
                k >= 1,
                m >= 0,
        ;
    }
}

/// The largest and smallest of admissible values are admissible, and every
/// value lies between them.
pub proof fn lemma_highest_bounds(s: Seq<i64>)
    requires
        all_in_range(s),
    ensures
        in_range(highest(s)),
        in_range(lowest(s)),
        forall|i: int| 0 <= i < s.len() ==> lowest(s) <= #[trigger] s[i] <= highest(s),
    decreases s.len(),
{
    if s.len() > 0 {
        lemma_highest_bounds(s.drop_last());
        assert forall|i: int| 0 <= i < s.len() implies lowest(s) <= #[trigger] s[i] <= highest(
            s,
        ) by {
            if i < s.len() - 1 {
                assert(s.drop_last()[i] == s[i]);
            }
        }
    }
}

/// Sum of the weights one to `k`.
pub open spec fn triangle(k: int) -> int {
    k * (k + 1) / 2
}

/// Mean of a series weighted by position, rounded down.
pub open spec fn weighted_mean(s: Seq<i64>) -> int {
    weighted_sum(s) / triangle(s.len() as int)
}

/// The weighted mean of admissible values is within twice the largest
/// admissible value.
pub proof fn lemma_weighted_mean_bounds(s: Seq<i64>)
    requires
        s.len() >= 1,
        all_in_range(s),
    ensures
        -2 * VALUE_MAX <= weighted_mean(s) <= 2 * VALUE_MAX,
        triangle(s.len() as int) >= 1,
{
    lemma_weighted_sum_bounds(s);
    let k = s.len() as int;
    let t = triangle(k);
    let m = VALUE_MAX as int;
    let w = weighted_sum(s);
    assert(2 * t >= k * k && t >= 1) by (nonlinear_arith)
        requires
            k >= 1,
            t == k * (k + 1) / 2,
    ;
    assert(k * k * m <= 2 * t * m) by (nonlinear_arith)
        requires
            2 * t >= k * k,
            m >= 0,
    ;
    assert(-2 * m <= w / t <= 2 * m) by (nonlinear_arith)
        requires
            t >= 1,
            -(2 * t * m) <= w <= 2 * t * m,
    ;
}

/// The position-weighted sum of the last `n` closes of the history.
pub fn weighted_sum_last(history: &HistoryBuffer, n: usize) -> (total: i128)
    requires
        history.wf(),
        n <= history.spec_len(),
    ensures
        total == weighted_sum(last_n(history.closes(), n as nat)),
        -weight_bound(n as int) <= total <= weight_bound(n as int),
{
    let len: usize = history.len();
    let start: usize = len - n;
    let mut total: i128 = 0;
    let mut i: usize = start;
    let ghost s = history.closes();
    let ghost m = VALUE_MAX as int;
    assert(s.subrange(start as int, start as int) =~= Seq::<i64>::empty());
    while i < len
        invariant
            history.wf(),
            s == history.closes(),
            m == VALUE_MAX,
            len == history.spec_len(),
            len <= 4096,
            start <= i <= len,
            total == weighted_sum(s.subrange(start as int, i as int)),
            -weight_bound(i - start) <= total <= weight_bound(i - start),
        decreases len - i,
    {
        let x: i64 = history.close_at(i);
        let weight: i128 = (i - start) as i128 + 1;
        proof {
            let w1 = s.subrange(start as int, i + 1);
            assert(w1.drop_last() =~= s.subrange(start as int, i as int));
            lemma_weighted_sum_bounds(w1);
            let k = i - start + 1;
            let xi = x as int;
            assert(-(4096 * m) <= xi * k <= 4096 * m) by (nonlinear_arith)
                requires
                    -m <= xi <= m,
                    1 <= k <= 4096,
            ;
            assert(0 <= (k - 1) * (k - 1) * m <= 4096 * 4096 * m) by (nonlinear_arith)
                requires
                    1 <= k <= 4096,
                    m >= 0,
            ;
        }
        total = total + (x as i128) * weight;
        i += 1;
    }
    assert(s.subrange(start as int, len as int) =~= last_n(s, n as nat));
    total
}

/// The largest high and the smallest low over the last `n` bars of the
/// history together with one more bar's high and low.
pub fn extremes_with(history: &HistoryBuffer, n: usize, high: i64, low: i64) -> (r: (i64, i64))
    requires
        history.wf(),
        n <= history.spec_len(),
        in_range(high as int),
        in_range(low as int),
    ensures
        r.0 == highest(last_n(history.highs(), n as nat).push(high)),
        r.1 == lowest(last_n(history.lows(), n as nat).push(low)),
        in_range(r.0 as int),
        in_range(r.1 as int),
        r.1 <= low,
        high <= r.0,
{
    let len: usize = history.len();
    let start: usize = len - n;
    let mut top: i64 = -VALUE_MAX;
    let mut bottom: i64 = VALUE_MAX;
    let mut i: usize = start;
    proof {
        assert(history.highs().subrange(start as int, start as int) =~= Seq::<i64>::empty());
        assert(history.lows().subrange(start as int, start as int) =~= Seq::<i64>::empty());
    }
    while i < len
        invariant
            history.wf(),
            len == history.spec_len(),
            start <= i <= len,
            top == highest(history.highs().subrange(start as int, i as int)),
            bottom == lowest(history.lows().subrange(start as int, i as int)),
            in_range(top as int),
            in_range(bottom as int),
        decreases len - i,
    {
        proof {
            assert(history.highs().subrange(start as int, i + 1).drop_last()
                =~= history.highs().subrange(start as int, i as int));
            assert(history.lows().subrange(start as int, i + 1).drop_last()
                =~= history.lows().subrange(start as int, i as int));
        }
        let h: i64 = history.high_at(i);
        let l: i64 = history.low_at(i);
        if h > top {
            top = h;
        }
        if l < bottom {
            bottom = l;
        }
        i += 1;
    }
    proof {
        assert(history.highs().subrange(start as int, len as int) =~= last_n(
            history.highs(),
            n as nat,
        ));
        assert(history.lows().subrange(start as int, len as int) =~= last_n(
            history.lows(),
            n as nat,
        ));
        assert(last_n(history.highs(), n as nat).push(high).drop_last() =~= last_n(
            history.highs(),
            n as nat,
        ));
        assert(last_n(history.lows(), n as nat).push(low).drop_last() =~= last_n(
            history.lows(),
            n as nat,
        ));
    }
    if high > top {
        top = high;
    }
    if low < bottom {
        bottom = low;
    }
    (top, bottom)
}

} // verus!
