//! Sums and Wilder averages over series of ticks, and the series that the
//! smoothed indicators derive from consecutive bars.

use std::collections::VecDeque;
use vstd::prelude::*;
use crate::fixed::all_in_range;
use crate::fixed::div_floor;
use crate::fixed::lemma_wilder_between;
use crate::fixed::true_range;
use crate::fixed::true_range_of;
use crate::fixed::wilder;
use crate::fixed::wilder_next;
use crate::fixed::SPAN_MAX;

verus! {

/// Sum of a series.
pub open spec fn sum(s: Seq<i64>) -> int
    decreases s.len(),
{
    if s.len() == 0 {
        0
    } else {
        sum(s.drop_last()) + s.last()
    }
}

/// Every element lies between zero and the largest span.
pub open spec fn all_magnitudes(s: Seq<i64>) -> bool {
    forall|i: int| 0 <= i < s.len() ==> 0 <= #[trigger] s[i] <= SPAN_MAX
}

/// The Wilder average of a series over `n` periods: the mean of its first `n`
/// elements, smoothed over each further element in turn. Zero while the series
/// is shorter than `n`.
pub open spec fn wilder_avg(xs: Seq<i64>, n: int) -> int
    decreases xs.len(),
{
    if n < 1 || xs.len() < n {
        0
    } else if xs.len() == n {
        sum(xs) / n
    } else {
        wilder(wilder_avg(xs.drop_last(), n), xs.last() as int, n)
    }
}

/// The part of an upward move: the move itself, or zero for a fall.
pub open spec fn gain(delta: int) -> int {
    if delta > 0 {
        delta
    } else {
        0
    }
}

/// The part of a downward move, as a positive number, or zero for a rise.
pub open spec fn loss(delta: int) -> int {
    if delta < 0 {
        -delta
    } else {
        0
    }
}

/// Gains of consecutive closes: element `i` is the gain from close `i` to close
/// `i + 1`.
pub open spec fn gains(closes: Seq<i64>) -> Seq<i64> {
    Seq::new(
        if closes.len() == 0 {
            0nat
        } else {
            (closes.len() - 1) as nat
        },
        |i: int| gain(closes[i + 1] - closes[i]) as i64,
    )
}

/// Losses of consecutive closes.
pub open spec fn losses(closes: Seq<i64>) -> Seq<i64> {
    Seq::new(
        if closes.len() == 0 {
            0nat
        } else {
            (closes.len() - 1) as nat
        },
        |i: int| loss(closes[i + 1] - closes[i]) as i64,
    )
}

/// True ranges of consecutive bars: element `i` is the true range of bar
/// `i + 1` against the close of bar `i`.
pub open spec fn true_ranges(highs: Seq<i64>, lows: Seq<i64>, closes: Seq<i64>) -> Seq<i64> {
    Seq::new(
        if closes.len() == 0 {
            0nat
        } else {
            (closes.len() - 1) as nat
        },
        |i: int| true_range(highs[i + 1] as int, lows[i + 1] as int, closes[i] as int) as i64,
    )
}

/// The sum of values between `lo` and `hi` lies between their number times
/// `lo` and their number times `hi`.
pub proof fn lemma_sum_bounds(s: Seq<i64>, lo: int, hi: int)
    requires
        forall|i: int| 0 <= i < s.len() ==> lo <= #[trigger] s[i] <= hi,
    ensures
        s.len() * lo <= sum(s) <= s.len() * hi,
    decreases s.len(),
{
    if s.len() > 0 {
        lemma_sum_bounds(s.drop_last(), lo, hi);
        assert(s.len() * lo == (s.len() - 1) * lo + lo) by (nonlinear_arith);
        assert(s.len() * hi == (s.len() - 1) * hi + hi) by (nonlinear_arith);
    }
}

/// The sum of a series with one more value.
pub proof fn lemma_sum_push(s: Seq<i64>, x: i64)
    ensures
        sum(s.push(x)) == sum(s) + x,
{
    assert(s.push(x).drop_last() =~= s);
}

/// The sum of a series of one repeated value.
pub proof fn lemma_sum_constant(s: Seq<i64>, v: int)
    requires
        forall|i: int| 0 <= i < s.len() ==> #[trigger] s[i] == v,
    ensures
        sum(s) == s.len() * v,
{
    lemma_sum_bounds(s, v, v);
}

/// A Wilder average of magnitudes is a magnitude.
pub proof fn lemma_wilder_avg_bounds(xs: Seq<i64>, n: int, lo: int, hi: int)
    requires
        lo <= 0 <= hi,
        forall|i: int| 0 <= i < xs.len() ==> lo <= #[trigger] xs[i] <= hi,
    ensures
        lo <= wilder_avg(xs, n) <= hi,
    decreases xs.len(),
{
    if n < 1 || xs.len() < n {
    } else if xs.len() == n {
        lemma_sum_bounds(xs, lo, hi);
        let s = sum(xs);
        assert(lo <= s / n <= hi) by (nonlinear_arith)
            requires
                n >= 1,
                n * lo <= s <= n * hi,
        ;
    } else {
        lemma_wilder_avg_bounds(xs.drop_last(), n, lo, hi);
        lemma_wilder_between(wilder_avg(xs.drop_last(), n), xs.last() as int, n, lo, hi);
    }
}

/// The Wilder average of a series of one repeated value is that value.
pub proof fn lemma_wilder_avg_constant(xs: Seq<i64>, n: int, v: int)
    requires
        n >= 1,
        xs.len() >= n,
        forall|i: int| 0 <= i < xs.len() ==> #[trigger] xs[i] == v,
    ensures
        wilder_avg(xs, n) == v,
    decreases xs.len(),
{
    if xs.len() == n {
        lemma_sum_constant(xs, v);
        assert((n * v) / n == v) by (nonlinear_arith)
            requires
                n >= 1,
        ;
    } else {
        lemma_wilder_avg_constant(xs.drop_last(), n, v);
        lemma_wilder_between(v, v, n, v, v);
    }
}

/// One more element smooths the average by one Wilder step.
pub proof fn lemma_wilder_avg_push(xs: Seq<i64>, x: i64, n: int)
    requires
        n >= 1,
        xs.len() >= n,
    ensures
        wilder_avg(xs.push(x), n) == wilder(wilder_avg(xs, n), x as int, n),
{
    assert(xs.push(x).drop_last() =~= xs);
}

/// Sum of the elements of `xs` from `from` up to `to`.
pub fn sum_of(xs: &[i64], from: usize, to: usize) -> (total: i128)
    requires
        from <= to <= xs.len(),
        forall|i: int| from <= i < to ==> -SPAN_MAX <= #[trigger] xs@[i] <= SPAN_MAX,
    ensures
        total == sum(xs@.subrange(from as int, to as int)),
        -(to - from) * SPAN_MAX <= total <= (to - from) * SPAN_MAX,
{
    let mut total: i128 = 0;
    let mut i: usize = from;
    assert(xs@.subrange(from as int, from as int) =~= Seq::<i64>::empty());
    while i < to
        invariant
            from <= i <= to <= xs.len(),
            forall|j: int| from <= j < to ==> -SPAN_MAX <= #[trigger] xs@[j] <= SPAN_MAX,
            total == sum(xs@.subrange(from as int, i as int)),
            -(i - from) * SPAN_MAX <= total <= (i - from) * SPAN_MAX,
        decreases to - i,
    {
        proof {
            lemma_sum_push(xs@.subrange(from as int, i as int), xs@[i as int]);
            assert(xs@.subrange(from as int, i as int).push(xs@[i as int]) =~= xs@.subrange(
                from as int,
                i + 1,
            ));
            assert((i - from) * SPAN_MAX <= 0x1_0000_0000_0000_0000 * SPAN_MAX)
                by (nonlinear_arith)
                requires
                    0 <= i - from <= 0x1_0000_0000_0000_0000,
            ;
        }
        total = total + xs[i] as i128;
        i += 1;
    }
    total
}

/// The Wilder average of a series of magnitudes over `n` periods.
pub fn wilder_average(xs: &[i64], n: usize) -> (avg: i64)
    requires
        n >= 1,
        xs.len() >= n,
        all_magnitudes(xs@),
    ensures
        avg == wilder_avg(xs@, n as int),
        0 <= avg <= SPAN_MAX,
{
    let seed: i128 = sum_of(xs, 0, n);
    proof {
        lemma_wilder_avg_bounds(xs@.subrange(0, n as int), n as int, 0, SPAN_MAX as int);
        lemma_sum_bounds(xs@.subrange(0, n as int), 0, SPAN_MAX as int);
    }
    let mut avg: i64 = div_floor(seed, n as i128) as i64;
    let mut i: usize = n;
    while i < xs.len()
        invariant
            n >= 1,
            n <= i <= xs.len(),
            all_magnitudes(xs@),
            avg == wilder_avg(xs@.subrange(0, i as int), n as int),
            0 <= avg <= SPAN_MAX,
        decreases xs.len() - i,
    {
        proof {
            lemma_wilder_avg_push(xs@.subrange(0, i as int), xs@[i as int], n as int);
            assert(xs@.subrange(0, i as int).push(xs@[i as int]) =~= xs@.subrange(0, i + 1));
        }
        avg = wilder_next(avg, xs[i], n);
        i += 1;
    }
    assert(xs@.subrange(0, xs.len() as int) =~= xs@);
    avg
}

/// The gains and the losses of consecutive closes.
pub fn gains_and_losses(closes: &[i64]) -> (r: (Vec<i64>, Vec<i64>))
    requires
        all_in_range(closes@),
    ensures
        r.0@ == gains(closes@),
        r.1@ == losses(closes@),
        all_magnitudes(r.0@),
        all_magnitudes(r.1@),
{
    let mut up: Vec<i64> = Vec::new();
    let mut down: Vec<i64> = Vec::new();
    let mut i: usize = 1;
    while i < closes.len()
        invariant
            1 <= i,
            i <= closes.len() || i == 1,
            all_in_range(closes@),
            up@.len() == i - 1,
            down@.len() == i - 1,
            forall|j: int| 0 <= j < i - 1 ==> #[trigger] up@[j] == gains(closes@)[j],
            forall|j: int| 0 <= j < i - 1 ==> #[trigger] down@[j] == losses(closes@)[j],
            all_magnitudes(up@),
            all_magnitudes(down@),
        decreases closes.len() - i,
    {
        let delta: i64 = closes[i] - closes[i - 1];
        if delta > 0 {
            up.push(delta);
            down.push(0);
        } else {
            up.push(0);
            down.push(-delta);
        }
        i += 1;
    }
    assert(up@ =~= gains(closes@));
    assert(down@ =~= losses(closes@));
    (up, down)
}

/// The true ranges of consecutive bars.
pub fn true_ranges_of(highs: &[i64], lows: &[i64], closes: &[i64]) -> (trs: Vec<i64>)
    requires
        highs.len() == closes.len(),
        lows.len() == closes.len(),
        all_in_range(highs@),
        all_in_range(lows@),
        all_in_range(closes@),
    ensures
        trs@ == true_ranges(highs@, lows@, closes@),
        all_magnitudes(trs@),
{
    let mut trs: Vec<i64> = Vec::new();
    let mut i: usize = 1;
    while i < closes.len()
        invariant
            1 <= i,
            i <= closes.len() || i == 1,
            highs.len() == closes.len(),
            lows.len() == closes.len(),
            all_in_range(highs@),
            all_in_range(lows@),
            all_in_range(closes@),
            trs@.len() == i - 1,
            forall|j: int|
                0 <= j < i - 1 ==> #[trigger] trs@[j] == true_ranges(highs@, lows@, closes@)[j],
            all_magnitudes(trs@),
        decreases closes.len() - i,
    {
        let tr: i64 = true_range_of(highs[i], lows[i], closes[i - 1]);
        trs.push(tr);
        i += 1;
    }
    assert(trs@ =~= true_ranges(highs@, lows@, closes@));
    trs
}

/// Sum of a series of wide values.
pub open spec fn sum_wide(s: Seq<i128>) -> int
    decreases s.len(),
{
    if s.len() == 0 {
        0
    } else {
        sum_wide(s.drop_last()) + s.last()
    }
}

/// Every element lies between `lo` and `hi`.
pub open spec fn all_between(s: Seq<i128>, lo: int, hi: int) -> bool {
    forall|i: int| 0 <= i < s.len() ==> lo <= #[trigger] s[i] <= hi
}

/// The sum of wide values between `lo` and `hi` lies between their number
/// times `lo` and their number times `hi`, and their mean between `lo` and `hi`.
pub proof fn lemma_sum_wide_bounds(s: Seq<i128>, lo: int, hi: int)
    requires
        all_between(s, lo, hi),
    ensures
        s.len() * lo <= sum_wide(s) <= s.len() * hi,
        s.len() >= 1 ==> lo <= sum_wide(s) / (s.len() as int) <= hi,
    decreases s.len(),
{
    if s.len() > 0 {
        lemma_sum_wide_bounds(s.drop_last(), lo, hi);
        let k = s.len() as int;
        assert(k * lo == (k - 1) * lo + lo) by (nonlinear_arith);
        assert(k * hi == (k - 1) * hi + hi) by (nonlinear_arith);
        assert(s.drop_last().len() == k - 1);
        assert(lo <= s.last() <= hi);
        let n = s.len() as int;
        let t = sum_wide(s);
        assert(lo <= t / n <= hi) by (nonlinear_arith)
            requires
                n >= 1,
                n * lo <= t <= n * hi,
        ;
    } else {
        assert(0 * lo == 0 && 0 * hi == 0) by (nonlinear_arith);
    }
}

/// A buffer of the elements of `xs` from `from` up to `to`.
pub fn copied<T: Copy>(xs: &[T], from: usize, to: usize) -> (out: VecDeque<T>)
    requires
        from <= to <= xs@.len(),
    ensures
        out@ == xs@.subrange(from as int, to as int),
{
    let mut out: VecDeque<T> = VecDeque::new();
    let mut j: usize = from;
    assert(out@ =~= xs@.subrange(from as int, from as int));
    while j < to
        invariant
            from <= j <= to <= xs@.len(),
            out@ == xs@.subrange(from as int, j as int),
        decreases to - j,
    {
        out.push_back(xs[j]);
        j += 1;
        assert(out@ =~= xs@.subrange(from as int, j as int));
    }
    out
}

/// A buffer of the elements of `xs` from `from` on, followed by `x`.
pub fn shifted<T: Copy>(xs: &VecDeque<T>, from: usize, x: T) -> (out: VecDeque<T>)
    requires
        from <= xs@.len(),
    ensures
        out@ == xs@.skip(from as int).push(x),
{
    let mut out: VecDeque<T> = VecDeque::new();
    let mut j: usize = from;
    assert(out@ =~= xs@.subrange(from as int, from as int));
    while j < xs.len()
        invariant
            from <= j <= xs@.len(),
            out@ == xs@.subrange(from as int, j as int),
        decreases xs@.len() - j,
    {
        out.push_back(xs[j]);
        j += 1;
        assert(out@ =~= xs@.subrange(from as int, j as int));
    }
    out.push_back(x);
    assert(out@ =~= xs@.skip(from as int).push(x));
    out
}

/// A buffer of the same elements.
pub fn duplicate<T: Copy>(xs: &VecDeque<T>) -> (out: VecDeque<T>)
    ensures
        out@ == xs@,
{
    let mut out: VecDeque<T> = VecDeque::new();
    let mut j: usize = 0;
    assert(out@ =~= xs@.subrange(0, 0));
    while j < xs.len()
        invariant
            j <= xs@.len(),
            out@ == xs@.subrange(0, j as int),
        decreases xs@.len() - j,
    {
        out.push_back(xs[j]);
        j += 1;
        assert(out@ =~= xs@.subrange(0, j as int));
    }
    assert(out@ =~= xs@);
    out
}

} // verus!
