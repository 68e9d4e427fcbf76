//! Stochastic oscillator: %K, the close's place within the range of the last
//! bars, and %D, the mean of the last %K values.

use std::collections::VecDeque;
use vstd::prelude::*;
use crate::bar::Bar;
use crate::fixed::all_in_range;
use crate::fixed::div_floor;
use crate::fixed::in_range;
use crate::fixed::quot;
use crate::fixed::HUNDRED;
use crate::fixed::SPAN_MAX;
use crate::fixed::VALUE_MAX;
use crate::history::last_n;
use crate::history::push_bounded;
use crate::history::recent;
use crate::history::HistoryBuffer;
use crate::history::MAX_CAPACITY;
use crate::series::all_between;
use crate::series::lemma_sum_wide_bounds;
use crate::series::duplicate;
use crate::series::shifted;
use crate::series::sum_wide;
use crate::window::extremes_with;
use crate::window::highest;
use crate::window::lemma_highest_bounds;
use crate::window::lowest;
use crate::window::window_with;

verus! {

/// %K of a close within a range: one hundred times the height of the close
/// above the bottom, over the range; fifty for an empty range.
pub open spec fn stoch_k(close: int, top: int, bottom: int) -> int {
    if top == bottom {
        HUNDRED / 2
    } else {
        quot(HUNDRED * (close - bottom), top - bottom)
    }
}

/// %K at bar `i` of a series over the `k` bars that end with it.
pub open spec fn stoch_k_at(
    highs: Seq<i64>,
    lows: Seq<i64>,
    closes: Seq<i64>,
    k: int,
    i: int,
) -> int {
    stoch_k(
        closes[i] as int,
        highest(highs.subrange(i + 1 - k, i + 1)),
        lowest(lows.subrange(i + 1 - k, i + 1)),
    )
}

/// %D of a series of %K values: their mean; zero for none.
pub open spec fn stoch_d(ks: Seq<i128>) -> int {
    if ks.len() == 0 {
        0
    } else {
        sum_wide(ks) / (ks.len() as int)
    }
}

/// Largest magnitude of a %K value.
pub open spec fn k_max() -> int {
    HUNDRED * SPAN_MAX
}

/// %K of admissible prices is of admissible size.
pub proof fn lemma_stoch_k_magnitude(close: int, top: int, bottom: int)
    requires
        in_range(close),
        in_range(top),
        in_range(bottom),
    ensures
        -k_max() <= stoch_k(close, top, bottom) <= k_max(),
        -k_max() <= HUNDRED * (close - bottom) <= k_max(),
{
    let h = HUNDRED as int;
    let x = close - bottom;
    let num = h * x;
    let b = k_max();
    assert(-b <= num <= b) by (nonlinear_arith)
        requires
            -SPAN_MAX <= x <= SPAN_MAX,
            num == h * x,
            h == 100_000_000,
            b == h * SPAN_MAX,
    ;
    if top != bottom {
        let d = if top > bottom {
            top - bottom
        } else {
            bottom - top
        };
        let n2 = if top > bottom {
            num
        } else {
            -num
        };
        assert(-b <= n2 / d <= b) by (nonlinear_arith)
            requires
                d >= 1,
                -b <= n2 <= b,
                b >= 0,
        ;
    }
}

/// For a close within the range, %K lies between zero and one hundred.
pub proof fn lemma_stoch_k_bounded(close: int, top: int, bottom: int)
    requires
        bottom <= close <= top,
    ensures
        0 <= stoch_k(close, top, bottom) <= HUNDRED,
{
    if top != bottom {
        let d = top - bottom;
        let x = close - bottom;
        let h = HUNDRED as int;
        let num = h * x;
        assert(0 <= num <= h * d) by (nonlinear_arith)
            requires
                0 <= x <= d,
                h >= 0,
                num == h * x,
        ;
        assert(0 <= num / d <= h) by (nonlinear_arith)
            requires
                d > 0,
                0 <= num <= h * d,
        ;
    }
}

/// %K and %D.
#[derive(Clone, Copy, Debug, PartialEq, Eq, Structural)]
pub struct StochValue {
    pub k: i128,
    pub d: i128,
}

/// What a stochastic state holds.
pub struct StochModel {
    pub k_len: usize,
    pub d_len: usize,
    pub smooth: usize,
    pub k_values: Seq<i128>,
    pub initialized: bool,
}

/// The last %K values, no more than the %D lookback.
#[derive(Clone, Debug, PartialEq, Eq)]
pub struct StochState {
    pub k_len: usize,
    pub d_len: usize,
    pub smooth: usize,
    pub k_buffer: VecDeque<i128>,
    pub initialized: bool,
}

impl View for StochState {
    type V = StochModel;

    open spec fn view(&self) -> StochModel {
        StochModel {
            k_len: self.k_len,
            d_len: self.d_len,
            smooth: self.smooth,
            k_values: self.k_buffer@,
            initialized: self.initialized,
        }
    }
}

impl StochModel {
    /// The lookbacks are valid, the kept history reaches back far enough for
    /// the next window, and the state holds between one and `d_len` values of
    /// admissible size.
    pub open spec fn wf(self, kept: nat) -> bool {
        self.initialized ==> {
            &&& 1 <= self.k_len <= kept + 1
            &&& 1 <= self.d_len <= MAX_CAPACITY
            &&& 1 <= self.k_values.len() <= self.d_len
            &&& all_between(self.k_values, -k_max(), k_max())
        }
    }

    /// Every %K value held lies between zero and one hundred.
    pub open spec fn bounded(self) -> bool {
        all_between(self.k_values, 0, HUNDRED as int)
    }

    /// The state of an instance that history could not seed.
    pub open spec fn idle(k_len: usize, d_len: usize, smooth: usize) -> StochModel {
        StochModel { k_len, d_len, smooth, k_values: Seq::empty(), initialized: false }
    }

    /// History seeds the oscillator when it holds the %K lookback and the
    /// smoothing more, and the %K window fits the kept history.
    pub open spec fn ready(
        total: nat,
        capacity: nat,
        k_len: usize,
        d_len: usize,
        smooth: usize,
    ) -> bool {
        &&& 1 <= k_len <= capacity
        &&& 1 <= d_len <= MAX_CAPACITY
        &&& total >= k_len + smooth
    }

    /// How many %K values warm-up keeps: one for each bar that closes a full
    /// window, but no more than `d_len`.
    pub open spec fn kept_values(total: nat, k_len: usize, d_len: usize) -> nat {
        if total - k_len + 1 > d_len {
            d_len as nat
        } else {
            (total - k_len + 1) as nat
        }
    }

    /// The state after warm-up on a series of bars: the %K values of its last
    /// bars.
    pub open spec fn warmed(
        highs: Seq<i64>,
        lows: Seq<i64>,
        closes: Seq<i64>,
        capacity: nat,
        k_len: usize,
        d_len: usize,
        smooth: usize,
    ) -> StochModel {
        if Self::ready(closes.len(), capacity, k_len, d_len, smooth) {
            let count = Self::kept_values(closes.len(), k_len, d_len);
            let first = closes.len() - count;
            StochModel {
                k_len,
                d_len,
                smooth,
                k_values: Seq::new(
                    count,
                    |j: int| stoch_k_at(highs, lows, closes, k_len as int, first + j) as i128,
                ),
                initialized: true,
            }
        } else {
            Self::idle(k_len, d_len, smooth)
        }
    }

    /// %K of a bar that arrives after the kept history.
    pub open spec fn next_k(self, highs: Seq<i64>, lows: Seq<i64>, bar: Bar) -> int {
        stoch_k(
            bar.close as int,
            highest(window_with(highs, bar.high, self.k_len as nat)),
            lowest(window_with(lows, bar.low, self.k_len as nat)),
        )
    }

    /// The state once a bar has arrived after the kept history. An idle
    /// instance stays as it is.
    pub open spec fn advanced(self, highs: Seq<i64>, lows: Seq<i64>, bar: Bar) -> StochModel {
        if self.initialized && highs.len() + 1 >= self.k_len {
            StochModel {
                k_len: self.k_len,
                d_len: self.d_len,
                smooth: self.smooth,
                k_values: push_bounded(
                    self.k_values,
                    self.next_k(highs, lows, bar) as i128,
                    self.d_len as nat,
                ),
                initialized: true,
            }
        } else {
            self
        }
    }

    /// The last %K and the mean of the %K values held.
    pub open spec fn value(self) -> StochValue {
        StochValue { k: self.k_values.last(), d: stoch_d(self.k_values) as i128 }
    }

    /// The values as they would stand once a bar has arrived; nothing for an
    /// idle instance.
    pub open spec fn previewed(self, highs: Seq<i64>, lows: Seq<i64>, bar: Bar) -> Option<
        StochValue,
    > {
        if self.initialized && highs.len() + 1 >= self.k_len {
            Some(self.advanced(highs, lows, bar).value())
        } else {
            None
        }
    }
}

/// The largest high and the smallest low of the bars from `from` up to `to`.
pub fn extremes_of(highs: &[i64], lows: &[i64], from: usize, to: usize) -> (r: (i64, i64))
    requires
        from <= to <= highs.len(),
        lows.len() == highs.len(),
        all_in_range(highs@),
        all_in_range(lows@),
    ensures
        r.0 == highest(highs@.subrange(from as int, to as int)),
        r.1 == lowest(lows@.subrange(from as int, to as int)),
        in_range(r.0 as int),
        in_range(r.1 as int),
{
    let mut top: i64 = -VALUE_MAX;
    let mut bottom: i64 = VALUE_MAX;
    let mut i: usize = from;
    proof {
        assert(highs@.subrange(from as int, from as int) =~= Seq::<i64>::empty());
        assert(lows@.subrange(from as int, from as int) =~= Seq::<i64>::empty());
    }
    while i < to
        invariant
            from <= i <= to <= highs.len(),
            lows.len() == highs.len(),
            all_in_range(highs@),
            all_in_range(lows@),
            top == highest(highs@.subrange(from as int, i as int)),
            bottom == lowest(lows@.subrange(from as int, i as int)),
            in_range(top as int),
            in_range(bottom as int),
        decreases to - i,
    {
        proof {
            assert(highs@.subrange(from as int, i + 1).drop_last() =~= highs@.subrange(
                from as int,
                i as int,
            ));
            assert(lows@.subrange(from as int, i + 1).drop_last() =~= lows@.subrange(
                from as int,
                i as int,
            ));
        }
        if highs[i] > top {
            top = highs[i];
        }
        if lows[i] < bottom {
            bottom = lows[i];
        }
        i += 1;
    }
    (top, bottom)
}

/// %K of a close within a range.
pub fn stoch_k_of(close: i64, top: i64, bottom: i64) -> (k: i128)
    requires
        in_range(close as int),
        in_range(top as int),
        in_range(bottom as int),
    ensures
        k == stoch_k(close as int, top as int, bottom as int),
        -k_max() <= k <= k_max(),
{
    proof {
        lemma_stoch_k_magnitude(close as int, top as int, bottom as int);
    }
    if top == bottom {
        (HUNDRED / 2) as i128
    } else {
        div_floor(HUNDRED as i128 * (close as i128 - bottom as i128), top as i128 - bottom as i128)
    }
}

impl StochState {
    /// Seeds the state from a series of bars, for a history buffer of the given
    /// capacity.
    pub fn warm_up(
        highs: &[i64],
        lows: &[i64],
        closes: &[i64],
        capacity: usize,
        k_len: usize,
        d_len: usize,
        smooth: usize,
    ) -> (state: StochState)
        requires
            highs.len() == closes.len(),
            lows.len() == closes.len(),
            all_in_range(highs@),
            all_in_range(lows@),
            all_in_range(closes@),
        ensures
            state@ == StochModel::warmed(
                highs@,
                lows@,
                closes@,
                capacity as nat,
                k_len,
                d_len,
                smooth,
            ),
            state@.wf(recent(closes@, capacity as nat).len()),
    {
        let total: usize = closes.len();
        let ready: bool = 1 <= k_len && k_len <= capacity && 1 <= d_len && d_len <= MAX_CAPACITY
            && total as u128 >= k_len as u128 + smooth as u128;
        let mut k_buffer: VecDeque<i128> = VecDeque::new();
        if !ready {
            return StochState { k_len, d_len, smooth, k_buffer, initialized: false };
        }
        let windows: usize = total - k_len + 1;
        let count: usize = if windows > d_len {
            d_len
        } else {
            windows
        };
        let first: usize = total - count;
        let mut i: usize = first;
        while i < total
            invariant
                1 <= k_len,
                first <= i <= total,
                first + 1 >= k_len,
                total == closes.len(),
                highs.len() == closes.len(),
                lows.len() == closes.len(),
                all_in_range(highs@),
                all_in_range(lows@),
                all_in_range(closes@),
                k_buffer@.len() == i - first,
                forall|j: int|
                    0 <= j < i - first ==> #[trigger] k_buffer@[j] == stoch_k_at(
                        highs@,
                        lows@,
                        closes@,
                        k_len as int,
                        first + j,
                    ),
                all_between(k_buffer@, -k_max(), k_max()),
            decreases total - i,
        {
            let (top, bottom) = extremes_of(highs, lows, i + 1 - k_len, i + 1);
            let k: i128 = stoch_k_of(closes[i], top, bottom);
            k_buffer.push_back(k);
            i += 1;
        }
        let state = StochState { k_len, d_len, smooth, k_buffer, initialized: true };
        assert(state@.k_values =~= StochModel::warmed(
            highs@,
            lows@,
            closes@,
            capacity as nat,
            k_len,
            d_len,
            smooth,
        ).k_values);
        state
    }

    /// The state one bar later, read against the history before the bar.
    pub fn step(&self, history: &HistoryBuffer, bar: &Bar) -> (next: StochState)
        requires
            history.wf(),
            bar.in_range(),
            self@.wf(history.spec_len()),
        ensures
            next@ == self@.advanced(history.highs(), history.lows(), *bar),
            next@.wf(push_bounded(history.closes(), bar.close, history.spec_capacity()).len()),
            bar.ordered() && self@.bounded() ==> next@.bounded(),
    {
        if !self.initialized {
            let k_buffer = duplicate(&self.k_buffer);
            assert(k_buffer@ =~= self.k_buffer@);
            return StochState {
                k_len: self.k_len,
                d_len: self.d_len,
                smooth: self.smooth,
                k_buffer,
                initialized: false,
            };
        }
        let (top, bottom) = extremes_with(history, self.k_len - 1, bar.high, bar.low);
        proof {
            let n = self.k_len as nat;
            assert(window_with(history.highs(), bar.high, n) =~= last_n(
                history.highs(),
                (n - 1) as nat,
            ).push(bar.high));
            assert(window_with(history.lows(), bar.low, n) =~= last_n(
                history.lows(),
                (n - 1) as nat,
            ).push(bar.low));
            if bar.ordered() {
                lemma_stoch_k_bounded(bar.close as int, top as int, bottom as int);
            }
        }
        let k: i128 = stoch_k_of(bar.close, top, bottom);
        let start: usize = if self.k_buffer.len() >= self.d_len {
            1
        } else {
            0
        };
        let k_buffer = shifted(&self.k_buffer, start, k);
        assert(k_buffer@ =~= push_bounded(self.k_buffer@, k, self.d_len as nat));
        StochState {
            k_len: self.k_len,
            d_len: self.d_len,
            smooth: self.smooth,
            k_buffer,
            initialized: true,
        }
    }

    /// The last %K and the mean of the %K values held.
    pub fn current(&self) -> (v: StochValue)
        requires
            self.initialized,
            1 <= self.k_buffer@.len() <= MAX_CAPACITY,
            all_between(self.k_buffer@, -k_max(), k_max()),
        ensures
            v == self@.value(),
            self@.bounded() ==> 0 <= v.k <= HUNDRED && 0 <= v.d <= HUNDRED,
    {
        let len: usize = self.k_buffer.len();
        let mut total: i128 = 0;
        let mut j: usize = 0;
        let ghost b = k_max();
        assert(self.k_buffer@.subrange(0, 0) =~= Seq::<i128>::empty());
        while j < len
            invariant
                j <= len,
                len == self.k_buffer@.len(),
                len <= MAX_CAPACITY,
                b == k_max(),
                all_between(self.k_buffer@, -b, b),
                total == sum_wide(self.k_buffer@.subrange(0, j as int)),
                -j * b <= total <= j * b,
            decreases len - j,
        {
            proof {
                assert(self.k_buffer@.subrange(0, j + 1).drop_last() =~= self.k_buffer@.subrange(
                    0,
                    j as int,
                ));
                assert((j + 1) * b == j * b + b) by (nonlinear_arith);
                assert((-(j + 1)) * b == (-j) * b - b) by (nonlinear_arith);
                assert((j + 1) * b <= 4096 * b) by (nonlinear_arith)
                    requires
                        0 <= j + 1 <= 4096,
                        b >= 0,
                ;
                assert((-(j + 1)) * b >= -(4096 * b)) by (nonlinear_arith)
                    requires
                        0 <= j + 1 <= 4096,
                        b >= 0,
                ;
            }
            total = total + self.k_buffer[j];
            j += 1;
        }
        proof {
            assert(self.k_buffer@.subrange(0, len as int) =~= self.k_buffer@);
            lemma_sum_wide_bounds(self.k_buffer@, -b, b);
            if self@.bounded() {
                lemma_sum_wide_bounds(self.k_buffer@, 0, HUNDRED as int);
            }
        }
        StochValue { k: self.k_buffer[len - 1], d: div_floor(total, len as i128) }
    }

    /// The values as they would stand after `bar`, leaving the state untouched.
    pub fn preview(&self, history: &HistoryBuffer, bar: &Bar) -> (v: Option<StochValue>)
        requires
            history.wf(),
            bar.in_range(),
            self@.wf(history.spec_len()),
        ensures
            v == self@.previewed(history.highs(), history.lows(), *bar),
            v.is_some() && bar.ordered() && self@.bounded() ==> {
                &&& 0 <= v.unwrap().k <= HUNDRED
                &&& 0 <= v.unwrap().d <= HUNDRED
            },
    {
        if self.initialized {
            Some(self.step(history, bar).current())
        } else {
            None
        }
    }
}

/// Every bar's close lies between its low and its high.
pub open spec fn all_ordered(highs: Seq<i64>, lows: Seq<i64>, closes: Seq<i64>) -> bool {
    forall|i: int| 0 <= i < closes.len() ==> lows[i] <= #[trigger] closes[i] <= highs[i]
}

/// Warm-up on a series that is one bar longer gives the state that one advance
/// from the warm-up on the shorter series gives, read against the bars that
/// the history kept of the shorter series.
pub proof fn lemma_stoch_warm_up_extends(
    highs: Seq<i64>,
    lows: Seq<i64>,
    closes: Seq<i64>,
    bar: Bar,
    capacity: nat,
    k_len: usize,
    d_len: usize,
    smooth: usize,
)
    requires
        highs.len() == closes.len(),
        lows.len() == closes.len(),
        StochModel::ready(closes.len(), capacity, k_len, d_len, smooth),
    ensures
        StochModel::warmed(
            highs.push(bar.high),
            lows.push(bar.low),
            closes.push(bar.close),
            capacity,
            k_len,
            d_len,
            smooth,
        ) == StochModel::warmed(highs, lows, closes, capacity, k_len, d_len, smooth).advanced(
            recent(highs, capacity),
            recent(lows, capacity),
            bar,
        ),
{
    let total = closes.len() as int;
    let k = k_len as int;
    let h1 = highs.push(bar.high);
    let l1 = lows.push(bar.low);
    let c1 = closes.push(bar.close);
    let before = StochModel::warmed(highs, lows, closes, capacity, k_len, d_len, smooth);
    let after = StochModel::warmed(h1, l1, c1, capacity, k_len, d_len, smooth);
    let moved = before.advanced(recent(highs, capacity), recent(lows, capacity), bar);
    let count = StochModel::kept_values(closes.len(), k_len, d_len) as int;
    let first = total - count;
    let count1 = StochModel::kept_values(c1.len(), k_len, d_len) as int;
    let first1 = total + 1 - count1;
    assert(h1.subrange(total + 1 - k, total + 1) =~= window_with(
        recent(highs, capacity),
        bar.high,
        k_len as nat,
    ));
    assert(l1.subrange(total + 1 - k, total + 1) =~= window_with(
        recent(lows, capacity),
        bar.low,
        k_len as nat,
    ));
    assert(stoch_k_at(h1, l1, c1, k, total) == before.next_k(
        recent(highs, capacity),
        recent(lows, capacity),
        bar,
    ));
    assert forall|i: int| k - 1 <= i < total implies stoch_k_at(h1, l1, c1, k, i) == stoch_k_at(
        highs,
        lows,
        closes,
        k,
        i,
    ) by {
        assert(h1.subrange(i + 1 - k, i + 1) =~= highs.subrange(i + 1 - k, i + 1));
        assert(l1.subrange(i + 1 - k, i + 1) =~= lows.subrange(i + 1 - k, i + 1));
    }
    assert(after.k_values.len() == moved.k_values.len());
    assert forall|j: int| 0 <= j < after.k_values.len() implies after.k_values[j]
        == moved.k_values[j] by {
        if j < count1 - 1 {
            assert(after.k_values[j] == stoch_k_at(h1, l1, c1, k, first1 + j) as i128);
            assert(before.k_values[first1 + j - first] == stoch_k_at(
                highs,
                lows,
                closes,
                k,
                first1 + j,
            ) as i128);
        }
    }
    assert(after.k_values =~= moved.k_values);
}

/// Warm-up on bars whose closes lie between their lows and highs holds only
/// %K values between zero and one hundred.
pub proof fn lemma_stoch_warmed_bounded(
    highs: Seq<i64>,
    lows: Seq<i64>,
    closes: Seq<i64>,
    capacity: nat,
    k_len: usize,
    d_len: usize,
    smooth: usize,
)
    requires
        highs.len() == closes.len(),
        lows.len() == closes.len(),
        all_in_range(highs),
        all_in_range(lows),
        all_ordered(highs, lows, closes),
    ensures
        StochModel::warmed(highs, lows, closes, capacity, k_len, d_len, smooth).bounded(),
{
    let state = StochModel::warmed(highs, lows, closes, capacity, k_len, d_len, smooth);
    if state.initialized {
        let k = k_len as int;
        let count = StochModel::kept_values(closes.len(), k_len, d_len) as int;
        let first = closes.len() - count;
        let held = state.k_values;
        assert forall|j: int| 0 <= j < held.len() implies 0 <= #[trigger] held[j] <= HUNDRED by {
            let i = first + j;
            let hw = highs.subrange(i + 1 - k, i + 1);
            let lw = lows.subrange(i + 1 - k, i + 1);
            lemma_highest_bounds(hw);
            lemma_highest_bounds(lw);
            assert(hw[k - 1] == highs[i]);
            assert(lw[k - 1] == lows[i]);
            lemma_stoch_k_bounded(closes[i] as int, highest(hw), lowest(lw));
        }
    }
}

/// While every %K value held lies between zero and one hundred, a bar whose
/// close lies between its low and its high gives a %K and a %D in that range.
pub proof fn lemma_stoch_bounded(state: StochModel, highs: Seq<i64>, lows: Seq<i64>, bar: Bar)
    requires
        highs.len() == lows.len(),
        all_in_range(highs),
        all_in_range(lows),
        state.wf(highs.len()),
        state.initialized,
        state.bounded(),
        bar.in_range(),
        bar.ordered(),
    ensures
        state.advanced(highs, lows, bar).bounded(),
        0 <= state.advanced(highs, lows, bar).value().k <= HUNDRED,
        0 <= state.advanced(highs, lows, bar).value().d <= HUNDRED,
{
    let n = state.k_len as nat;
    let hw = window_with(highs, bar.high, n);
    let lw = window_with(lows, bar.low, n);
    assert(hw =~= last_n(highs, (n - 1) as nat).push(bar.high));
    assert(lw =~= last_n(lows, (n - 1) as nat).push(bar.low));
    lemma_highest_bounds(hw);
    lemma_highest_bounds(lw);
    assert(hw[n - 1] == bar.high);
    assert(lw[n - 1] == bar.low);
    lemma_stoch_k_bounded(bar.close as int, highest(hw), lowest(lw));
    let next = state.advanced(highs, lows, bar);
    lemma_sum_wide_bounds(next.k_values, 0, HUNDRED as int);
}

} // verus!
