//! Commodity channel index: the distance of the typical price from its mean
//! over the window, against the mean absolute deviation.

use std::collections::VecDeque;
use vstd::prelude::*;
use crate::bar::Bar;
use crate::fixed::all_in_range;
use crate::fixed::div_floor;
use crate::fixed::in_range;
use crate::fixed::magnitude;
use crate::fixed::lift_wide;
use crate::fixed::quot;
use crate::fixed::SPAN_MAX;
use crate::fixed::VALUE_MAX;
use crate::history::last_n;
use crate::series::duplicate;
use crate::series::lemma_sum_bounds;
use crate::series::shifted;
use crate::series::lemma_sum_push;
use crate::series::sum;
use crate::window::lemma_sum_skip_first;

verus! {

/// One unit over the index's constant 0.015, as a ratio: the numerator.
pub const CCI_NUMERATOR: i128 = 1_000_000_000;

/// The denominator of that ratio.
pub const CCI_DENOMINATOR: i128 = 15;

/// Typical price of a bar: the mean of high, low and close, rounded down.
pub open spec fn typical(high: int, low: int, close: int) -> int {
    (high + low + close) / 3
}

/// Typical prices of a series of bars.
pub open spec fn typicals(highs: Seq<i64>, lows: Seq<i64>, closes: Seq<i64>) -> Seq<i64> {
    Seq::new(
        closes.len(),
        |i: int| typical(highs[i] as int, lows[i] as int, closes[i] as int) as i64,
    )
}

/// Sum of the distances of the elements from `mean`.
pub open spec fn abs_dev_sum(s: Seq<i64>, mean: int) -> int
    decreases s.len(),
{
    if s.len() == 0 {
        0
    } else {
        abs_dev_sum(s.drop_last(), mean) + magnitude(s.last() - mean)
    }
}

/// The index from a typical price, the window's mean and its mean deviation:
/// `(tp - mean) / (0.015 * deviation)`; zero when the deviation is zero.
pub open spec fn cci_value(tp: int, mean: int, deviation: int) -> int {
    if deviation == 0 {
        0
    } else {
        quot((tp - mean) * CCI_NUMERATOR, CCI_DENOMINATOR * deviation)
    }
}

/// The summed distance of admissible values from an admissible mean is no
/// more than the largest span for each value.
pub proof fn lemma_abs_dev_sum_bounds(s: Seq<i64>, mean: int)
    requires
        all_in_range(s),
        in_range(mean),
    ensures
        0 <= abs_dev_sum(s, mean) <= s.len() * SPAN_MAX,
    decreases s.len(),
{
    if s.len() > 0 {
        lemma_abs_dev_sum_bounds(s.drop_last(), mean);
        let k = s.len() as int;
        assert(k * SPAN_MAX == (k - 1) * SPAN_MAX + SPAN_MAX) by (nonlinear_arith);
    } else {
        assert(0 * SPAN_MAX == 0) by (nonlinear_arith);
    }
}

/// What a channel-index state holds.
pub struct CciModel {
    pub length: usize,
    pub window: Seq<i64>,
    pub sum_tp: i128,
    pub initialized: bool,
}

/// The window of typical prices and their sum.
#[derive(Clone, Debug, PartialEq, Eq)]
pub struct CciState {
    pub length: usize,
    pub tp_buffer: VecDeque<i64>,
    pub sum_tp: i128,
    pub initialized: bool,
}

impl View for CciState {
    type V = CciModel;

    open spec fn view(&self) -> CciModel {
        CciModel {
            length: self.length,
            window: self.tp_buffer@,
            sum_tp: self.sum_tp,
            initialized: self.initialized,
        }
    }
}

impl CciModel {
    /// The state holds a full window of admissible typical prices and their
    /// sum.
    pub open spec fn wf(self) -> bool {
        self.initialized ==> {
            &&& self.length >= 1
            &&& self.window.len() == self.length
            &&& all_in_range(self.window)
            &&& self.sum_tp == sum(self.window)
        }
    }

    /// The state of an instance that history could not seed.
    pub open spec fn idle(length: usize) -> CciModel {
        CciModel { length, window: Seq::empty(), sum_tp: 0, initialized: false }
    }

    /// History seeds the index when it holds a full window.
    pub open spec fn ready(total: nat, length: usize) -> bool {
        1 <= length <= total
    }

    /// The state after warm-up on a series of bars.
    pub open spec fn warmed(
        highs: Seq<i64>,
        lows: Seq<i64>,
        closes: Seq<i64>,
        length: usize,
    ) -> CciModel {
        if Self::ready(closes.len(), length) {
            let w = last_n(typicals(highs, lows, closes), length as nat);
            CciModel { length, window: w, sum_tp: sum(w) as i128, initialized: true }
        } else {
            Self::idle(length)
        }
    }

    /// The state one bar later: the bar's typical price enters the window and
    /// the oldest one leaves. An idle instance stays as it is.
    pub open spec fn advanced(self, bar: Bar) -> CciModel {
        if self.initialized {
            let w = self.window.skip(1).push(bar.typical() as i64);
            CciModel { length: self.length, window: w, sum_tp: sum(w) as i128, initialized: true }
        } else {
            self
        }
    }

    /// The mean of the window.
    pub open spec fn mean(self) -> int {
        (self.sum_tp as int) / (self.length as int)
    }

    /// The mean absolute deviation of the window from its mean.
    pub open spec fn deviation(self) -> int {
        abs_dev_sum(self.window, self.mean()) / (self.length as int)
    }

    /// The index that the state stands for.
    pub open spec fn value(self) -> int {
        cci_value(self.window.last() as int, self.mean(), self.deviation())
    }

    /// The index as it would stand after `bar`; nothing for an idle instance.
    pub open spec fn previewed(self, bar: Bar) -> Option<int> {
        if self.initialized {
            Some(self.advanced(bar).value())
        } else {
            None
        }
    }
}

impl CciState {
    /// Seeds the state from a series of bars.
    pub fn warm_up(highs: &[i64], lows: &[i64], closes: &[i64], length: usize) -> (state:
        CciState)
        requires
            highs.len() == closes.len(),
            lows.len() == closes.len(),
            all_in_range(highs@),
            all_in_range(lows@),
            all_in_range(closes@),
        ensures
            state@ == CciModel::warmed(highs@, lows@, closes@, length),
            state@.wf(),
    {
        let total: usize = closes.len();
        let mut tp_buffer: VecDeque<i64> = VecDeque::new();
        if !(1 <= length && length <= total) {
            return CciState { length, tp_buffer, sum_tp: 0, initialized: false };
        }
        let start: usize = total - length;
        let mut sum_tp: i128 = 0;
        let mut i: usize = start;
        let ghost tps = typicals(highs@, lows@, closes@);
        while i < total
            invariant
                start <= i <= total,
                total == closes.len(),
                highs.len() == closes.len(),
                lows.len() == closes.len(),
                all_in_range(highs@),
                all_in_range(lows@),
                all_in_range(closes@),
                tps == typicals(highs@, lows@, closes@),
                tp_buffer@ == tps.subrange(start as int, i as int),
                all_in_range(tp_buffer@),
                sum_tp == sum(tp_buffer@),
                -(i - start) * VALUE_MAX <= sum_tp <= (i - start) * VALUE_MAX,
            decreases total - i,
        {
            let bar = Bar::new(0, highs[i], lows[i], closes[i], 0, 0);
            let tp: i64 = bar.typical_price();
            proof {
                lemma_sum_push(tp_buffer@, tp);
                assert(tp_buffer@.push(tp) =~= tps.subrange(start as int, i + 1));
                assert((i - start) * VALUE_MAX <= 0x1_0000_0000_0000_0000 * VALUE_MAX)
                    by (nonlinear_arith)
                    requires
                        0 <= i - start <= 0x1_0000_0000_0000_0000,
                ;
            }
            tp_buffer.push_back(tp);
            sum_tp = sum_tp + tp as i128;
            i += 1;
        }
        assert(tps.subrange(start as int, total as int) =~= last_n(tps, length as nat));
        CciState { length, tp_buffer, sum_tp, initialized: true }
    }

    /// The state one bar later.
    pub fn step(&self, bar: &Bar) -> (next: CciState)
        requires
            self@.wf(),
            bar.in_range(),
        ensures
            next@ == self@.advanced(*bar),
            next@.wf(),
    {
        if !self.initialized {
            let tp_buffer = duplicate(&self.tp_buffer);
            assert(tp_buffer@ =~= self.tp_buffer@);
            return CciState {
                length: self.length,
                tp_buffer,
                sum_tp: self.sum_tp,
                initialized: false,
            };
        }
        let tp: i64 = bar.typical_price();
        proof {
            lemma_sum_skip_first(self.tp_buffer@);
            lemma_sum_push(self.tp_buffer@.skip(1), tp);
            lemma_sum_bounds(self.tp_buffer@, -VALUE_MAX as int, VALUE_MAX as int);
            let n = self.length as int;
            assert(n * VALUE_MAX <= 0x1_0000_0000_0000_0000 * VALUE_MAX) by (nonlinear_arith)
                requires
                    0 <= n <= 0x1_0000_0000_0000_0000,
            ;
            assert(n * (-VALUE_MAX) >= 0x1_0000_0000_0000_0000 * (-VALUE_MAX))
                by (nonlinear_arith)
                requires
                    0 <= n <= 0x1_0000_0000_0000_0000,
            ;
        }
        let leaving: i64 = self.tp_buffer[0];
        CciState {
            length: self.length,
            tp_buffer: shifted(&self.tp_buffer, 1, tp),
            sum_tp: self.sum_tp - leaving as i128 + tp as i128,
            initialized: true,
        }
    }

    /// The index that the state stands for.
    pub fn current(&self) -> (v: i128)
        requires
            self@.wf(),
            self.initialized,
        ensures
            v == self@.value(),
    {
        let n: i128 = self.length as i128;
        let ghost w = self.tp_buffer@;
        proof {
            lemma_sum_bounds(w, -VALUE_MAX as int, VALUE_MAX as int);
            let t = self.sum_tp as int;
            let ni = n as int;
            let m = VALUE_MAX as int;
            assert(-m <= t / ni <= m) by (nonlinear_arith)
                requires
                    ni >= 1,
                    ni * (-m) <= t <= ni * m,
            ;
            assert(ni * m <= 0x1_0000_0000_0000_0000 * m) by (nonlinear_arith)
                requires
                    0 <= ni <= 0x1_0000_0000_0000_0000,
                    m >= 0,
            ;
            assert(ni * (-m) >= 0x1_0000_0000_0000_0000 * (-m)) by (nonlinear_arith)
                requires
                    0 <= ni <= 0x1_0000_0000_0000_0000,
                    m >= 0,
            ;
        }
        let mean: i128 = div_floor(self.sum_tp, n);
        let mut total: i128 = 0;
        let mut j: usize = 0;
        assert(w.subrange(0, 0) =~= Seq::<i64>::empty());
        while j < self.tp_buffer.len()
            invariant
                j <= w.len(),
                w == self.tp_buffer@,
                all_in_range(w),
                in_range(mean as int),
                total == abs_dev_sum(w.subrange(0, j as int), mean as int),
                0 <= total <= j * SPAN_MAX,
            decreases w.len() - j,
        {
            proof {
                assert(w.subrange(0, j + 1).drop_last() =~= w.subrange(0, j as int));
                lemma_abs_dev_sum_bounds(w.subrange(0, j + 1), mean as int);
                assert((j + 1) * SPAN_MAX <= 0x1_0000_0000_0000_0000 * SPAN_MAX)
                    by (nonlinear_arith)
                    requires
                        0 <= j + 1 <= 0x1_0000_0000_0000_0000,
                ;
            }
            let x: i128 = self.tp_buffer[j] as i128 - mean;
            total = total + if x < 0 {
                -x
            } else {
                x
            };
            j += 1;
        }
        proof {
            assert(w.subrange(0, w.len() as int) =~= w);
            let t = total as int;
            let ni = n as int;
            assert(0 <= t / ni <= SPAN_MAX) by (nonlinear_arith)
                requires
                    ni >= 1,
                    0 <= t <= ni * SPAN_MAX,
            ;
        }
        let dev: i128 = total / n;
        if dev == 0 {
            0
        } else {
            let tp: i128 = self.tp_buffer[self.tp_buffer.len() - 1] as i128;
            proof {
                let d = (tp - mean) as int;
                assert(-SPAN_MAX * 1_000_000_000 <= d * 1_000_000_000 <= SPAN_MAX * 1_000_000_000)
                    by (nonlinear_arith)
                    requires
                        -SPAN_MAX <= d <= SPAN_MAX,
                ;
            }
            div_floor((tp - mean) * CCI_NUMERATOR, CCI_DENOMINATOR * dev)
        }
    }

    /// The index as it would stand after `bar`, leaving the state untouched.
    pub fn preview(&self, bar: &Bar) -> (v: Option<i128>)
        requires
            self@.wf(),
            bar.in_range(),
        ensures
            lift_wide(v) == self@.previewed(*bar),
    {
        if self.initialized {
            Some(self.step(bar).current())
        } else {
            None
        }
    }
}

/// Warm-up on a series that is one bar longer gives the state that one advance
/// from the warm-up on the shorter series gives.
pub proof fn lemma_cci_warm_up_extends(
    highs: Seq<i64>,
    lows: Seq<i64>,
    closes: Seq<i64>,
    bar: Bar,
    length: usize,
)
    requires
        highs.len() == closes.len(),
        lows.len() == closes.len(),
        CciModel::ready(closes.len(), length),
    ensures
        CciModel::warmed(highs.push(bar.high), lows.push(bar.low), closes.push(bar.close), length)
            == CciModel::warmed(highs, lows, closes, length).advanced(bar),
{
    let tps = typicals(highs, lows, closes);
    let tps1 = typicals(highs.push(bar.high), lows.push(bar.low), closes.push(bar.close));
    assert(tps1 =~= tps.push(bar.typical() as i64));
    crate::history::lemma_last_n_push(tps, bar.typical() as i64, length as nat);
}

} // verus!
