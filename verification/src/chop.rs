//! Choppiness: the summed true range of the window against the window's
//! high-low range. The index itself is the logarithm of that ratio, which is
//! left to the caller.

use std::collections::VecDeque;
use vstd::prelude::*;
use crate::bar::Bar;
use crate::fixed::all_in_range;
use crate::fixed::in_range;
use crate::fixed::true_range;
use crate::fixed::true_range_of;
use crate::fixed::SPAN_MAX;
use crate::fixed::VALUE_MAX;
use crate::history::last_n;
use crate::series::all_magnitudes;
use crate::series::copied;
use crate::series::duplicate;
use crate::series::shifted;
use crate::series::lemma_sum_bounds;
use crate::series::lemma_sum_push;
use crate::series::sum;
use crate::series::true_ranges;
use crate::window::highest;
use crate::window::lemma_sum_skip_first;
use crate::window::lowest;

verus! {

/// The two quantities of the index: the sum of the window's true ranges, and
/// the distance from the window's lowest low to its highest high. The index is
/// zero where `range` is zero, and else one hundred times the logarithm of
/// `tr_sum / range` over the logarithm of the lookback.
#[derive(Clone, Copy, Debug, PartialEq, Eq, Structural)]
pub struct ChopValue {
    pub tr_sum: i128,
    pub range: i64,
}

/// What a choppiness state holds.
pub struct ChopModel {
    pub length: usize,
    pub highs: Seq<i64>,
    pub lows: Seq<i64>,
    pub trs: Seq<i64>,
    pub sum_tr: i128,
    pub prev_close: i64,
    pub initialized: bool,
}

/// The highs, lows and true ranges of the window, the sum of the true ranges,
/// and the last close.
#[derive(Clone, Debug, PartialEq, Eq)]
pub struct ChopState {
    pub length: usize,
    pub highs: VecDeque<i64>,
    pub lows: VecDeque<i64>,
    pub tr_buffer: VecDeque<i64>,
    pub sum_tr: i128,
    pub prev_close: i64,
    pub initialized: bool,
}

impl View for ChopState {
    type V = ChopModel;

    open spec fn view(&self) -> ChopModel {
        ChopModel {
            length: self.length,
            highs: self.highs@,
            lows: self.lows@,
            trs: self.tr_buffer@,
            sum_tr: self.sum_tr,
            prev_close: self.prev_close,
            initialized: self.initialized,
        }
    }
}

impl ChopModel {
    /// The state holds the highs, lows and true ranges of a full window, all
    /// admissible, the sum of the true ranges, and the last close.
    pub open spec fn wf(self) -> bool {
        self.initialized ==> {
            &&& self.length >= 1
            &&& self.highs.len() == self.length
            &&& self.lows.len() == self.length
            &&& self.trs.len() == self.length
            &&& all_in_range(self.highs)
            &&& all_in_range(self.lows)
            &&& all_magnitudes(self.trs)
            &&& self.sum_tr == sum(self.trs)
            &&& in_range(self.prev_close as int)
        }
    }

    /// The state of an instance that history could not seed.
    pub open spec fn idle(length: usize) -> ChopModel {
        ChopModel {
            length,
            highs: Seq::empty(),
            lows: Seq::empty(),
            trs: Seq::empty(),
            sum_tr: 0,
            prev_close: 0,
            initialized: false,
        }
    }

    /// History seeds the index when it holds more bars than the lookback.
    pub open spec fn ready(total: nat, length: usize) -> bool {
        length >= 1 && total > length
    }

    /// The state after warm-up on a series of bars.
    pub open spec fn warmed(
        highs: Seq<i64>,
        lows: Seq<i64>,
        closes: Seq<i64>,
        length: usize,
    ) -> ChopModel {
        if Self::ready(closes.len(), length) {
            let trs = last_n(true_ranges(highs, lows, closes), length as nat);
            ChopModel {
                length,
                highs: last_n(highs, length as nat),
                lows: last_n(lows, length as nat),
                trs,
                sum_tr: sum(trs) as i128,
                prev_close: closes.last(),
                initialized: true,
            }
        } else {
            Self::idle(length)
        }
    }

    /// The state one bar later: the bar enters the window and the oldest one
    /// leaves. An idle instance stays as it is.
    pub open spec fn advanced(self, bar: Bar) -> ChopModel {
        if self.initialized {
            let trs = self.trs.skip(1).push(
                true_range(bar.high as int, bar.low as int, self.prev_close as int) as i64,
            );
            ChopModel {
                length: self.length,
                highs: self.highs.skip(1).push(bar.high),
                lows: self.lows.skip(1).push(bar.low),
                trs,
                sum_tr: sum(trs) as i128,
                prev_close: bar.close,
                initialized: true,
            }
        } else {
            self
        }
    }

    /// The quantities that the state stands for.
    pub open spec fn value(self) -> ChopValue {
        ChopValue { tr_sum: self.sum_tr, range: (highest(self.highs) - lowest(self.lows)) as i64 }
    }

    /// The quantities as they would stand after `bar`; nothing for an idle
    /// instance.
    pub open spec fn previewed(self, bar: Bar) -> Option<ChopValue> {
        if self.initialized {
            Some(self.advanced(bar).value())
        } else {
            None
        }
    }
}

impl ChopState {
    /// Seeds the state from a series of bars.
    pub fn warm_up(highs: &[i64], lows: &[i64], closes: &[i64], length: usize) -> (state:
        ChopState)
        requires
            highs.len() == closes.len(),
            lows.len() == closes.len(),
            all_in_range(highs@),
            all_in_range(lows@),
            all_in_range(closes@),
        ensures
            state@ == ChopModel::warmed(highs@, lows@, closes@, length),
            state@.wf(),
    {
        let total: usize = closes.len();
        if !(length >= 1 && total > length) {
            return ChopState {
                length,
                highs: VecDeque::new(),
                lows: VecDeque::new(),
                tr_buffer: VecDeque::new(),
                sum_tr: 0,
                prev_close: 0,
                initialized: false,
            };
        }
        let start: usize = total - length;
        let mut tr_buffer: VecDeque<i64> = VecDeque::new();
        let mut sum_tr: i128 = 0;
        let mut i: usize = start;
        let ghost all = true_ranges(highs@, lows@, closes@);
        while i < total
            invariant
                1 <= start <= i <= total,
                total == closes.len(),
                highs.len() == closes.len(),
                lows.len() == closes.len(),
                all_in_range(highs@),
                all_in_range(lows@),
                all_in_range(closes@),
                all == true_ranges(highs@, lows@, closes@),
                tr_buffer@ == all.subrange(start - 1, i - 1),
                all_magnitudes(tr_buffer@),
                sum_tr == sum(tr_buffer@),
                0 <= sum_tr <= (i - start) * SPAN_MAX,
            decreases total - i,
        {
            let tr: i64 = true_range_of(highs[i], lows[i], closes[i - 1]);
            proof {
                lemma_sum_push(tr_buffer@, tr);
                assert(tr_buffer@.push(tr) =~= all.subrange(start - 1, i as int));
                assert((i - start) * SPAN_MAX <= 0x1_0000_0000_0000_0000 * SPAN_MAX)
                    by (nonlinear_arith)
                    requires
                        0 <= i - start <= 0x1_0000_0000_0000_0000,
                ;
            }
            tr_buffer.push_back(tr);
            sum_tr = sum_tr + tr as i128;
            i += 1;
        }
        let kept_highs = copied(highs, start, total);
        let kept_lows = copied(lows, start, total);
        proof {
            assert(all.subrange(start - 1, total - 1) =~= last_n(all, length as nat));
            assert(highs@.subrange(start as int, total as int) =~= last_n(highs@, length as nat));
            assert(lows@.subrange(start as int, total as int) =~= last_n(lows@, length as nat));
        }
        ChopState {
            length,
            highs: kept_highs,
            lows: kept_lows,
            tr_buffer,
            sum_tr,
            prev_close: closes[total - 1],
            initialized: true,
        }
    }

    /// The state one bar later.
    pub fn step(&self, bar: &Bar) -> (next: ChopState)
        requires
            self@.wf(),
            bar.in_range(),
        ensures
            next@ == self@.advanced(*bar),
            next@.wf(),
    {
        if !self.initialized {
            let highs = duplicate(&self.highs);
            let lows = duplicate(&self.lows);
            let tr_buffer = duplicate(&self.tr_buffer);
            proof {
                assert(highs@ =~= self.highs@);
                assert(lows@ =~= self.lows@);
                assert(tr_buffer@ =~= self.tr_buffer@);
            }
            return ChopState {
                length: self.length,
                highs,
                lows,
                tr_buffer,
                sum_tr: self.sum_tr,
                prev_close: self.prev_close,
                initialized: false,
            };
        }
        let tr: i64 = true_range_of(bar.high, bar.low, self.prev_close);
        proof {
            lemma_sum_skip_first(self.tr_buffer@);
            lemma_sum_push(self.tr_buffer@.skip(1), tr);
            lemma_sum_bounds(self.tr_buffer@, 0, SPAN_MAX as int);
            let n = self.length as int;
            assert(n * SPAN_MAX <= 0x1_0000_0000_0000_0000 * SPAN_MAX) by (nonlinear_arith)
                requires
                    0 <= n <= 0x1_0000_0000_0000_0000,
            ;
            assert(n * 0 == 0) by (nonlinear_arith);
        }
        let leaving: i64 = self.tr_buffer[0];
        ChopState {
            length: self.length,
            highs: shifted(&self.highs, 1, bar.high),
            lows: shifted(&self.lows, 1, bar.low),
            tr_buffer: shifted(&self.tr_buffer, 1, tr),
            sum_tr: self.sum_tr - leaving as i128 + tr as i128,
            prev_close: bar.close,
            initialized: true,
        }
    }

    /// The quantities that the state stands for.
    pub fn current(&self) -> (v: ChopValue)
        requires
            self@.wf(),
            self.initialized,
        ensures
            v == self@.value(),
    {
        let mut top: i64 = -VALUE_MAX;
        let mut bottom: i64 = VALUE_MAX;
        let mut j: usize = 0;
        let ghost h = self.highs@;
        let ghost l = self.lows@;
        proof {
            assert(h.subrange(0, 0) =~= Seq::<i64>::empty());
            assert(l.subrange(0, 0) =~= Seq::<i64>::empty());
        }
        while j < self.highs.len()
            invariant
                j <= h.len(),
                h == self.highs@,
                l == self.lows@,
                h.len() == l.len(),
                all_in_range(h),
                all_in_range(l),
                top == highest(h.subrange(0, j as int)),
                bottom == lowest(l.subrange(0, j as int)),
                in_range(top as int),
                in_range(bottom as int),
            decreases h.len() - j,
        {
            proof {
                assert(h.subrange(0, j + 1).drop_last() =~= h.subrange(0, j as int));
                assert(l.subrange(0, j + 1).drop_last() =~= l.subrange(0, j as int));
            }
            if self.highs[j] > top {
                top = self.highs[j];
            }
            if self.lows[j] < bottom {
                bottom = self.lows[j];
            }
            j += 1;
        }
        proof {
            assert(h.subrange(0, h.len() as int) =~= h);
            assert(l.subrange(0, l.len() as int) =~= l);
        }
        ChopValue { tr_sum: self.sum_tr, range: top - bottom }
    }

    /// The quantities as they would stand after `bar`, leaving the state
    /// untouched.
    pub fn preview(&self, bar: &Bar) -> (v: Option<ChopValue>)
        requires
            self@.wf(),
            bar.in_range(),
        ensures
            v == self@.previewed(*bar),
    {
        if self.initialized {
            Some(self.step(bar).current())
        } else {
            None
        }
    }
}

/// Warm-up on a series that is one bar longer gives the state that one advance
/// from the warm-up on the shorter series gives.
pub proof fn lemma_chop_warm_up_extends(
    highs: Seq<i64>,
    lows: Seq<i64>,
    closes: Seq<i64>,
    bar: Bar,
    length: usize,
)
    requires
        highs.len() == closes.len(),
        lows.len() == closes.len(),
        ChopModel::ready(closes.len(), length),
    ensures
        ChopModel::warmed(highs.push(bar.high), lows.push(bar.low), closes.push(bar.close), length)
            == ChopModel::warmed(highs, lows, closes, length).advanced(bar),
{
    let trs = true_ranges(highs, lows, closes);
    let tr = true_range(bar.high as int, bar.low as int, closes.last() as int) as i64;
    let trs1 = true_ranges(highs.push(bar.high), lows.push(bar.low), closes.push(bar.close));
    assert(trs1 =~= trs.push(tr));
    crate::history::lemma_last_n_push(trs, tr, length as nat);
    crate::history::lemma_last_n_push(highs, bar.high, length as nat);
    crate::history::lemma_last_n_push(lows, bar.low, length as nat);
}

} // verus!
