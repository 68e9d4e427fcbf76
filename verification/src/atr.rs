//! Average true range: the Wilder-smoothed true range.

use vstd::prelude::*;
use crate::bar::Bar;
use crate::fixed::all_in_range;
use crate::fixed::in_range;
use crate::fixed::lemma_wilder_between;
use crate::fixed::lift;
use crate::fixed::true_range;
use crate::fixed::true_range_of;
use crate::fixed::wilder;
use crate::fixed::wilder_next;
use crate::fixed::SPAN_MAX;
use crate::series::lemma_wilder_avg_bounds;
use crate::series::lemma_wilder_avg_constant;
use crate::series::lemma_wilder_avg_push;
use crate::series::true_ranges;
use crate::series::true_ranges_of;
use crate::series::wilder_average;
use crate::series::wilder_avg;

verus! {

/// The smoothed true range and the last close.
#[derive(Clone, Copy, Debug, PartialEq, Eq, Structural)]
pub struct AtrState {
    pub length: usize,
    pub value: i64,
    pub prev_close: i64,
    pub initialized: bool,
}

impl AtrState {
    /// A seeded state has a valid lookback, a range that is a magnitude, and an
    /// admissible last close.
    pub open spec fn wf(&self) -> bool {
        self.initialized ==> {
            &&& self.length >= 1
            &&& 0 <= self.value <= SPAN_MAX
            &&& in_range(self.prev_close as int)
        }
    }

    /// The state of an instance that history could not seed.
    pub open spec fn idle(length: usize) -> AtrState {
        AtrState { length, value: 0, prev_close: 0, initialized: false }
    }

    /// History seeds the range when it holds more bars than the lookback.
    pub open spec fn ready(len: nat, length: usize) -> bool {
        length >= 1 && len > length
    }

    /// The state after warm-up on a series of bars.
    pub open spec fn warmed(
        highs: Seq<i64>,
        lows: Seq<i64>,
        closes: Seq<i64>,
        length: usize,
    ) -> AtrState {
        if Self::ready(closes.len(), length) {
            AtrState {
                length,
                value: wilder_avg(true_ranges(highs, lows, closes), length as int) as i64,
                prev_close: closes.last(),
                initialized: true,
            }
        } else {
            Self::idle(length)
        }
    }

    /// The state one bar later. An idle instance stays as it is.
    pub open spec fn advanced(self, bar: Bar) -> AtrState {
        if self.initialized {
            AtrState {
                length: self.length,
                value: wilder(
                    self.value as int,
                    true_range(bar.high as int, bar.low as int, self.prev_close as int),
                    self.length as int,
                ) as i64,
                prev_close: bar.close,
                initialized: true,
            }
        } else {
            self
        }
    }

    /// The range as it would stand after `bar`; nothing for an idle instance.
    pub open spec fn previewed(self, bar: Bar) -> Option<int> {
        if self.initialized {
            Some(self.advanced(bar).value as int)
        } else {
            None
        }
    }

    /// Seeds the state from a series of bars.
    pub fn warm_up(highs: &[i64], lows: &[i64], closes: &[i64], length: usize) -> (state:
        AtrState)
        requires
            highs.len() == closes.len(),
            lows.len() == closes.len(),
            all_in_range(highs@),
            all_in_range(lows@),
            all_in_range(closes@),
        ensures
            state == Self::warmed(highs@, lows@, closes@, length),
            state.wf(),
    {
        if length >= 1 && closes.len() > length {
            let trs = true_ranges_of(highs, lows, closes);
            let value: i64 = wilder_average(trs.as_slice(), length);
            AtrState { length, value, prev_close: closes[closes.len() - 1], initialized: true }
        } else {
            AtrState { length, value: 0, prev_close: 0, initialized: false }
        }
    }

    /// The state one bar later.
    pub fn step(&self, bar: &Bar) -> (next: AtrState)
        requires
            self.wf(),
            bar.in_range(),
        ensures
            next == self.advanced(*bar),
            next.wf(),
    {
        if !self.initialized {
            return *self;
        }
        let tr: i64 = true_range_of(bar.high, bar.low, self.prev_close);
        AtrState {
            length: self.length,
            value: wilder_next(self.value, tr, self.length),
            prev_close: bar.close,
            initialized: true,
        }
    }

    /// The range as it would stand after `bar`, leaving the state untouched.
    pub fn preview(&self, bar: &Bar) -> (v: Option<i64>)
        requires
            self.wf(),
            bar.in_range(),
        ensures
            lift(v) == self.previewed(*bar),
    {
        if self.initialized {
            Some(self.step(bar).value)
        } else {
            None
        }
    }

    /// Moves the state on by one bar.
    pub fn advance(&mut self, bar: &Bar)
        requires
            old(self).wf(),
            bar.in_range(),
        ensures
            *final(self) == old(self).advanced(*bar),
            final(self).wf(),
    {
        *self = self.step(bar);
    }
}

/// Warm-up on a series that is one bar longer gives the state that one advance
/// from the warm-up on the shorter series gives.
pub proof fn lemma_atr_warm_up_extends(
    highs: Seq<i64>,
    lows: Seq<i64>,
    closes: Seq<i64>,
    bar: Bar,
    length: usize,
)
    requires
        highs.len() == closes.len(),
        lows.len() == closes.len(),
        all_in_range(highs),
        all_in_range(lows),
        all_in_range(closes),
        bar.in_range(),
        AtrState::ready(closes.len(), length),
    ensures
        AtrState::warmed(highs.push(bar.high), lows.push(bar.low), closes.push(bar.close), length)
            == AtrState::warmed(highs, lows, closes, length).advanced(bar),
{
    let n = length as int;
    let trs = true_ranges(highs, lows, closes);
    let tr = true_range(bar.high as int, bar.low as int, closes.last() as int);
    let longer = true_ranges(highs.push(bar.high), lows.push(bar.low), closes.push(bar.close));
    assert(longer =~= trs.push(tr as i64));
    lemma_wilder_avg_push(trs, tr as i64, n);
    lemma_wilder_avg_bounds(trs, n, 0, SPAN_MAX as int);
    lemma_wilder_between(wilder_avg(trs, n), tr, n, 0, SPAN_MAX as int);
}

/// On a series whose bars all have the true range `v`, the average is `v`.
pub proof fn lemma_atr_constant(
    highs: Seq<i64>,
    lows: Seq<i64>,
    closes: Seq<i64>,
    length: usize,
    v: int,
)
    requires
        highs.len() == closes.len(),
        lows.len() == closes.len(),
        AtrState::ready(closes.len(), length),
        forall|i: int|
            0 <= i < closes.len() - 1 ==> #[trigger] true_ranges(highs, lows, closes)[i] == v,
    ensures
        AtrState::warmed(highs, lows, closes, length).value == v,
{
    lemma_wilder_avg_constant(true_ranges(highs, lows, closes), length as int, v);
}

/// On a flat series, one whose highs, lows and closes are all one price, the
/// average true range is zero.
pub proof fn lemma_atr_flat(
    highs: Seq<i64>,
    lows: Seq<i64>,
    closes: Seq<i64>,
    length: usize,
    price: i64,
)
    requires
        highs.len() == closes.len(),
        lows.len() == closes.len(),
        AtrState::ready(closes.len(), length),
        forall|i: int| 0 <= i < closes.len() ==> #[trigger] closes[i] == price,
        forall|i: int| 0 <= i < closes.len() ==> #[trigger] highs[i] == price,
        forall|i: int| 0 <= i < closes.len() ==> #[trigger] lows[i] == price,
    ensures
        AtrState::warmed(highs, lows, closes, length).value == 0,
{
    lemma_atr_constant(highs, lows, closes, length, 0);
}

} // verus!
