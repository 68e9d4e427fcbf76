//! Relative strength index: Wilder-smoothed average gain against average loss.

use vstd::prelude::*;
use crate::bar::Bar;
use crate::fixed::all_in_range;
use crate::fixed::div_floor;
use crate::fixed::in_range;
use crate::fixed::lemma_wilder_between;
use crate::fixed::lift;
use crate::fixed::wilder;
use crate::fixed::wilder_next;
use crate::fixed::HUNDRED;
use crate::fixed::SPAN_MAX;
use crate::series::gain;
use crate::series::gains;
use crate::series::gains_and_losses;
use crate::series::lemma_wilder_avg_bounds;
use crate::series::lemma_wilder_avg_constant;
use crate::series::lemma_wilder_avg_push;
use crate::series::loss;
use crate::series::losses;
use crate::series::wilder_average;
use crate::series::wilder_avg;

verus! {

/// The index for a given average gain and average loss, both non-negative:
/// one hundred when there is no loss at all, else `100 - 100 / (1 + gain / loss)`,
/// which is `100 * gain / (gain + loss)`.
pub open spec fn rsi_value(avg_gain: int, avg_loss: int) -> int {
    if avg_loss == 0 {
        HUNDRED as int
    } else {
        (HUNDRED * avg_gain) / (avg_gain + avg_loss)
    }
}

/// The index always lies between zero and one hundred.
pub proof fn lemma_rsi_bounded(avg_gain: int, avg_loss: int)
    requires
        avg_gain >= 0,
        avg_loss >= 0,
    ensures
        0 <= rsi_value(avg_gain, avg_loss) <= HUNDRED,
{
    if avg_loss != 0 {
        let d = avg_gain + avg_loss;
        let h = HUNDRED as int;
        assert(0 <= (h * avg_gain) / d <= h) by (nonlinear_arith)
            requires
                avg_gain >= 0,
                d >= avg_gain,
                d > 0,
                h >= 0,
        ;
    }
}

/// The smoothed average gain and loss, and the last close.
#[derive(Clone, Copy, Debug, PartialEq, Eq, Structural)]
pub struct RsiState {
    pub length: usize,
    pub avg_gain: i64,
    pub avg_loss: i64,
    pub prev_close: i64,
    pub initialized: bool,
}

impl RsiState {
    /// A seeded state has a valid lookback, averages that are magnitudes, and
    /// an admissible last close.
    pub open spec fn wf(&self) -> bool {
        self.initialized ==> {
            &&& self.length >= 1
            &&& 0 <= self.avg_gain <= SPAN_MAX
            &&& 0 <= self.avg_loss <= SPAN_MAX
            &&& in_range(self.prev_close as int)
        }
    }

    /// The state of an instance that history could not seed.
    pub open spec fn idle(length: usize) -> RsiState {
        RsiState { length, avg_gain: 0, avg_loss: 0, prev_close: 0, initialized: false }
    }

    /// History seeds the index when it holds more closes than the lookback.
    pub open spec fn ready(len: nat, length: usize) -> bool {
        length >= 1 && len > length
    }

    /// The state after warm-up on a series of closes.
    pub open spec fn warmed(closes: Seq<i64>, length: usize) -> RsiState {
        if Self::ready(closes.len(), length) {
            RsiState {
                length,
                avg_gain: wilder_avg(gains(closes), length as int) as i64,
                avg_loss: wilder_avg(losses(closes), length as int) as i64,
                prev_close: closes.last(),
                initialized: true,
            }
        } else {
            Self::idle(length)
        }
    }

    /// The state one bar later. An idle instance stays as it is.
    pub open spec fn advanced(self, bar: Bar) -> RsiState {
        if self.initialized {
            RsiState {
                length: self.length,
                avg_gain: wilder(
                    self.avg_gain as int,
                    gain(bar.close - self.prev_close),
                    self.length as int,
                ) as i64,
                avg_loss: wilder(
                    self.avg_loss as int,
                    loss(bar.close - self.prev_close),
                    self.length as int,
                ) as i64,
                prev_close: bar.close,
                initialized: true,
            }
        } else {
            self
        }
    }

    /// The index that the state stands for.
    pub open spec fn value(self) -> int {
        rsi_value(self.avg_gain as int, self.avg_loss as int)
    }

    /// The index as it would stand after `bar`; nothing for an idle instance.
    pub open spec fn previewed(self, bar: Bar) -> Option<int> {
        if self.initialized {
            Some(self.advanced(bar).value())
        } else {
            None
        }
    }

    /// Seeds the state from a series of closes.
    pub fn warm_up(closes: &[i64], length: usize) -> (state: RsiState)
        requires
            all_in_range(closes@),
        ensures
            state == Self::warmed(closes@, length),
            state.wf(),
    {
        if length >= 1 && closes.len() > length {
            let (up, down) = gains_and_losses(closes);
            let avg_gain: i64 = wilder_average(up.as_slice(), length);
            let avg_loss: i64 = wilder_average(down.as_slice(), length);
            RsiState {
                length,
                avg_gain,
                avg_loss,
                prev_close: closes[closes.len() - 1],
                initialized: true,
            }
        } else {
            RsiState { length, avg_gain: 0, avg_loss: 0, prev_close: 0, initialized: false }
        }
    }

    /// The state one bar later.
    pub fn step(&self, bar: &Bar) -> (next: RsiState)
        requires
            self.wf(),
            bar.in_range(),
        ensures
            next == self.advanced(*bar),
            next.wf(),
    {
        if !self.initialized {
            return *self;
        }
        let delta: i64 = bar.close - self.prev_close;
        let up: i64 = if delta > 0 {
            delta
        } else {
            0
        };
        let down: i64 = if delta < 0 {
            -delta
        } else {
            0
        };
        RsiState {
            length: self.length,
            avg_gain: wilder_next(self.avg_gain, up, self.length),
            avg_loss: wilder_next(self.avg_loss, down, self.length),
            prev_close: bar.close,
            initialized: true,
        }
    }

    /// The index that the state stands for.
    pub fn current(&self) -> (v: i64)
        requires
            self.wf(),
            self.initialized,
        ensures
            v == self.value(),
            0 <= v <= HUNDRED,
    {
        proof {
            lemma_rsi_bounded(self.avg_gain as int, self.avg_loss as int);
        }
        if self.avg_loss == 0 {
            HUNDRED
        } else {
            let num: i128 = HUNDRED as i128 * self.avg_gain as i128;
            div_floor(num, self.avg_gain as i128 + self.avg_loss as i128) as i64
        }
    }

    /// The index as it would stand after `bar`, leaving the state untouched.
    pub fn preview(&self, bar: &Bar) -> (v: Option<i64>)
        requires
            self.wf(),
            bar.in_range(),
        ensures
            lift(v) == self.previewed(*bar),
            v.is_some() ==> 0 <= v.unwrap() <= HUNDRED,
    {
        if self.initialized {
            Some(self.step(bar).current())
        } else {
            None
        }
    }

    /// Moves the state on by one bar.
    pub fn advance(&mut self, bar: &Bar)
        requires
            old(self).wf(),
            bar.in_range(),
        ensures
            *final(self) == old(self).advanced(*bar),
            final(self).wf(),
    {
        *self = self.step(bar);
    }
}

/// Warm-up on a series that is one close longer gives the state that one
/// advance from the warm-up on the shorter series gives.
pub proof fn lemma_rsi_warm_up_extends(closes: Seq<i64>, bar: Bar, length: usize)
    requires
        all_in_range(closes),
        bar.in_range(),
        RsiState::ready(closes.len(), length),
    ensures
        RsiState::warmed(closes.push(bar.close), length) == RsiState::warmed(
            closes,
            length,
        ).advanced(bar),
{
    let n = length as int;
    let g = gains(closes);
    let l = losses(closes);
    let d = bar.close - closes.last();
    assert(gains(closes.push(bar.close)) =~= g.push(gain(d) as i64));
    assert(losses(closes.push(bar.close)) =~= l.push(loss(d) as i64));
    lemma_wilder_avg_push(g, gain(d) as i64, n);
    lemma_wilder_avg_push(l, loss(d) as i64, n);
    lemma_wilder_avg_bounds(g, n, 0, SPAN_MAX as int);
    lemma_wilder_avg_bounds(l, n, 0, SPAN_MAX as int);
    lemma_wilder_between(wilder_avg(g, n), gain(d), n, 0, SPAN_MAX as int);
    lemma_wilder_between(wilder_avg(l, n), loss(d), n, 0, SPAN_MAX as int);
}

/// On a flat series, one whose closes are all equal, the index is one hundred.
pub proof fn lemma_rsi_flat(closes: Seq<i64>, length: usize)
    requires
        all_in_range(closes),
        RsiState::ready(closes.len(), length),
        forall|i: int| 0 <= i < closes.len() ==> #[trigger] closes[i] == closes[0],
    ensures
        RsiState::warmed(closes, length).avg_loss == 0,
        RsiState::warmed(closes, length).value() == HUNDRED,
{
    lemma_wilder_avg_constant(losses(closes), length as int, 0);
}

} // verus!
