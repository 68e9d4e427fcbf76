//! Momentum of the close, and Williams %R.

use vstd::prelude::*;
use crate::bar::Bar;
use crate::fixed::div_floor;
use crate::fixed::in_range;
use crate::fixed::lift;
use crate::fixed::lift_wide;
use crate::fixed::quot;
use crate::fixed::HUNDRED;
use crate::history::last_n;
use crate::history::HistoryBuffer;
use crate::window::extremes_with;
use crate::window::highest;
use crate::window::lowest;

verus! {

/// Momentum keeps nothing but its lookback: it reads the kept history.
#[derive(Clone, Copy, Debug, PartialEq, Eq, Structural)]
pub struct MomState {
    pub length: usize,
    pub initialized: bool,
}

impl MomState {
    /// A seeded state finds in the kept history, of `kept` bars, the close
    /// that it reads.
    pub open spec fn wf(&self, kept: nat) -> bool {
        self.initialized ==> self.length < kept
    }

    /// The kept history seeds the momentum when it holds more closes than the
    /// lookback.
    pub open spec fn ready(kept: nat, length: usize) -> bool {
        kept > length
    }

    /// The state after warm-up on a kept history of `kept` bars.
    pub open spec fn warmed(kept: nat, length: usize) -> MomState {
        MomState { length, initialized: Self::ready(kept, length) }
    }

    /// The close less the close that stands `length` places before the kept
    /// history's last one; nothing for an idle instance.
    pub open spec fn previewed(self, closes: Seq<i64>, close: i64) -> Option<int> {
        if self.initialized && closes.len() > self.length {
            Some(close - closes[closes.len() - self.length - 1])
        } else {
            None
        }
    }

    /// Seeds the state from the kept history.
    pub fn warm_up(history: &HistoryBuffer, length: usize) -> (state: MomState)
        ensures
            state == Self::warmed(history.spec_len(), length),
            state.wf(history.spec_len()),
    {
        MomState { length, initialized: history.len() > length }
    }

    /// The momentum as it would stand after `bar`.
    pub fn preview(&self, history: &HistoryBuffer, bar: &Bar) -> (v: Option<i64>)
        requires
            history.wf(),
            bar.in_range(),
        ensures
            lift(v) == self.previewed(history.closes(), bar.close),
    {
        let len: usize = history.len();
        if self.initialized && len > self.length {
            Some(bar.close - history.close_at(len - self.length - 1))
        } else {
            None
        }
    }
}

/// Williams %R of a close within a range: minus one hundred times the
/// distance of the close below the top, over the range; zero for an empty
/// range.
pub open spec fn williams_r(close: int, top: int, bottom: int) -> int {
    if top == bottom {
        0
    } else {
        quot(-HUNDRED * (top - close), top - bottom)
    }
}

/// For a close within the range, %R lies between minus one hundred and zero.
pub proof fn lemma_williams_r_bounded(close: int, top: int, bottom: int)
    requires
        bottom <= close <= top,
    ensures
        -HUNDRED <= williams_r(close, top, bottom) <= 0,
{
    if top != bottom {
        let d = top - bottom;
        let x = top - close;
        let h = HUNDRED as int;
        let num = -h * x;
        assert(-h * d <= num <= 0) by (nonlinear_arith)
            requires
                0 <= x <= d,
                h >= 0,
                num == -h * x,
        ;
        assert(-h <= num / d <= 0) by (nonlinear_arith)
            requires
                d > 0,
                -h * d <= num <= 0,
        ;
    }
}

/// Williams %R keeps nothing but its lookback: it reads the kept history.
#[derive(Clone, Copy, Debug, PartialEq, Eq, Structural)]
pub struct WrState {
    pub length: usize,
    pub initialized: bool,
}

impl WrState {
    /// A seeded state finds a full window in the kept history, of `kept`
    /// bars.
    pub open spec fn wf(&self, kept: nat) -> bool {
        self.initialized ==> self.length <= kept
    }

    /// The kept history seeds %R when it holds a full window.
    pub open spec fn ready(kept: nat, length: usize) -> bool {
        length <= kept
    }

    /// The state after warm-up on a kept history of `kept` bars.
    pub open spec fn warmed(kept: nat, length: usize) -> WrState {
        WrState { length, initialized: Self::ready(kept, length) }
    }

    /// %R of the bar's close within the range of the bar and the `length` kept
    /// bars before it; nothing for an idle instance.
    pub open spec fn previewed(self, highs: Seq<i64>, lows: Seq<i64>, bar: Bar) -> Option<int> {
        if self.initialized && highs.len() >= self.length {
            Some(
                williams_r(
                    bar.close as int,
                    highest(last_n(highs, self.length as nat).push(bar.high)),
                    lowest(last_n(lows, self.length as nat).push(bar.low)),
                ),
            )
        } else {
            None
        }
    }

    /// Seeds the state from the kept history.
    pub fn warm_up(history: &HistoryBuffer, length: usize) -> (state: WrState)
        ensures
            state == Self::warmed(history.spec_len(), length),
            state.wf(history.spec_len()),
    {
        WrState { length, initialized: length <= history.len() }
    }

    /// %R as it would stand after `bar`.
    pub fn preview(&self, history: &HistoryBuffer, bar: &Bar) -> (v: Option<i128>)
        requires
            history.wf(),
            bar.in_range(),
        ensures
            lift_wide(v) == self.previewed(history.highs(), history.lows(), *bar),
            v.is_some() && bar.ordered() ==> -HUNDRED <= v.unwrap() <= 0,
    {
        if self.initialized && history.len() >= self.length {
            let (top, bottom) = extremes_with(history, self.length, bar.high, bar.low);
            proof {
                if bar.ordered() {
                    lemma_williams_r_bounded(bar.close as int, top as int, bottom as int);
                }
            }
            if top == bottom {
                Some(0)
            } else {
                let num: i128 = -(HUNDRED as i128) * (top as i128 - bar.close as i128);
                Some(div_floor(num, top as i128 - bottom as i128))
            }
        } else {
            None
        }
    }
}

} // verus!
