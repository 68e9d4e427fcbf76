//! Weighted moving average of the close, and the Hull average built from two
//! of them.

use vstd::prelude::*;
use crate::bar::Bar;
use crate::fixed::div_floor;
use crate::fixed::floor_sqrt;
use crate::fixed::isqrt;
use crate::fixed::lift;
use crate::fixed::VALUE_MAX;
use crate::history::last_n;
use crate::history::HistoryBuffer;
use crate::window::lemma_weighted_mean_bounds;
use crate::window::lemma_weighted_sum_bounds;
use crate::window::weighted_mean;
use crate::window::weighted_sum_last;
use crate::window::window_with;

verus! {

/// The weighted mean of the window of the `n` most recent closes once `x` has
/// arrived after the kept history.
pub fn weighted_mean_with(history: &HistoryBuffer, n: usize, x: i64) -> (v: i64)
    requires
        history.wf(),
        1 <= n <= history.spec_len() + 1,
        crate::fixed::in_range(x as int),
    ensures
        v == weighted_mean(window_with(history.closes(), x, n as nat)),
        -2 * VALUE_MAX <= v <= 2 * VALUE_MAX,
{
    let before: i128 = weighted_sum_last(history, n - 1);
    proof {
        let w = window_with(history.closes(), x, n as nat);
        assert(w =~= last_n(history.closes(), (n - 1) as nat).push(x));
        assert(w.drop_last() =~= last_n(history.closes(), (n - 1) as nat));
        lemma_weighted_mean_bounds(w);
        lemma_weighted_sum_bounds(w);
        let k = n as int;
        let m = VALUE_MAX as int;
        let xi = x as int;
        assert(-(4097 * m) <= xi * k <= 4097 * m) by (nonlinear_arith)
            requires
                -m <= xi <= m,
                1 <= k <= 4097,
        ;
        assert(0 <= (k - 1) * (k - 1) * m <= 4096 * 4096 * m) by (nonlinear_arith)
            requires
                1 <= k <= 4097,
                m >= 0,
        ;
        assert(k * (k + 1) <= 4097 * 4098) by (nonlinear_arith)
            requires
                1 <= k <= 4097,
        ;
        assert(k * (k + 1) >= 2) by (nonlinear_arith)
            requires
                1 <= k,
        ;
    }
    let total: i128 = before + (x as i128) * (n as i128);
    let weights: i128 = (n as i128) * (n as i128 + 1) / 2;
    div_floor(total, weights) as i64
}

/// The weighted mean of the last `n` closes of the kept history.
pub fn weighted_mean_last(history: &HistoryBuffer, n: usize) -> (v: i64)
    requires
        history.wf(),
        1 <= n <= history.spec_len(),
    ensures
        v == weighted_mean(last_n(history.closes(), n as nat)),
        -2 * VALUE_MAX <= v <= 2 * VALUE_MAX,
{
    let total: i128 = weighted_sum_last(history, n);
    proof {
        let w = last_n(history.closes(), n as nat);
        lemma_weighted_mean_bounds(w);
        let k = n as int;
        let m = VALUE_MAX as int;
        assert(0 <= k * k * m <= 4096 * 4096 * m) by (nonlinear_arith)
            requires
                1 <= k <= 4096,
                m >= 0,
        ;
        assert(2 <= k * (k + 1) <= 4097 * 4098) by (nonlinear_arith)
            requires
                1 <= k <= 4097,
        ;
    }
    let weights: i128 = (n as i128) * (n as i128 + 1) / 2;
    div_floor(total, weights) as i64
}

/// The weighted mean of the window of closes.
#[derive(Clone, Copy, Debug, PartialEq, Eq, Structural)]
pub struct WmaState {
    pub length: usize,
    pub value: i64,
    pub initialized: bool,
}

impl WmaState {
    /// The kept history, of `kept` bars, holds a full window.
    pub open spec fn wf(&self, kept: nat) -> bool {
        self.initialized ==> 1 <= self.length <= kept
    }

    /// The state of an instance that history could not seed.
    pub open spec fn idle(length: usize) -> WmaState {
        WmaState { length, value: 0, initialized: false }
    }

    /// The kept history seeds the average when it holds a full window.
    pub open spec fn ready(len: nat, length: usize) -> bool {
        1 <= length <= len
    }

    /// The state after warm-up on the kept closes.
    pub open spec fn warmed(closes: Seq<i64>, length: usize) -> WmaState {
        if Self::ready(closes.len(), length) {
            WmaState {
                length,
                value: weighted_mean(last_n(closes, length as nat)) as i64,
                initialized: true,
            }
        } else {
            Self::idle(length)
        }
    }

    /// The state once `close` has arrived after the kept closes. An idle
    /// instance stays as it is.
    pub open spec fn advanced(self, closes: Seq<i64>, close: i64) -> WmaState {
        if self.initialized && closes.len() >= self.length {
            WmaState {
                length: self.length,
                value: weighted_mean(window_with(closes, close, self.length as nat)) as i64,
                initialized: true,
            }
        } else {
            self
        }
    }

    /// The average as it would stand once `close` has arrived; nothing for an
    /// idle instance.
    pub open spec fn previewed(self, closes: Seq<i64>, close: i64) -> Option<int> {
        if self.initialized && closes.len() >= self.length {
            Some(self.advanced(closes, close).value as int)
        } else {
            None
        }
    }

    /// Seeds the state from the kept history.
    pub fn warm_up(history: &HistoryBuffer, length: usize) -> (state: WmaState)
        requires
            history.wf(),
        ensures
            state == Self::warmed(history.closes(), length),
            state.wf(history.spec_len()),
    {
        if 1 <= length && length <= history.len() {
            WmaState { length, value: weighted_mean_last(history, length), initialized: true }
        } else {
            WmaState { length, value: 0, initialized: false }
        }
    }

    /// The state one bar later, read against the history before the bar.
    pub fn step(&self, history: &HistoryBuffer, bar: &Bar) -> (next: WmaState)
        requires
            history.wf(),
            bar.in_range(),
            self.wf(history.spec_len()),
        ensures
            next == self.advanced(history.closes(), bar.close),
            next.initialized == self.initialized,
            next.length == self.length,
    {
        if !self.initialized {
            return *self;
        }
        WmaState {
            length: self.length,
            value: weighted_mean_with(history, self.length, bar.close),
            initialized: true,
        }
    }

    /// The average as it would stand after `bar`, leaving the state untouched.
    pub fn preview(&self, history: &HistoryBuffer, bar: &Bar) -> (v: Option<i64>)
        requires
            history.wf(),
            bar.in_range(),
            self.wf(history.spec_len()),
        ensures
            lift(v) == self.previewed(history.closes(), bar.close),
    {
        if self.initialized {
            Some(self.step(history, bar).value)
        } else {
            None
        }
    }
}

/// The weighted means of the half window and of the full window of closes.
#[derive(Clone, Copy, Debug, PartialEq, Eq, Structural)]
pub struct HmaState {
    pub length: usize,
    pub wma_half: i64,
    pub wma_full: i64,
    pub initialized: bool,
}

impl HmaState {
    /// The kept history, of `kept` bars, holds a full window, and the two
    /// means are of admissible size.
    pub open spec fn wf(&self, kept: nat) -> bool {
        self.initialized ==> {
            &&& 2 <= self.length <= kept
            &&& -2 * VALUE_MAX <= self.wma_half <= 2 * VALUE_MAX
            &&& -2 * VALUE_MAX <= self.wma_full <= 2 * VALUE_MAX
        }
    }

    /// The state of an instance that history could not seed.
    pub open spec fn idle(length: usize) -> HmaState {
        HmaState { length, wma_half: 0, wma_full: 0, initialized: false }
    }

    /// History seeds the average when it holds the lookback and its square
    /// root more, and the kept history holds a full window.
    pub open spec fn ready(total: nat, kept: nat, length: usize) -> bool {
        &&& 2 <= length <= kept
        &&& total >= length + floor_sqrt(length as int)
    }

    /// The state after warm-up on the kept closes of a history of `total` bars.
    pub open spec fn warmed(closes: Seq<i64>, total: nat, length: usize) -> HmaState {
        if Self::ready(total, closes.len(), length) {
            HmaState {
                length,
                wma_half: weighted_mean(last_n(closes, (length / 2) as nat)) as i64,
                wma_full: weighted_mean(last_n(closes, length as nat)) as i64,
                initialized: true,
            }
        } else {
            Self::idle(length)
        }
    }

    /// The state once `close` has arrived after the kept closes. An idle
    /// instance stays as it is.
    pub open spec fn advanced(self, closes: Seq<i64>, close: i64) -> HmaState {
        if self.initialized && closes.len() >= self.length {
            HmaState {
                length: self.length,
                wma_half: weighted_mean(
                    window_with(closes, close, (self.length / 2) as nat),
                ) as i64,
                wma_full: weighted_mean(window_with(closes, close, self.length as nat)) as i64,
                initialized: true,
            }
        } else {
            self
        }
    }

    /// The average that the state stands for: twice the half-window mean less
    /// the full-window mean.
    pub open spec fn value(self) -> int {
        2 * self.wma_half - self.wma_full
    }

    /// The average as it would stand once `close` has arrived; nothing for an
    /// idle instance.
    pub open spec fn previewed(self, closes: Seq<i64>, close: i64) -> Option<int> {
        if self.initialized && closes.len() >= self.length {
            Some(self.advanced(closes, close).value())
        } else {
            None
        }
    }

    /// Seeds the state from the kept history of `total` bars.
    pub fn warm_up(history: &HistoryBuffer, total: usize, length: usize) -> (state: HmaState)
        requires
            history.wf(),
        ensures
            state == Self::warmed(history.closes(), total as nat, length),
            state.wf(history.spec_len()),
    {
        let root: i128 = isqrt(length as i128);
        if 2 <= length && length <= history.len() && total as i128 >= length as i128 + root {
            HmaState {
                length,
                wma_half: weighted_mean_last(history, length / 2),
                wma_full: weighted_mean_last(history, length),
                initialized: true,
            }
        } else {
            HmaState { length, wma_half: 0, wma_full: 0, initialized: false }
        }
    }

    /// The state one bar later, read against the history before the bar.
    pub fn step(&self, history: &HistoryBuffer, bar: &Bar) -> (next: HmaState)
        requires
            history.wf(),
            bar.in_range(),
            self.wf(history.spec_len()),
        ensures
            next == self.advanced(history.closes(), bar.close),
            next.initialized == self.initialized,
            next.length == self.length,
            next.initialized ==> -2 * VALUE_MAX <= next.wma_half <= 2 * VALUE_MAX,
            next.initialized ==> -2 * VALUE_MAX <= next.wma_full <= 2 * VALUE_MAX,
    {
        if !self.initialized {
            return *self;
        }
        HmaState {
            length: self.length,
            wma_half: weighted_mean_with(history, self.length / 2, bar.close),
            wma_full: weighted_mean_with(history, self.length, bar.close),
            initialized: true,
        }
    }

    /// The average as it would stand after `bar`, leaving the state untouched.
    pub fn preview(&self, history: &HistoryBuffer, bar: &Bar) -> (v: Option<i64>)
        requires
            history.wf(),
            bar.in_range(),
            self.wf(history.spec_len()),
        ensures
            lift(v) == self.previewed(history.closes(), bar.close),
    {
        if self.initialized {
            let next = self.step(history, bar);
            Some(2 * next.wma_half - next.wma_full)
        } else {
            None
        }
    }
}

} // verus!
