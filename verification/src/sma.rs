//! Simple moving average over the window of one of the history's series: of
//! the closes for the price average, of the volumes for the volume average.

use vstd::prelude::*;
use crate::bar::Bar;
use crate::bar::Source;
use crate::fixed::div_floor;
use crate::fixed::VALUE_MAX;
use crate::history::last_n;
use crate::history::lemma_last_n_push_bounded;
use crate::history::push_bounded;
use crate::history::HistoryBuffer;
use crate::series::lemma_sum_bounds;
use crate::series::sum;
use crate::window::lemma_sum_window_push;
use crate::window::window_with;

verus! {

/// The sum of the window of one of the history's series.
#[derive(Clone, Copy, Debug, PartialEq, Eq, Structural)]
pub struct SmaState {
    pub source: Source,
    pub length: usize,
    pub sum: i128,
    pub initialized: bool,
}

impl SmaState {
    /// The state holds the sum over the window of a series that is long enough.
    pub open spec fn tracks(&self, series: Seq<i64>) -> bool {
        self.initialized ==> {
            &&& 1 <= self.length <= series.len()
            &&& self.sum == sum(last_n(series, self.length as nat))
        }
    }

    /// The state of an instance that history could not seed.
    pub open spec fn idle(source: Source, length: usize) -> SmaState {
        SmaState { source, length, sum: 0, initialized: false }
    }

    /// The kept history seeds the average when it holds a full window.
    pub open spec fn ready(len: nat, length: usize) -> bool {
        1 <= length <= len
    }

    /// The state after warm-up on the kept history of a series.
    pub open spec fn warmed(series: Seq<i64>, source: Source, length: usize) -> SmaState {
        if Self::ready(series.len(), length) {
            SmaState {
                source,
                length,
                sum: sum(last_n(series, length as nat)) as i128,
                initialized: true,
            }
        } else {
            Self::idle(source, length)
        }
    }

    /// The state once `x` has arrived after the kept history. An idle
    /// instance stays as it is.
    pub open spec fn advanced(self, series: Seq<i64>, x: i64) -> SmaState {
        if self.initialized && series.len() >= self.length {
            SmaState {
                source: self.source,
                length: self.length,
                sum: sum(window_with(series, x, self.length as nat)) as i128,
                initialized: true,
            }
        } else {
            self
        }
    }

    /// The mean that the state stands for.
    pub open spec fn value(self) -> int {
        (self.sum as int) / (self.length as int)
    }

    /// The mean as it would stand once `x` has arrived; nothing for an idle
    /// instance.
    pub open spec fn previewed(self, series: Seq<i64>, x: i64) -> Option<int> {
        if self.initialized && series.len() >= self.length {
            Some(self.advanced(series, x).value())
        } else {
            None
        }
    }

    /// Seeds the state from the kept history.
    pub fn warm_up(history: &HistoryBuffer, source: Source, length: usize) -> (state: SmaState)
        requires
            history.wf(),
        ensures
            state == Self::warmed(history.series(source), source, length),
            state.tracks(history.series(source)),
    {
        if 1 <= length && length <= history.len() {
            SmaState { source, length, sum: history.sum_last(source, length), initialized: true }
        } else {
            SmaState { source, length, sum: 0, initialized: false }
        }
    }

    /// The state one bar later, read against the history before the bar.
    pub fn step(&self, history: &HistoryBuffer, bar: &Bar) -> (next: SmaState)
        requires
            history.wf(),
            bar.in_range(),
            self.tracks(history.series(self.source)),
        ensures
            next == self.advanced(history.series(self.source), bar.field(self.source)),
            next.tracks(
                push_bounded(
                    history.series(self.source),
                    bar.field(self.source),
                    history.spec_capacity(),
                ),
            ),
            next.initialized ==> -next.length * VALUE_MAX <= next.sum <= next.length * VALUE_MAX,
    {
        if !self.initialized {
            return *self;
        }
        let len: usize = history.len();
        let leaving: i64 = history.at(self.source, len - self.length);
        let arriving: i64 = bar.get(self.source);
        proof {
            let s = history.series(self.source);
            let n = self.length as nat;
            lemma_sum_window_push(s, arriving, n);
            lemma_last_n_push_bounded(s, arriving, n, history.spec_capacity());
            lemma_sum_bounds(last_n(s, n), -VALUE_MAX as int, VALUE_MAX as int);
            lemma_sum_bounds(window_with(s, arriving, n), -VALUE_MAX as int, VALUE_MAX as int);
            assert(n * VALUE_MAX <= 4096 * VALUE_MAX) by (nonlinear_arith)
                requires
                    n <= 4096,
            ;
        }
        SmaState {
            source: self.source,
            length: self.length,
            sum: self.sum - leaving as i128 + arriving as i128,
            initialized: true,
        }
    }

    /// The mean that the state stands for.
    pub fn current(&self) -> (v: i64)
        requires
            self.initialized,
            self.length >= 1,
            -self.length * VALUE_MAX <= self.sum <= self.length * VALUE_MAX,
        ensures
            v == self.value(),
    {
        proof {
            let s = self.sum as int;
            let n = self.length as int;
            let m = VALUE_MAX as int;
            assert(-m <= s / n <= m) by (nonlinear_arith)
                requires
                    n >= 1,
                    -n * m <= s <= n * m,
            ;
        }
        div_floor(self.sum, self.length as i128) as i64
    }

    /// The mean as it would stand after `bar`, leaving the state untouched.
    pub fn preview(&self, history: &HistoryBuffer, bar: &Bar) -> (v: Option<i64>)
        requires
            history.wf(),
            bar.in_range(),
            self.tracks(history.series(self.source)),
        ensures
            crate::fixed::lift(v) == self.previewed(
                history.series(self.source),
                bar.field(self.source),
            ),
    {
        if self.initialized {
            Some(self.step(history, bar).current())
        } else {
            None
        }
    }
}

} // verus!
