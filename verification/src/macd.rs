//! Moving average convergence/divergence: a fast and a slow exponential
//! average of the close, and an exponential average of their difference.

use vstd::prelude::*;
use crate::bar::Bar;
use crate::ema::ema_of;
use crate::ema::lemma_ema_of_in_range;
use crate::ema::lemma_ema_of_push;
use crate::fixed::all_in_range;
use crate::fixed::ema_next;
use crate::fixed::ema_step;
use crate::fixed::in_range;
use crate::fixed::in_span;
use crate::fixed::lemma_ema_between;

verus! {

/// The signal line over a whole series: it starts at zero and takes one filter
/// step toward the difference of the two averages for every close.
pub open spec fn macd_signal_of(closes: Seq<i64>, fast: int, slow: int, signal: int) -> int
    decreases closes.len(),
{
    if closes.len() == 0 {
        0
    } else {
        ema_step(
            macd_signal_of(closes.drop_last(), fast, slow, signal),
            ema_of(closes, fast) - ema_of(closes, slow),
            signal,
        )
    }
}

/// The signal line over admissible closes is the difference of two
/// admissible values at most.
pub proof fn lemma_macd_signal_in_span(closes: Seq<i64>, fast: int, slow: int, signal: int)
    requires
        fast >= 1,
        slow >= 1,
        signal >= 1,
        all_in_range(closes),
    ensures
        in_span(macd_signal_of(closes, fast, slow, signal)),
    decreases closes.len(),
{
    if closes.len() > 0 {
        lemma_macd_signal_in_span(closes.drop_last(), fast, slow, signal);
        lemma_ema_of_in_range(closes, fast);
        lemma_ema_of_in_range(closes, slow);
        lemma_ema_between(
            macd_signal_of(closes.drop_last(), fast, slow, signal),
            ema_of(closes, fast) - ema_of(closes, slow),
            signal,
        );
    }
}

/// The three lines of the indicator.
#[derive(Clone, Copy, Debug, PartialEq, Eq, Structural)]
pub struct MacdValue {
    pub macd: i64,
    pub signal: i64,
    pub histogram: i64,
}

/// The two filtered closes and the filtered difference between them.
#[derive(Clone, Copy, Debug, PartialEq, Eq, Structural)]
pub struct MacdState {
    pub fast: usize,
    pub slow: usize,
    pub signal: usize,
    pub ema_fast: i64,
    pub ema_slow: i64,
    pub signal_val: i64,
    pub initialized: bool,
}

impl MacdState {
    /// A seeded state has three valid lookbacks, admissible averages, and a
    /// signal within the largest span.
    pub open spec fn wf(&self) -> bool {
        self.initialized ==> {
            &&& self.fast >= 1
            &&& self.slow >= 1
            &&& self.signal >= 1
            &&& in_range(self.ema_fast as int)
            &&& in_range(self.ema_slow as int)
            &&& in_span(self.signal_val as int)
        }
    }

    /// The state of an instance that history could not seed.
    pub open spec fn idle(fast: usize, slow: usize, signal: usize) -> MacdState {
        MacdState {
            fast,
            slow,
            signal,
            ema_fast: 0,
            ema_slow: 0,
            signal_val: 0,
            initialized: false,
        }
    }

    /// History seeds the indicator when it holds more closes than the slow and
    /// the signal lookback together.
    pub open spec fn ready(len: nat, fast: usize, slow: usize, signal: usize) -> bool {
        fast >= 1 && slow >= 1 && signal >= 1 && len > slow + signal
    }

    /// The state after warm-up on a series of closes.
    pub open spec fn warmed(
        closes: Seq<i64>,
        fast: usize,
        slow: usize,
        signal: usize,
    ) -> MacdState {
        if Self::ready(closes.len(), fast, slow, signal) {
            MacdState {
                fast,
                slow,
                signal,
                ema_fast: ema_of(closes, fast as int) as i64,
                ema_slow: ema_of(closes, slow as int) as i64,
                signal_val: macd_signal_of(closes, fast as int, slow as int, signal as int) as i64,
                initialized: true,
            }
        } else {
            Self::idle(fast, slow, signal)
        }
    }

    /// The state one bar later. An idle instance stays as it is.
    pub open spec fn advanced(self, bar: Bar) -> MacdState {
        if self.initialized {
            let f = ema_step(self.ema_fast as int, bar.close as int, self.fast as int);
            let s = ema_step(self.ema_slow as int, bar.close as int, self.slow as int);
            MacdState {
                fast: self.fast,
                slow: self.slow,
                signal: self.signal,
                ema_fast: f as i64,
                ema_slow: s as i64,
                signal_val: ema_step(self.signal_val as int, f - s, self.signal as int) as i64,
                initialized: true,
            }
        } else {
            self
        }
    }

    /// The lines that the state stands for: the difference of the two averages,
    /// the signal, and the difference of these two.
    pub open spec fn value(self) -> MacdValue {
        MacdValue {
            macd: (self.ema_fast - self.ema_slow) as i64,
            signal: self.signal_val,
            histogram: (self.ema_fast - self.ema_slow - self.signal_val) as i64,
        }
    }

    /// The lines as they would stand after `bar`; nothing for an idle instance.
    pub open spec fn previewed(self, bar: Bar) -> Option<MacdValue> {
        if self.initialized {
            Some(self.advanced(bar).value())
        } else {
            None
        }
    }

    /// Seeds the state from a series of closes.
    pub fn warm_up(closes: &[i64], fast: usize, slow: usize, signal: usize) -> (state: MacdState)
        requires
            all_in_range(closes@),
        ensures
            state == Self::warmed(closes@, fast, slow, signal),
            state.wf(),
    {
        let lookback: u128 = slow as u128 + signal as u128;
        let ready: bool = fast >= 1 && slow >= 1 && signal >= 1 && closes.len() as u128 > lookback;
        if !ready {
            return MacdState {
                fast,
                slow,
                signal,
                ema_fast: 0,
                ema_slow: 0,
                signal_val: 0,
                initialized: false,
            };
        }
        let mut ema_fast: i64 = closes[0];
        let mut ema_slow: i64 = closes[0];
        let mut signal_val: i64 = 0;
        let mut i: usize = 1;
        proof {
            assert(closes@.subrange(0, 1) =~= seq![closes@[0]]);
            assert(closes@.subrange(0, 1).drop_last() =~= Seq::<i64>::empty());
            assert(macd_signal_of(Seq::<i64>::empty(), fast as int, slow as int, signal as int)
                == 0);
            assert(ema_step(0, 0, signal as int) == 0) by (nonlinear_arith)
                requires
                    signal >= 1,
            ;
        }
        while i < closes.len()
            invariant
                fast >= 1,
                slow >= 1,
                signal >= 1,
                1 <= i <= closes.len(),
                all_in_range(closes@),
                ema_fast == ema_of(closes@.subrange(0, i as int), fast as int),
                ema_slow == ema_of(closes@.subrange(0, i as int), slow as int),
                signal_val == macd_signal_of(
                    closes@.subrange(0, i as int),
                    fast as int,
                    slow as int,
                    signal as int,
                ),
                in_range(ema_fast as int),
                in_range(ema_slow as int),
                in_span(signal_val as int),
            decreases closes.len() - i,
        {
            proof {
                let prefix = closes@.subrange(0, i as int);
                let longer = closes@.subrange(0, i + 1);
                assert(prefix.push(closes@[i as int]) =~= longer);
                assert(longer.drop_last() =~= prefix);
                lemma_ema_of_push(prefix, closes@[i as int], fast as int);
                lemma_ema_of_push(prefix, closes@[i as int], slow as int);
            }
            ema_fast = ema_next(ema_fast, closes[i], fast);
            ema_slow = ema_next(ema_slow, closes[i], slow);
            signal_val = ema_next(signal_val, ema_fast - ema_slow, signal);
            i += 1;
        }
        assert(closes@.subrange(0, closes.len() as int) =~= closes@);
        MacdState { fast, slow, signal, ema_fast, ema_slow, signal_val, initialized: true }
    }

    /// The state one bar later.
    pub fn step(&self, bar: &Bar) -> (next: MacdState)
        requires
            self.wf(),
            bar.in_range(),
        ensures
            next == self.advanced(*bar),
            next.wf(),
    {
        if !self.initialized {
            return *self;
        }
        let ema_fast: i64 = ema_next(self.ema_fast, bar.close, self.fast);
        let ema_slow: i64 = ema_next(self.ema_slow, bar.close, self.slow);
        let signal_val: i64 = ema_next(self.signal_val, ema_fast - ema_slow, self.signal);
        MacdState {
            fast: self.fast,
            slow: self.slow,
            signal: self.signal,
            ema_fast,
            ema_slow,
            signal_val,
            initialized: true,
        }
    }

    /// The lines that the state stands for.
    pub fn current(&self) -> (v: MacdValue)
        requires
            self.wf(),
            self.initialized,
        ensures
            v == self.value(),
    {
        let macd: i64 = self.ema_fast - self.ema_slow;
        MacdValue { macd, signal: self.signal_val, histogram: macd - self.signal_val }
    }

    /// The lines as they would stand after `bar`, leaving the state untouched.
    pub fn preview(&self, bar: &Bar) -> (v: Option<MacdValue>)
        requires
            self.wf(),
            bar.in_range(),
        ensures
            v == self.previewed(*bar),
    {
        if self.initialized {
            Some(self.step(bar).current())
        } else {
            None
        }
    }

    /// Moves the state on by one bar.
    pub fn advance(&mut self, bar: &Bar)
        requires
            old(self).wf(),
            bar.in_range(),
        ensures
            *final(self) == old(self).advanced(*bar),
            final(self).wf(),
    {
        *self = self.step(bar);
    }
}

/// Warm-up on a series that is one close longer gives the state that one
/// advance from the warm-up on the shorter series gives.
pub proof fn lemma_macd_warm_up_extends(
    closes: Seq<i64>,
    bar: Bar,
    fast: usize,
    slow: usize,
    signal: usize,
)
    requires
        all_in_range(closes),
        bar.in_range(),
        MacdState::ready(closes.len(), fast, slow, signal),
    ensures
        MacdState::warmed(closes.push(bar.close), fast, slow, signal) == MacdState::warmed(
            closes,
            fast,
            slow,
            signal,
        ).advanced(bar),
{
    let longer = closes.push(bar.close);
    assert(longer.drop_last() =~= closes);
    lemma_ema_of_push(closes, bar.close, fast as int);
    lemma_ema_of_push(closes, bar.close, slow as int);
    lemma_ema_of_in_range(closes, fast as int);
    lemma_ema_of_in_range(closes, slow as int);
    lemma_ema_of_in_range(longer, fast as int);
    lemma_ema_of_in_range(longer, slow as int);
    lemma_macd_signal_in_span(closes, fast as int, slow as int, signal as int);
    lemma_macd_signal_in_span(longer, fast as int, slow as int, signal as int);
}

} // verus!
