//! Exponential moving average of the close.

use vstd::prelude::*;
use crate::bar::Bar;
use crate::fixed::all_in_range;
use crate::fixed::ema_next;
use crate::fixed::ema_step;
use crate::fixed::in_range;
use crate::fixed::lemma_ema_between;
use crate::fixed::lift;

verus! {

/// The exponential filter run over a whole series: it starts at the first
/// element and takes one step for each further one. Zero for an empty series.
pub open spec fn ema_of(xs: Seq<i64>, n: int) -> int
    decreases xs.len(),
{
    if xs.len() == 0 {
        0
    } else if xs.len() == 1 {
        xs[0] as int
    } else {
        ema_step(ema_of(xs.drop_last(), n), xs.last() as int, n)
    }
}

/// The filter over admissible values is an admissible value.
pub proof fn lemma_ema_of_in_range(xs: Seq<i64>, n: int)
    requires
        n >= 1,
        all_in_range(xs),
    ensures
        in_range(ema_of(xs, n)),
    decreases xs.len(),
{
    if xs.len() >= 2 {
        lemma_ema_of_in_range(xs.drop_last(), n);
        lemma_ema_between(ema_of(xs.drop_last(), n), xs.last() as int, n);
    }
}

/// One more element moves the filter by one step.
pub proof fn lemma_ema_of_push(xs: Seq<i64>, x: i64, n: int)
    requires
        xs.len() >= 1,
    ensures
        ema_of(xs.push(x), n) == ema_step(ema_of(xs, n), x as int, n),
{
    assert(xs.push(x).drop_last() =~= xs);
}

/// The filter run over a series.
pub fn ema_over(xs: &[i64], n: usize) -> (v: i64)
    requires
        n >= 1,
        all_in_range(xs@),
    ensures
        v == ema_of(xs@, n as int),
        in_range(v as int),
{
    if xs.len() == 0 {
        return 0;
    }
    let mut v: i64 = xs[0];
    let mut i: usize = 1;
    assert(xs@.subrange(0, 1) =~= seq![xs@[0]]);
    while i < xs.len()
        invariant
            n >= 1,
            1 <= i <= xs.len(),
            all_in_range(xs@),
            v == ema_of(xs@.subrange(0, i as int), n as int),
            in_range(v as int),
        decreases xs.len() - i,
    {
        proof {
            lemma_ema_of_push(xs@.subrange(0, i as int), xs@[i as int], n as int);
            assert(xs@.subrange(0, i as int).push(xs@[i as int]) =~= xs@.subrange(0, i + 1));
        }
        v = ema_next(v, xs[i], n);
        i += 1;
    }
    assert(xs@.subrange(0, xs.len() as int) =~= xs@);
    v
}

/// The filtered close.
#[derive(Clone, Copy, Debug, PartialEq, Eq, Structural)]
pub struct EmaState {
    pub length: usize,
    pub value: i64,
    pub initialized: bool,
}

impl EmaState {
    /// A seeded state has a valid lookback and an admissible value.
    pub open spec fn wf(&self) -> bool {
        self.initialized ==> self.length >= 1 && in_range(self.value as int)
    }

    /// The state of an instance that history could not seed.
    pub open spec fn idle(length: usize) -> EmaState {
        EmaState { length, value: 0, initialized: false }
    }

    /// History seeds the average when it holds more closes than the lookback.
    pub open spec fn ready(len: nat, length: usize) -> bool {
        length >= 1 && len > length
    }

    /// The state after warm-up on a series of closes.
    pub open spec fn warmed(closes: Seq<i64>, length: usize) -> EmaState {
        if Self::ready(closes.len(), length) {
            EmaState { length, value: ema_of(closes, length as int) as i64, initialized: true }
        } else {
            Self::idle(length)
        }
    }

    /// The state one bar later. An idle instance stays as it is.
    pub open spec fn advanced(self, bar: Bar) -> EmaState {
        if self.initialized {
            EmaState {
                length: self.length,
                value: ema_step(self.value as int, bar.close as int, self.length as int) as i64,
                initialized: true,
            }
        } else {
            self
        }
    }

    /// The average as it would stand after `bar`; nothing for an idle instance.
    pub open spec fn previewed(self, bar: Bar) -> Option<int> {
        if self.initialized {
            Some(self.advanced(bar).value as int)
        } else {
            None
        }
    }

    /// Seeds the state from a series of closes.
    pub fn warm_up(closes: &[i64], length: usize) -> (state: EmaState)
        requires
            all_in_range(closes@),
        ensures
            state == Self::warmed(closes@, length),
            state.wf(),
    {
        if length >= 1 && closes.len() > length {
            EmaState { length, value: ema_over(closes, length), initialized: true }
        } else {
            EmaState { length, value: 0, initialized: false }
        }
    }

    /// The state one bar later.
    pub fn step(&self, bar: &Bar) -> (next: EmaState)
        requires
            self.wf(),
            bar.in_range(),
        ensures
            next == self.advanced(*bar),
            next.wf(),
    {
        if !self.initialized {
            return *self;
        }
        EmaState {
            length: self.length,
            value: ema_next(self.value, bar.close, self.length),
            initialized: true,
        }
    }

    /// The average as it would stand after `bar`, leaving the state untouched.
    pub fn preview(&self, bar: &Bar) -> (v: Option<i64>)
        requires
            self.wf(),
            bar.in_range(),
        ensures
            lift(v) == self.previewed(*bar),
    {
        if self.initialized {
            Some(self.step(bar).value)
        } else {
            None
        }
    }

    /// Moves the state on by one bar.
    pub fn advance(&mut self, bar: &Bar)
        requires
            old(self).wf(),
            bar.in_range(),
        ensures
            *final(self) == old(self).advanced(*bar),
            final(self).wf(),
    {
        *self = self.step(bar);
    }
}

/// Warm-up on a series that is one close longer gives the state that one
/// advance from the warm-up on the shorter series gives.
pub proof fn lemma_ema_warm_up_extends(closes: Seq<i64>, bar: Bar, length: usize)
    requires
        all_in_range(closes),
        bar.in_range(),
        EmaState::ready(closes.len(), length),
    ensures
        EmaState::warmed(closes.push(bar.close), length) == EmaState::warmed(
            closes,
            length,
        ).advanced(bar),
{
    lemma_ema_of_push(closes, bar.close, length as int);
    lemma_ema_of_in_range(closes, length as int);
}

} // verus!
