//! Parabolic stop and reverse, after Wilder.
//!
//! The stop trails the price by moving a fraction, the acceleration factor, of
//! the way toward the trend's extreme point with every bar. The factor starts
//! at `start`, grows by `increment` whenever the trend makes a new extreme, and
//! never exceeds `max`. The stop never passes the prior bar's low in an upward
//! trend, nor its high in a downward one. When a bar breaches the stop, the
//! trend reverses: the stop jumps to the old trend's extreme point, the extreme
//! point restarts at the bar's own extreme, and the factor restarts at `start`.

use vstd::prelude::*;
use crate::bar::Bar;
use crate::fixed::all_in_range;
use crate::fixed::div_floor;
use crate::fixed::in_range;
use crate::fixed::larger;
use crate::fixed::smaller;
use crate::fixed::UNIT;
use crate::fixed::VALUE_MAX;

verus! {

/// The stop before clamping: the old stop moved the factor's share of the way
/// to the extreme point.
pub open spec fn raw_stop(sar: int, ep: int, af: int) -> int {
    sar + (af * (ep - sar)) / (UNIT as int)
}

/// For a factor between zero and one unit, the moved stop lies between the old
/// stop and the extreme point.
pub proof fn lemma_raw_stop_between(sar: int, ep: int, af: int)
    requires
        0 <= af <= UNIT,
    ensures
        smaller(sar, ep) <= raw_stop(sar, ep, af) <= larger(sar, ep),
{
    let d = ep - sar;
    let u = UNIT as int;
    let p = af * d;
    if d >= 0 {
        assert(0 <= p <= u * d) by (nonlinear_arith)
            requires
                0 <= af <= u,
                d >= 0,
                p == af * d,
        ;
        assert(0 <= p / u <= d) by (nonlinear_arith)
            requires
                0 <= p <= u * d,
                u > 0,
        ;
    } else {
        assert(u * d <= p <= 0) by (nonlinear_arith)
            requires
                0 <= af <= u,
                d < 0,
                p == af * d,
        ;
        assert(d <= p / u <= 0) by (nonlinear_arith)
            requires
                u * d <= p <= 0,
                u > 0,
        ;
    }
}

/// The stop and the side of the trend.
#[derive(Clone, Copy, Debug, PartialEq, Eq, Structural)]
pub struct PsarValue {
    pub sar: i64,
    pub is_long: bool,
}

/// The stop, the extreme point, the acceleration factor with its three
/// parameters, the side of the trend, and the prior bar's high and low.
#[derive(Clone, Copy, Debug, PartialEq, Eq, Structural)]
pub struct PsarState {
    pub sar: i64,
    pub ep: i64,
    pub af: i64,
    pub is_long: bool,
    pub start_af: i64,
    pub max_af: i64,
    pub inc_af: i64,
    pub prev_high: i64,
    pub prev_low: i64,
    pub initialized: bool,
}

impl Default for PsarState {
    /// A state that no history has seeded, with all factors zero.
    fn default() -> (s: Self)
        ensures
            s == PsarState::idle(0, 0, 0),
    {
        PsarState {
            sar: 0,
            ep: 0,
            af: 0,
            is_long: true,
            start_af: 0,
            max_af: 0,
            inc_af: 0,
            prev_high: 0,
            prev_low: 0,
            initialized: false,
        }
    }
}

impl PsarState {
    /// The three factors can drive the stop: none is negative, the start does
    /// not exceed the maximum, and neither the maximum nor the increment
    /// exceeds one unit.
    pub open spec fn valid_factors(start: i64, increment: i64, max: i64) -> bool {
        0 <= start <= max <= UNIT && 0 <= increment <= UNIT
    }

    /// A seeded state has valid factors, a factor between zero and the
    /// maximum, and admissible prices.
    pub open spec fn wf(&self) -> bool {
        self.initialized ==> {
            &&& Self::valid_factors(self.start_af, self.inc_af, self.max_af)
            &&& 0 <= self.af <= self.max_af
            &&& in_range(self.sar as int)
            &&& in_range(self.ep as int)
            &&& in_range(self.prev_high as int)
            &&& in_range(self.prev_low as int)
        }
    }

    /// The state of an instance that history could not seed.
    pub open spec fn idle(start: i64, increment: i64, max: i64) -> PsarState {
        PsarState {
            sar: 0,
            ep: 0,
            af: 0,
            is_long: true,
            start_af: start,
            max_af: max,
            inc_af: increment,
            prev_high: 0,
            prev_low: 0,
            initialized: false,
        }
    }

    /// History seeds the stop when the factors are valid and it holds two bars.
    pub open spec fn ready(total: nat, start: i64, increment: i64, max: i64) -> bool {
        Self::valid_factors(start, increment, max) && total >= 2
    }

    /// The state that the first two bars seed. The trend is upward where the
    /// second close is no lower than the first; the stop starts at the first
    /// bar's low, or high for a downward trend; the extreme point is the
    /// highest high, or lowest low, of the two bars.
    pub open spec fn seeded(
        highs: Seq<i64>,
        lows: Seq<i64>,
        closes: Seq<i64>,
        start: i64,
        increment: i64,
        max: i64,
    ) -> PsarState {
        let is_long = closes[1] >= closes[0];
        PsarState {
            sar: if is_long {
                lows[0]
            } else {
                highs[0]
            },
            ep: if is_long {
                larger(highs[0] as int, highs[1] as int) as i64
            } else {
                smaller(lows[0] as int, lows[1] as int) as i64
            },
            af: start,
            is_long,
            start_af: start,
            max_af: max,
            inc_af: increment,
            prev_high: highs[1],
            prev_low: lows[1],
            initialized: true,
        }
    }

    /// The state after warm-up on a series of bars: the seed, advanced over
    /// every bar after the first two.
    pub open spec fn warmed(
        highs: Seq<i64>,
        lows: Seq<i64>,
        closes: Seq<i64>,
        start: i64,
        increment: i64,
        max: i64,
    ) -> PsarState
        decreases closes.len(),
    {
        if !Self::ready(closes.len(), start, increment, max) {
            Self::idle(start, increment, max)
        } else if closes.len() == 2 {
            Self::seeded(highs, lows, closes, start, increment, max)
        } else {
            Self::warmed(
                highs.drop_last(),
                lows.drop_last(),
                closes.drop_last(),
                start,
                increment,
                max,
            ).advanced_by(highs.last(), lows.last())
        }
    }

    /// The factor after a new extreme: one increment more, but no more than the
    /// maximum.
    pub open spec fn ramped(self) -> int {
        smaller(self.af + self.inc_af, self.max_af as int)
    }

    /// The stop for the coming bar while the trend holds: the moved stop, kept
    /// from passing the prior bar's low in an upward trend, or its high in a
    /// downward one.
    pub open spec fn trailing_stop(self) -> int {
        let raw = raw_stop(self.sar as int, self.ep as int, self.af as int);
        if self.is_long {
            smaller(raw, self.prev_low as int)
        } else {
            larger(raw, self.prev_high as int)
        }
    }

    /// Whether a bar breaches the trailing stop.
    pub open spec fn breached_by(self, high: i64, low: i64) -> bool {
        if self.is_long {
            low < self.trailing_stop()
        } else {
            high > self.trailing_stop()
        }
    }

    /// The state one bar later, from the bar's high and low. An idle instance
    /// stays as it is.
    pub open spec fn advanced_by(self, high: i64, low: i64) -> PsarState {
        if !self.initialized {
            self
        } else if self.breached_by(high, low) {
            PsarState {
                sar: self.ep,
                ep: if self.is_long {
                    low
                } else {
                    high
                },
                af: self.start_af,
                is_long: !self.is_long,
                prev_high: high,
                prev_low: low,
                ..self
            }
        } else {
            let extends = if self.is_long {
                high > self.ep
            } else {
                low < self.ep
            };
            PsarState {
                sar: self.trailing_stop() as i64,
                ep: if extends {
                    if self.is_long {
                        high
                    } else {
                        low
                    }
                } else {
                    self.ep
                },
                af: if extends {
                    self.ramped() as i64
                } else {
                    self.af
                },
                prev_high: high,
                prev_low: low,
                ..self
            }
        }
    }

    /// The state one bar later.
    pub open spec fn advanced(self, bar: Bar) -> PsarState {
        self.advanced_by(bar.high, bar.low)
    }

    /// The stop and the trend that the state stands for.
    pub open spec fn value(self) -> PsarValue {
        PsarValue { sar: self.sar, is_long: self.is_long }
    }

    /// The values as they would stand after `bar`; nothing for an idle
    /// instance.
    pub open spec fn previewed(self, bar: Bar) -> Option<PsarValue> {
        if self.initialized {
            Some(self.advanced(bar).value())
        } else {
            None
        }
    }

    /// Seeds the state from a series of bars.
    pub fn warm_up(
        highs: &[i64],
        lows: &[i64],
        closes: &[i64],
        start: i64,
        increment: i64,
        max: i64,
    ) -> (state: PsarState)
        requires
            highs.len() == closes.len(),
            lows.len() == closes.len(),
            all_in_range(highs@),
            all_in_range(lows@),
            all_in_range(closes@),
        ensures
            state == Self::warmed(highs@, lows@, closes@, start, increment, max),
            state.wf(),
            state.start_af == start,
            state.inc_af == increment,
            state.max_af == max,
            state.initialized == Self::ready(closes@.len(), start, increment, max),
    {
        let valid: bool = 0 <= start && start <= max && max <= UNIT && 0 <= increment && increment
            <= UNIT;
        if !(valid && closes.len() >= 2) {
            return PsarState {
                sar: 0,
                ep: 0,
                af: 0,
                is_long: true,
                start_af: start,
                max_af: max,
                inc_af: increment,
                prev_high: 0,
                prev_low: 0,
                initialized: false,
            };
        }
        let is_long: bool = closes[1] >= closes[0];
        let mut state = PsarState {
            sar: if is_long {
                lows[0]
            } else {
                highs[0]
            },
            ep: if is_long {
                if highs[0] >= highs[1] {
                    highs[0]
                } else {
                    highs[1]
                }
            } else {
                if lows[0] <= lows[1] {
                    lows[0]
                } else {
                    lows[1]
                }
            },
            af: start,
            is_long,
            start_af: start,
            max_af: max,
            inc_af: increment,
            prev_high: highs[1],
            prev_low: lows[1],
            initialized: true,
        };
        let mut i: usize = 2;
        proof {
            assert(highs@.subrange(0, 2)[0] == highs@[0]);
            assert(highs@.subrange(0, 2)[1] == highs@[1]);
            assert(lows@.subrange(0, 2)[0] == lows@[0]);
            assert(lows@.subrange(0, 2)[1] == lows@[1]);
            assert(closes@.subrange(0, 2)[0] == closes@[0]);
            assert(closes@.subrange(0, 2)[1] == closes@[1]);
        }
        while i < closes.len()
            invariant
                2 <= i <= closes.len(),
                highs.len() == closes.len(),
                lows.len() == closes.len(),
                all_in_range(highs@),
                all_in_range(lows@),
                Self::valid_factors(start, increment, max),
                state == Self::warmed(
                    highs@.subrange(0, i as int),
                    lows@.subrange(0, i as int),
                    closes@.subrange(0, i as int),
                    start,
                    increment,
                    max,
                ),
                state.wf(),
                state.initialized,
                state.start_af == start,
                state.inc_af == increment,
                state.max_af == max,
            decreases closes.len() - i,
        {
            proof {
                assert(highs@.subrange(0, i + 1).drop_last() =~= highs@.subrange(0, i as int));
                assert(lows@.subrange(0, i + 1).drop_last() =~= lows@.subrange(0, i as int));
                assert(closes@.subrange(0, i + 1).drop_last() =~= closes@.subrange(0, i as int));
            }
            state = state.step_by(highs[i], lows[i]);
            i += 1;
        }
        proof {
            assert(highs@.subrange(0, closes.len() as int) =~= highs@);
            assert(lows@.subrange(0, closes.len() as int) =~= lows@);
            assert(closes@.subrange(0, closes.len() as int) =~= closes@);
        }
        state
    }

    /// The state one bar later, from the bar's high and low.
    pub fn step_by(&self, high: i64, low: i64) -> (next: PsarState)
        requires
            self.wf(),
            in_range(high as int),
            in_range(low as int),
        ensures
            next == self.advanced_by(high, low),
            next.wf(),
            next.initialized == self.initialized,
            next.start_af == self.start_af,
            next.inc_af == self.inc_af,
            next.max_af == self.max_af,
    {
        if !self.initialized {
            return *self;
        }
        proof {
            lemma_raw_stop_between(self.sar as int, self.ep as int, self.af as int);
            let d = self.ep - self.sar;
            let a = self.af as int;
            assert(-(1_000_000 * (2 * VALUE_MAX)) <= a * d <= 1_000_000 * (2 * VALUE_MAX))
                by (nonlinear_arith)
                requires
                    0 <= a <= 1_000_000,
                    -(2 * VALUE_MAX) <= d <= 2 * VALUE_MAX,
            ;
        }
        let moved: i128 = div_floor(
            (self.af as i128) * (self.ep as i128 - self.sar as i128),
            UNIT as i128,
        );
        let raw: i64 = (self.sar as i128 + moved) as i64;
        let stop: i64 = if self.is_long {
            if raw <= self.prev_low {
                raw
            } else {
                self.prev_low
            }
        } else {
            if raw >= self.prev_high {
                raw
            } else {
                self.prev_high
            }
        };
        let breached: bool = if self.is_long {
            low < stop
        } else {
            high > stop
        };
        if breached {
            PsarState {
                sar: self.ep,
                ep: if self.is_long {
                    low
                } else {
                    high
                },
                af: self.start_af,
                is_long: !self.is_long,
                start_af: self.start_af,
                max_af: self.max_af,
                inc_af: self.inc_af,
                prev_high: high,
                prev_low: low,
                initialized: true,
            }
        } else {
            let extends: bool = if self.is_long {
                high > self.ep
            } else {
                low < self.ep
            };
            let ramped: i64 = if self.af + self.inc_af <= self.max_af {
                self.af + self.inc_af
            } else {
                self.max_af
            };
            PsarState {
                sar: stop,
                ep: if extends {
                    if self.is_long {
                        high
                    } else {
                        low
                    }
                } else {
                    self.ep
                },
                af: if extends {
                    ramped
                } else {
                    self.af
                },
                is_long: self.is_long,
                start_af: self.start_af,
                max_af: self.max_af,
                inc_af: self.inc_af,
                prev_high: high,
                prev_low: low,
                initialized: true,
            }
        }
    }

    /// The state one bar later.
    pub fn step(&self, bar: &Bar) -> (next: PsarState)
        requires
            self.wf(),
            bar.in_range(),
        ensures
            next == self.advanced(*bar),
            next.wf(),
            next.initialized == self.initialized,
            next.start_af == self.start_af,
            next.inc_af == self.inc_af,
            next.max_af == self.max_af,
    {
        self.step_by(bar.high, bar.low)
    }

    /// The values as they would stand after `bar`, leaving the state untouched.
    pub fn preview(&self, bar: &Bar) -> (v: Option<PsarValue>)
        requires
            self.wf(),
            bar.in_range(),
        ensures
            v == self.previewed(*bar),
    {
        if self.initialized {
            let next = self.step(bar);
            Some(PsarValue { sar: next.sar, is_long: next.is_long })
        } else {
            None
        }
    }
}

/// Warm-up keeps the factors it was given, and seeds the state exactly when
/// history is long enough and the factors are valid.
pub proof fn lemma_psar_warmed_key(
    highs: Seq<i64>,
    lows: Seq<i64>,
    closes: Seq<i64>,
    start: i64,
    increment: i64,
    max: i64,
)
    ensures
        PsarState::warmed(highs, lows, closes, start, increment, max).start_af == start,
        PsarState::warmed(highs, lows, closes, start, increment, max).inc_af == increment,
        PsarState::warmed(highs, lows, closes, start, increment, max).max_af == max,
        PsarState::warmed(highs, lows, closes, start, increment, max).initialized
            == PsarState::ready(closes.len(), start, increment, max),
    decreases closes.len(),
{
    if PsarState::ready(closes.len(), start, increment, max) && closes.len() != 2 {
        lemma_psar_warmed_key(
            highs.drop_last(),
            lows.drop_last(),
            closes.drop_last(),
            start,
            increment,
            max,
        );
    }
}

/// Warm-up on a series that is one bar longer gives the state that one advance
/// from the warm-up on the shorter series gives.
pub proof fn lemma_psar_warm_up_extends(
    highs: Seq<i64>,
    lows: Seq<i64>,
    closes: Seq<i64>,
    bar: Bar,
    start: i64,
    increment: i64,
    max: i64,
)
    requires
        highs.len() == closes.len(),
        lows.len() == closes.len(),
        PsarState::ready(closes.len(), start, increment, max),
    ensures
        PsarState::warmed(
            highs.push(bar.high),
            lows.push(bar.low),
            closes.push(bar.close),
            start,
            increment,
            max,
        ) == PsarState::warmed(highs, lows, closes, start, increment, max).advanced(bar),
{
    assert(highs.push(bar.high).drop_last() =~= highs);
    assert(lows.push(bar.low).drop_last() =~= lows);
    assert(closes.push(bar.close).drop_last() =~= closes);
}

/// A reversal puts the stop at the old trend's extreme point; while the trend
/// holds, the stop in an upward trend does not fall, provided it lay no higher
/// than the extreme point and the prior low, and the stop in a downward trend
/// does not rise under the mirrored condition.
pub proof fn lemma_psar_stop(state: PsarState, bar: Bar)
    requires
        state.wf(),
        state.initialized,
        bar.in_range(),
    ensures
        state.advanced(bar).is_long != state.is_long ==> state.advanced(bar).sar == state.ep,
        state.advanced(bar).is_long == state.is_long && state.is_long && state.sar <= state.ep
            && state.sar <= state.prev_low ==> state.advanced(bar).sar >= state.sar,
        state.advanced(bar).is_long == state.is_long && !state.is_long && state.sar >= state.ep
            && state.sar >= state.prev_high ==> state.advanced(bar).sar <= state.sar,
{
    lemma_raw_stop_between(state.sar as int, state.ep as int, state.af as int);
}

} // verus!
