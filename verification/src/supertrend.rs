//! SuperTrend: two bands around the bar's midpoint, an average true range
//! apart, that ratchet toward the price, and the trend that the close's
//! crossing of them decides.

use vstd::prelude::*;
use crate::bar::Bar;
use crate::fixed::all_in_range;
use crate::fixed::div_floor;
use crate::fixed::in_range;
use crate::fixed::quot;
use crate::fixed::true_range;
use crate::fixed::true_range_of;
use crate::fixed::wilder;
use crate::fixed::wilder_next;
use crate::fixed::SPAN_MAX;
use crate::fixed::UNIT;
use crate::series::lemma_sum_bounds;
use crate::series::sum;
use crate::series::sum_of;
use crate::series::true_ranges;
use crate::series::true_ranges_of;

verus! {

/// The side of the market that the close last settled on.
#[derive(Clone, Copy, Debug, PartialEq, Eq, Structural)]
pub enum Trend {
    Up,
    Down,
}

/// The upper basic band of a bar: its midpoint plus the multiplied range.
pub open spec fn basic_upper(high: int, low: int, multiplier: int, atr: int) -> int {
    (high + low) / 2 + quot(multiplier * atr, UNIT as int)
}

/// The lower basic band of a bar: its midpoint less the multiplied range.
pub open spec fn basic_lower(high: int, low: int, multiplier: int, atr: int) -> int {
    (high + low) / 2 - quot(multiplier * atr, UNIT as int)
}

/// The upper band after a bar. It takes the basic band where that is lower, or
/// where the previous close had risen above the band; else it holds.
pub open spec fn next_upper(upper: int, basic: int, prev_close: int) -> int {
    if basic < upper || prev_close > upper {
        basic
    } else {
        upper
    }
}

/// The lower band after a bar. It takes the basic band where that is higher, or
/// where the previous close had fallen below the band; else it holds.
pub open spec fn next_lower(lower: int, basic: int, prev_close: int) -> int {
    if basic > lower || prev_close < lower {
        basic
    } else {
        lower
    }
}

/// The trend after a bar: it turns down when the close falls below the lower
/// band, and up when the close rises above the upper band.
pub open spec fn next_trend(trend: Trend, close: int, upper: int, lower: int) -> Trend {
    match trend {
        Trend::Up => if close < lower {
            Trend::Down
        } else {
            Trend::Up
        },
        Trend::Down => if close > upper {
            Trend::Up
        } else {
            Trend::Down
        },
    }
}

/// The trend, both bands, and the line: the band on the trend's side.
#[derive(Clone, Copy, Debug, PartialEq, Eq, Structural)]
pub struct SuperTrendValue {
    pub trend: Trend,
    pub upper: i128,
    pub lower: i128,
    pub line: i128,
}

/// The smoothed true range, the two bands, the trend, and the last close.
#[derive(Clone, Copy, Debug, PartialEq, Eq, Structural)]
pub struct SuperTrendState {
    pub length: usize,
    pub multiplier: i64,
    pub atr: i64,
    pub upper: i128,
    pub lower: i128,
    pub trend: Trend,
    pub prev_close: i64,
    pub initialized: bool,
}

/// Largest magnitude that a band can reach.
pub open spec fn band_max() -> int {
    0x100_0000_0000_0000_0000_0000_0000_0000
}

/// The basic bands of an admissible bar lie within the largest band.
pub proof fn lemma_basic_band_bounds(high: int, low: int, multiplier: int, atr: int)
    requires
        in_range(high),
        in_range(low),
        i64::MIN <= multiplier <= i64::MAX,
        0 <= atr <= SPAN_MAX,
    ensures
        -band_max() <= basic_upper(high, low, multiplier, atr) <= band_max(),
        -band_max() <= basic_lower(high, low, multiplier, atr) <= band_max(),
        -band_max() <= multiplier * atr <= band_max(),
{
    let p = multiplier * atr;
    let b = 18_446_744_073_709_551_616_000_000_000_000_000int;
    assert(-b <= p <= b) by (nonlinear_arith)
        requires
            -0x8000_0000_0000_0000 <= multiplier <= 0x8000_0000_0000_0000,
            0 <= atr <= 2_000_000_000_000_000,
            p == multiplier * atr,
            b == 18_446_744_073_709_551_616_000_000_000_000_000int,
    ;
    let u = UNIT as int;
    assert(-b <= p / u <= b) by (nonlinear_arith)
        requires
            -b <= p <= b,
            b >= 0,
            u == 1_000_000,
    ;
}

impl SuperTrendState {
    /// A seeded state has a valid lookback, a range that is a magnitude, an
    /// admissible last close, and bands within the largest band.
    pub open spec fn wf(&self) -> bool {
        self.initialized ==> {
            &&& self.length >= 1
            &&& 0 <= self.atr <= SPAN_MAX
            &&& in_range(self.prev_close as int)
            &&& -band_max() <= self.upper <= band_max()
            &&& -band_max() <= self.lower <= band_max()
        }
    }

    /// The close that the state last saw lies on the trend's side of the
    /// trend's band.
    pub open spec fn settled(&self) -> bool {
        match self.trend {
            Trend::Up => self.prev_close >= self.lower,
            Trend::Down => self.prev_close <= self.upper,
        }
    }

    /// The band on the trend's side: the lower one while the trend is up, the
    /// upper one while it is down.
    pub open spec fn active_band(&self) -> int {
        match self.trend {
            Trend::Up => self.lower as int,
            Trend::Down => self.upper as int,
        }
    }

    /// The state of an instance that history could not seed.
    pub open spec fn idle(length: usize, multiplier: i64) -> SuperTrendState {
        SuperTrendState {
            length,
            multiplier,
            atr: 0,
            upper: 0,
            lower: 0,
            trend: Trend::Up,
            prev_close: 0,
            initialized: false,
        }
    }

    /// History seeds the overlay when it holds more bars than the lookback.
    pub open spec fn ready(len: nat, length: usize) -> bool {
        length >= 1 && len > length
    }

    /// The state that the first `length + 1` bars seed: the mean of their true
    /// ranges, the basic bands of the last of them, and an upward trend.
    pub open spec fn seeded(
        highs: Seq<i64>,
        lows: Seq<i64>,
        closes: Seq<i64>,
        length: usize,
        multiplier: i64,
    ) -> SuperTrendState {
        let n = length as int;
        let atr = sum(true_ranges(highs, lows, closes).subrange(0, n)) / n;
        SuperTrendState {
            length,
            multiplier,
            atr: atr as i64,
            upper: basic_upper(highs[n] as int, lows[n] as int, multiplier as int, atr) as i128,
            lower: basic_lower(highs[n] as int, lows[n] as int, multiplier as int, atr) as i128,
            trend: Trend::Up,
            prev_close: closes[n],
            initialized: true,
        }
    }

    /// The state after warm-up on a series of bars: the seed, advanced over
    /// every bar after the first `length + 1`.
    pub open spec fn warmed(
        highs: Seq<i64>,
        lows: Seq<i64>,
        closes: Seq<i64>,
        length: usize,
        multiplier: i64,
    ) -> SuperTrendState
        decreases closes.len(),
    {
        if !Self::ready(closes.len(), length) {
            Self::idle(length, multiplier)
        } else if closes.len() == length + 1 {
            Self::seeded(highs, lows, closes, length, multiplier)
        } else {
            Self::warmed(
                highs.drop_last(),
                lows.drop_last(),
                closes.drop_last(),
                length,
                multiplier,
            ).advanced_by(highs.last(), lows.last(), closes.last())
        }
    }

    /// The state one bar later, from the bar's high, low and close. An idle
    /// instance stays as it is.
    pub open spec fn advanced_by(self, high: i64, low: i64, close: i64) -> SuperTrendState {
        if self.initialized {
            let atr = wilder(
                self.atr as int,
                true_range(high as int, low as int, self.prev_close as int),
                self.length as int,
            );
            let upper = next_upper(
                self.upper as int,
                basic_upper(high as int, low as int, self.multiplier as int, atr),
                self.prev_close as int,
            );
            let lower = next_lower(
                self.lower as int,
                basic_lower(high as int, low as int, self.multiplier as int, atr),
                self.prev_close as int,
            );
            SuperTrendState {
                length: self.length,
                multiplier: self.multiplier,
                atr: atr as i64,
                upper: upper as i128,
                lower: lower as i128,
                trend: next_trend(self.trend, close as int, upper, lower),
                prev_close: close,
                initialized: true,
            }
        } else {
            self
        }
    }

    /// The state one bar later.
    pub open spec fn advanced(self, bar: Bar) -> SuperTrendState {
        self.advanced_by(bar.high, bar.low, bar.close)
    }

    /// The values that the state stands for.
    pub open spec fn value(self) -> SuperTrendValue {
        SuperTrendValue {
            trend: self.trend,
            upper: self.upper,
            lower: self.lower,
            line: self.active_band() as i128,
        }
    }

    /// The values as they would stand after `bar`; nothing for an idle instance.
    pub open spec fn previewed(self, bar: Bar) -> Option<SuperTrendValue> {
        if self.initialized {
            Some(self.advanced(bar).value())
        } else {
            None
        }
    }

    /// The two basic bands of a bar.
    fn basic_bands(high: i64, low: i64, multiplier: i64, atr: i64) -> (r: (i128, i128))
        requires
            in_range(high as int),
            in_range(low as int),
            0 <= atr <= SPAN_MAX,
        ensures
            r.0 == basic_upper(high as int, low as int, multiplier as int, atr as int),
            r.1 == basic_lower(high as int, low as int, multiplier as int, atr as int),
            -band_max() <= r.0 <= band_max(),
            -band_max() <= r.1 <= band_max(),
    {
        proof {
            lemma_basic_band_bounds(high as int, low as int, multiplier as int, atr as int);
        }
        let mid: i128 = div_floor(high as i128 + low as i128, 2);
        let offset: i128 = div_floor(multiplier as i128 * atr as i128, UNIT as i128);
        (mid + offset, mid - offset)
    }

    /// Seeds the state from a series of bars.
    pub fn warm_up(
        highs: &[i64],
        lows: &[i64],
        closes: &[i64],
        length: usize,
        multiplier: i64,
    ) -> (state: SuperTrendState)
        requires
            highs.len() == closes.len(),
            lows.len() == closes.len(),
            all_in_range(highs@),
            all_in_range(lows@),
            all_in_range(closes@),
        ensures
            state == Self::warmed(highs@, lows@, closes@, length, multiplier),
            state.wf(),
            state.length == length,
            state.multiplier == multiplier,
            state.initialized == Self::ready(closes@.len(), length),
    {
        if !(length >= 1 && closes.len() > length) {
            return SuperTrendState {
                length,
                multiplier,
                atr: 0,
                upper: 0,
                lower: 0,
                trend: Trend::Up,
                prev_close: 0,
                initialized: false,
            };
        }
        let trs = true_ranges_of(highs, lows, closes);
        proof {
            lemma_sum_bounds(trs@.subrange(0, length as int), 0, SPAN_MAX as int);
            let s = sum(trs@.subrange(0, length as int));
            let n = length as int;
            assert(0 <= s / n <= SPAN_MAX) by (nonlinear_arith)
                requires
                    n >= 1,
                    n * 0 <= s <= n * SPAN_MAX,
            ;
            assert(true_ranges(
                highs@.subrange(0, length + 1),
                lows@.subrange(0, length + 1),
                closes@.subrange(0, length + 1),
            ).subrange(0, n) =~= trs@.subrange(0, n));
        }
        let atr: i64 = div_floor(sum_of(trs.as_slice(), 0, length), length as i128) as i64;
        let (upper, lower) = Self::basic_bands(highs[length], lows[length], multiplier, atr);
        let mut state = SuperTrendState {
            length,
            multiplier,
            atr,
            upper,
            lower,
            trend: Trend::Up,
            prev_close: closes[length],
            initialized: true,
        };
        let mut i: usize = length + 1;
        while i < closes.len()
            invariant
                length >= 1,
                length < i <= closes.len(),
                highs.len() == closes.len(),
                lows.len() == closes.len(),
                all_in_range(highs@),
                all_in_range(lows@),
                all_in_range(closes@),
                state == Self::warmed(
                    highs@.subrange(0, i as int),
                    lows@.subrange(0, i as int),
                    closes@.subrange(0, i as int),
                    length,
                    multiplier,
                ),
                state.wf(),
                state.initialized,
                state.length == length,
                state.multiplier == multiplier,
            decreases closes.len() - i,
        {
            proof {
                assert(highs@.subrange(0, i + 1).drop_last() =~= highs@.subrange(0, i as int));
                assert(lows@.subrange(0, i + 1).drop_last() =~= lows@.subrange(0, i as int));
                assert(closes@.subrange(0, i + 1).drop_last() =~= closes@.subrange(0, i as int));
            }
            state = state.step_by(highs[i], lows[i], closes[i]);
            i += 1;
        }
        proof {
            assert(highs@.subrange(0, closes.len() as int) =~= highs@);
            assert(lows@.subrange(0, closes.len() as int) =~= lows@);
            assert(closes@.subrange(0, closes.len() as int) =~= closes@);
        }
        state
    }

    /// The state one bar later, from the bar's high, low and close.
    pub fn step_by(&self, high: i64, low: i64, close: i64) -> (next: SuperTrendState)
        requires
            self.wf(),
            in_range(high as int),
            in_range(low as int),
            in_range(close as int),
        ensures
            next == self.advanced_by(high, low, close),
            next.wf(),
    {
        if !self.initialized {
            return *self;
        }
        let tr: i64 = true_range_of(high, low, self.prev_close);
        let atr: i64 = wilder_next(self.atr, tr, self.length);
        let (basic_up, basic_low) = Self::basic_bands(high, low, self.multiplier, atr);
        let upper: i128 = if basic_up < self.upper || self.prev_close as i128 > self.upper {
            basic_up
        } else {
            self.upper
        };
        let lower: i128 = if basic_low > self.lower || (self.prev_close as i128) < self.lower {
            basic_low
        } else {
            self.lower
        };
        let trend: Trend = match self.trend {
            Trend::Up => if (close as i128) < lower {
                Trend::Down
            } else {
                Trend::Up
            },
            Trend::Down => if close as i128 > upper {
                Trend::Up
            } else {
                Trend::Down
            },
        };
        SuperTrendState {
            length: self.length,
            multiplier: self.multiplier,
            atr,
            upper,
            lower,
            trend,
            prev_close: close,
            initialized: true,
        }
    }

    /// The state one bar later.
    pub fn step(&self, bar: &Bar) -> (next: SuperTrendState)
        requires
            self.wf(),
            bar.in_range(),
        ensures
            next == self.advanced(*bar),
            next.wf(),
    {
        self.step_by(bar.high, bar.low, bar.close)
    }

    /// The values that the state stands for.
    pub fn current(&self) -> (v: SuperTrendValue)
        requires
            self.wf(),
            self.initialized,
        ensures
            v == self.value(),
    {
        let line: i128 = match self.trend {
            Trend::Up => self.lower,
            Trend::Down => self.upper,
        };
        SuperTrendValue { trend: self.trend, upper: self.upper, lower: self.lower, line }
    }

    /// The values as they would stand after `bar`, leaving the state untouched.
    pub fn preview(&self, bar: &Bar) -> (v: Option<SuperTrendValue>)
        requires
            self.wf(),
            bar.in_range(),
        ensures
            v == self.previewed(*bar),
    {
        if self.initialized {
            Some(self.step(bar).current())
        } else {
            None
        }
    }

    /// Moves the state on by one bar.
    pub fn advance(&mut self, bar: &Bar)
        requires
            old(self).wf(),
            bar.in_range(),
        ensures
            *final(self) == old(self).advanced(*bar),
            final(self).wf(),
    {
        *self = self.step(bar);
    }
}

/// Warm-up keeps the parameters it was given, and seeds the state exactly when
/// history is long enough.
pub proof fn lemma_supertrend_warmed_key(
    highs: Seq<i64>,
    lows: Seq<i64>,
    closes: Seq<i64>,
    length: usize,
    multiplier: i64,
)
    ensures
        SuperTrendState::warmed(highs, lows, closes, length, multiplier).length == length,
        SuperTrendState::warmed(highs, lows, closes, length, multiplier).multiplier == multiplier,
        SuperTrendState::warmed(highs, lows, closes, length, multiplier).initialized
            == SuperTrendState::ready(closes.len(), length),
    decreases closes.len(),
{
    if SuperTrendState::ready(closes.len(), length) && closes.len() != length + 1 {
        lemma_supertrend_warmed_key(
            highs.drop_last(),
            lows.drop_last(),
            closes.drop_last(),
            length,
            multiplier,
        );
    }
}

/// Warm-up on a series that is one bar longer gives the state that one advance
/// from the warm-up on the shorter series gives.
pub proof fn lemma_supertrend_warm_up_extends(
    highs: Seq<i64>,
    lows: Seq<i64>,
    closes: Seq<i64>,
    bar: Bar,
    length: usize,
    multiplier: i64,
)
    requires
        highs.len() == closes.len(),
        lows.len() == closes.len(),
        SuperTrendState::ready(closes.len(), length),
    ensures
        SuperTrendState::warmed(
            highs.push(bar.high),
            lows.push(bar.low),
            closes.push(bar.close),
            length,
            multiplier,
        ) == SuperTrendState::warmed(highs, lows, closes, length, multiplier).advanced(bar),
{
    assert(highs.push(bar.high).drop_last() =~= highs);
    assert(lows.push(bar.low).drop_last() =~= lows);
    assert(closes.push(bar.close).drop_last() =~= closes);
}

/// The trend turns only on a bar whose close crosses the opposite band: below
/// the lower band out of an upward trend, above the upper band out of a
/// downward one.
pub proof fn lemma_supertrend_flip_only_on_cross(state: SuperTrendState, bar: Bar)
    requires
        state.wf(),
        state.initialized,
        bar.in_range(),
    ensures
        state.advanced(bar).trend != state.trend ==> match state.trend {
            Trend::Up => bar.close < state.advanced(bar).lower,
            Trend::Down => bar.close > state.advanced(bar).upper,
        },
        state.advanced(bar).trend == state.trend ==> state.advanced(bar).settled(),
        state.advanced(bar).wf(),
{
    let n = state.length as int;
    let atr = wilder(
        state.atr as int,
        true_range(bar.high as int, bar.low as int, state.prev_close as int),
        n,
    );
    crate::fixed::lemma_true_range_bounds(
        bar.high as int,
        bar.low as int,
        state.prev_close as int,
    );
    crate::fixed::lemma_wilder_between(
        state.atr as int,
        true_range(bar.high as int, bar.low as int, state.prev_close as int),
        n,
        0,
        SPAN_MAX as int,
    );
    lemma_basic_band_bounds(bar.high as int, bar.low as int, state.multiplier as int, atr);
}

/// While the trend holds through a bar, the band on the trend's side does not
/// move against the trend, provided the close before the bar lay on the trend's
/// side of that band: the lower band does not fall in an upward trend, the
/// upper band does not rise in a downward one.
pub proof fn lemma_supertrend_ratchet_step(state: SuperTrendState, bar: Bar)
    requires
        state.wf(),
        state.initialized,
        state.settled(),
        bar.in_range(),
        state.advanced(bar).trend == state.trend,
    ensures
        state.trend == Trend::Up ==> state.advanced(bar).active_band() >= state.active_band(),
        state.trend == Trend::Down ==> state.advanced(bar).active_band() <= state.active_band(),
        state.advanced(bar).settled(),
{
    lemma_supertrend_flip_only_on_cross(state, bar);
}

/// Across consecutive bars through which the trend holds, the band on the
/// trend's side never moves against the trend.
pub proof fn lemma_supertrend_ratchet(state: SuperTrendState, first: Bar, second: Bar)
    requires
        state.wf(),
        state.initialized,
        first.in_range(),
        second.in_range(),
        state.advanced(first).trend == state.trend,
        state.advanced(first).advanced(second).trend == state.trend,
    ensures
        state.trend == Trend::Up ==> state.advanced(first).advanced(second).active_band()
            >= state.advanced(first).active_band(),
        state.trend == Trend::Down ==> state.advanced(first).advanced(second).active_band()
            <= state.advanced(first).active_band(),
{
    lemma_supertrend_flip_only_on_cross(state, first);
    let mid = state.advanced(first);
    crate::fixed::lemma_true_range_bounds(
        first.high as int,
        first.low as int,
        state.prev_close as int,
    );
    crate::fixed::lemma_wilder_between(
        state.atr as int,
        true_range(first.high as int, first.low as int, state.prev_close as int),
        state.length as int,
        0,
        SPAN_MAX as int,
    );
    assert(mid.wf());
    lemma_supertrend_ratchet_step(mid, second);
}

} // verus!
