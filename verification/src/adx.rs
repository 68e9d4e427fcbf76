//! Average directional index with its two directional indicators.

use vstd::prelude::*;
use crate::bar::Bar;
use crate::fixed::all_in_range;
use crate::fixed::div_floor;
use crate::fixed::in_range;
use crate::fixed::lemma_wilder_between;
use crate::fixed::magnitude;
use crate::fixed::true_range;
use crate::fixed::true_range_of;
use crate::fixed::wilder;
use crate::fixed::wilder_next;
use crate::fixed::HUNDRED;
use crate::fixed::SPAN_MAX;
use crate::series::all_magnitudes;
use crate::series::lemma_sum_bounds;
use crate::series::lemma_wilder_avg_bounds;
use crate::series::lemma_wilder_avg_push;
use crate::series::sum_of;
use crate::series::true_ranges;
use crate::series::true_ranges_of;
use crate::series::wilder_avg;

verus! {

/// Upward directional movement between two bars: the rise of the high, where it
/// is positive and exceeds the fall of the low; else zero.
pub open spec fn plus_move(high: int, low: int, prev_high: int, prev_low: int) -> int {
    let up = high - prev_high;
    let down = prev_low - low;
    if up > down && up > 0 {
        up
    } else {
        0
    }
}

/// Downward directional movement between two bars: the fall of the low, where
/// it is positive and exceeds the rise of the high; else zero.
pub open spec fn minus_move(high: int, low: int, prev_high: int, prev_low: int) -> int {
    let up = high - prev_high;
    let down = prev_low - low;
    if down > up && down > 0 {
        down
    } else {
        0
    }
}

/// Upward movements of consecutive bars.
pub open spec fn plus_moves(highs: Seq<i64>, lows: Seq<i64>) -> Seq<i64> {
    Seq::new(
        if highs.len() == 0 {
            0nat
        } else {
            (highs.len() - 1) as nat
        },
        |i: int|
            plus_move(
                highs[i + 1] as int,
                lows[i + 1] as int,
                highs[i] as int,
                lows[i] as int,
            ) as i64,
    )
}

/// Downward movements of consecutive bars.
pub open spec fn minus_moves(highs: Seq<i64>, lows: Seq<i64>) -> Seq<i64> {
    Seq::new(
        if highs.len() == 0 {
            0nat
        } else {
            (highs.len() - 1) as nat
        },
        |i: int|
            minus_move(
                highs[i + 1] as int,
                lows[i + 1] as int,
                highs[i] as int,
                lows[i] as int,
            ) as i64,
    )
}

/// A directional indicator: one hundred times the smoothed movement over the
/// smoothed true range; zero when that range is zero.
pub open spec fn directional_index(movement: int, range: int) -> int {
    if range == 0 {
        0
    } else {
        (HUNDRED * movement) / range
    }
}

/// The directional movement index of two directional indicators: one hundred
/// times their distance over their sum; zero when the sum is zero.
pub open spec fn dx(plus: int, minus: int) -> int {
    if plus + minus == 0 {
        0
    } else {
        (HUNDRED * magnitude(plus - minus)) / (plus + minus)
    }
}

/// The movement index of three smoothed values.
pub open spec fn dx_smoothed(range: int, plus: int, minus: int) -> int {
    dx(directional_index(plus, range), directional_index(minus, range))
}

/// The movement index at the end of three series of equal length.
pub open spec fn dx_at(trs: Seq<i64>, pdms: Seq<i64>, ndms: Seq<i64>, n: int) -> int {
    dx_smoothed(wilder_avg(trs, n), wilder_avg(pdms, n), wilder_avg(ndms, n))
}

/// The average index at the end of three series of equal length. The movement
/// index of bar `2n - 1` starts it; each later bar smooths it by one Wilder
/// step.
pub open spec fn adx_avg(trs: Seq<i64>, pdms: Seq<i64>, ndms: Seq<i64>, n: int) -> int
    decreases trs.len(),
{
    if n < 1 || trs.len() <= n {
        0
    } else {
        let before = adx_avg(trs.drop_last(), pdms.drop_last(), ndms.drop_last(), n);
        let now = dx_at(trs, pdms, ndms, n);
        if trs.len() == 2 * n - 1 {
            now
        } else if trs.len() >= 2 * n {
            wilder(before, now, n)
        } else {
            before
        }
    }
}

/// A directional indicator of a movement that is not negative is not negative,
/// and no larger than one hundred times the largest span.
pub proof fn lemma_directional_index_bounds(movement: int, range: int)
    requires
        0 <= movement <= SPAN_MAX,
        0 <= range,
    ensures
        0 <= directional_index(movement, range) <= HUNDRED * SPAN_MAX,
{
    if range != 0 {
        let num = HUNDRED * movement;
        assert(0 <= num <= HUNDRED * SPAN_MAX) by (nonlinear_arith)
            requires
                0 <= movement <= SPAN_MAX,
                num == HUNDRED * movement,
        ;
        assert(0 <= num / range <= num) by (nonlinear_arith)
            requires
                0 <= num,
                range >= 1,
        ;
    }
}

/// The movement index of two indicators that are not negative lies between
/// zero and one hundred.
pub proof fn lemma_dx_bounds(plus: int, minus: int)
    requires
        0 <= plus,
        0 <= minus,
    ensures
        0 <= dx(plus, minus) <= HUNDRED,
{
    if plus + minus != 0 {
        let m = magnitude(plus - minus);
        let d = plus + minus;
        let h = HUNDRED as int;
        assert(0 <= (h * m) / d <= h) by (nonlinear_arith)
            requires
                0 <= m <= d,
                d > 0,
                h >= 0,
        ;
    }
}

/// The average index and the movement index of series of magnitudes lie
/// between zero and one hundred.
pub proof fn lemma_adx_avg_bounds(trs: Seq<i64>, pdms: Seq<i64>, ndms: Seq<i64>, n: int)
    requires
        trs.len() == pdms.len(),
        trs.len() == ndms.len(),
        all_magnitudes(trs),
        all_magnitudes(pdms),
        all_magnitudes(ndms),
    ensures
        0 <= adx_avg(trs, pdms, ndms, n) <= HUNDRED,
        0 <= dx_at(trs, pdms, ndms, n) <= HUNDRED,
    decreases trs.len(),
{
    lemma_wilder_avg_bounds(trs, n, 0, SPAN_MAX as int);
    lemma_wilder_avg_bounds(pdms, n, 0, SPAN_MAX as int);
    lemma_wilder_avg_bounds(ndms, n, 0, SPAN_MAX as int);
    lemma_directional_index_bounds(wilder_avg(pdms, n), wilder_avg(trs, n));
    lemma_directional_index_bounds(wilder_avg(ndms, n), wilder_avg(trs, n));
    lemma_dx_bounds(
        directional_index(wilder_avg(pdms, n), wilder_avg(trs, n)),
        directional_index(wilder_avg(ndms, n), wilder_avg(trs, n)),
    );
    if n >= 1 && trs.len() > n {
        lemma_adx_avg_bounds(trs.drop_last(), pdms.drop_last(), ndms.drop_last(), n);
        lemma_wilder_between(
            adx_avg(trs.drop_last(), pdms.drop_last(), ndms.drop_last(), n),
            dx_at(trs, pdms, ndms, n),
            n,
            0,
            HUNDRED as int,
        );
    }
}

/// The two directional movements between a bar and the one before it.
pub fn moves_of(high: i64, low: i64, prev_high: i64, prev_low: i64) -> (r: (i64, i64))
    requires
        in_range(high as int),
        in_range(low as int),
        in_range(prev_high as int),
        in_range(prev_low as int),
    ensures
        r.0 == plus_move(high as int, low as int, prev_high as int, prev_low as int),
        r.1 == minus_move(high as int, low as int, prev_high as int, prev_low as int),
        0 <= r.0 <= SPAN_MAX,
        0 <= r.1 <= SPAN_MAX,
{
    let up: i64 = high - prev_high;
    let down: i64 = prev_low - low;
    let plus: i64 = if up > down && up > 0 {
        up
    } else {
        0
    };
    let minus: i64 = if down > up && down > 0 {
        down
    } else {
        0
    };
    (plus, minus)
}

/// The directional movements of consecutive bars.
pub fn directional_moves_of(highs: &[i64], lows: &[i64]) -> (r: (Vec<i64>, Vec<i64>))
    requires
        lows.len() == highs.len(),
        all_in_range(highs@),
        all_in_range(lows@),
    ensures
        r.0@ == plus_moves(highs@, lows@),
        r.1@ == minus_moves(highs@, lows@),
        all_magnitudes(r.0@),
        all_magnitudes(r.1@),
{
    let mut plus: Vec<i64> = Vec::new();
    let mut minus: Vec<i64> = Vec::new();
    let mut i: usize = 1;
    while i < highs.len()
        invariant
            1 <= i,
            i <= highs.len() || i == 1,
            lows.len() == highs.len(),
            all_in_range(highs@),
            all_in_range(lows@),
            plus@.len() == i - 1,
            minus@.len() == i - 1,
            forall|j: int| 0 <= j < i - 1 ==> #[trigger] plus@[j] == plus_moves(highs@, lows@)[j],
            forall|j: int|
                0 <= j < i - 1 ==> #[trigger] minus@[j] == minus_moves(highs@, lows@)[j],
            all_magnitudes(plus@),
            all_magnitudes(minus@),
        decreases highs.len() - i,
    {
        let (p, m) = moves_of(highs[i], lows[i], highs[i - 1], lows[i - 1]);
        plus.push(p);
        minus.push(m);
        i += 1;
    }
    assert(plus@ =~= plus_moves(highs@, lows@));
    assert(minus@ =~= minus_moves(highs@, lows@));
    (plus, minus)
}

/// A directional indicator from a smoothed movement and a smoothed range.
pub fn directional_index_of(movement: i64, range: i64) -> (di: i128)
    requires
        0 <= movement <= SPAN_MAX,
        0 <= range <= SPAN_MAX,
    ensures
        di == directional_index(movement as int, range as int),
        0 <= di <= HUNDRED * SPAN_MAX,
{
    proof {
        lemma_directional_index_bounds(movement as int, range as int);
    }
    if range == 0 {
        0
    } else {
        assert(0 <= HUNDRED * movement <= HUNDRED * SPAN_MAX) by (nonlinear_arith)
            requires
                0 <= movement <= SPAN_MAX,
        ;
        div_floor(HUNDRED as i128 * movement as i128, range as i128)
    }
}

/// The movement index from three smoothed values.
pub fn dx_of(range: i64, plus: i64, minus: i64) -> (r: i64)
    requires
        0 <= range <= SPAN_MAX,
        0 <= plus <= SPAN_MAX,
        0 <= minus <= SPAN_MAX,
    ensures
        r == dx_smoothed(range as int, plus as int, minus as int),
        0 <= r <= HUNDRED,
{
    let pdi: i128 = directional_index_of(plus, range);
    let ndi: i128 = directional_index_of(minus, range);
    proof {
        lemma_dx_bounds(pdi as int, ndi as int);
    }
    let total: i128 = pdi + ndi;
    if total == 0 {
        0
    } else {
        let dist: i128 = if pdi >= ndi {
            pdi - ndi
        } else {
            ndi - pdi
        };
        assert(0 <= HUNDRED * dist <= HUNDRED * (HUNDRED * SPAN_MAX)) by (nonlinear_arith)
            requires
                0 <= dist <= HUNDRED * SPAN_MAX,
        ;
        div_floor(HUNDRED as i128 * dist, total) as i64
    }
}

/// The average index and the two directional indicators.
#[derive(Clone, Copy, Debug, PartialEq, Eq, Structural)]
pub struct AdxValue {
    pub adx: i64,
    pub plus_di: i128,
    pub minus_di: i128,
}

/// The three Wilder averages, the smoothed movement index, and the prices of
/// the last bar.
#[derive(Clone, Copy, Debug, PartialEq, Eq, Structural)]
pub struct AdxState {
    pub length: usize,
    pub tr_smooth: i64,
    pub pdm_smooth: i64,
    pub ndm_smooth: i64,
    pub dx_smooth: i64,
    pub prev_high: i64,
    pub prev_low: i64,
    pub prev_close: i64,
    pub initialized: bool,
}

impl AdxState {
    /// A seeded state has a valid lookback, averages that are magnitudes, an
    /// index between zero and one hundred, and admissible last prices.
    pub open spec fn wf(&self) -> bool {
        self.initialized ==> {
            &&& self.length >= 1
            &&& 0 <= self.tr_smooth <= SPAN_MAX
            &&& 0 <= self.pdm_smooth <= SPAN_MAX
            &&& 0 <= self.ndm_smooth <= SPAN_MAX
            &&& 0 <= self.dx_smooth <= HUNDRED
            &&& in_range(self.prev_high as int)
            &&& in_range(self.prev_low as int)
            &&& in_range(self.prev_close as int)
        }
    }

    /// The state of an instance that history could not seed.
    pub open spec fn idle(length: usize) -> AdxState {
        AdxState {
            length,
            tr_smooth: 0,
            pdm_smooth: 0,
            ndm_smooth: 0,
            dx_smooth: 0,
            prev_high: 0,
            prev_low: 0,
            prev_close: 0,
            initialized: false,
        }
    }

    /// History seeds the index when it holds more bars than twice the lookback.
    pub open spec fn ready(len: nat, length: usize) -> bool {
        length >= 1 && len > 2 * length
    }

    /// The state after warm-up on a series of bars.
    pub open spec fn warmed(
        highs: Seq<i64>,
        lows: Seq<i64>,
        closes: Seq<i64>,
        length: usize,
    ) -> AdxState {
        if Self::ready(closes.len(), length) {
            let trs = true_ranges(highs, lows, closes);
            let pdms = plus_moves(highs, lows);
            let ndms = minus_moves(highs, lows);
            AdxState {
                length,
                tr_smooth: wilder_avg(trs, length as int) as i64,
                pdm_smooth: wilder_avg(pdms, length as int) as i64,
                ndm_smooth: wilder_avg(ndms, length as int) as i64,
                dx_smooth: adx_avg(trs, pdms, ndms, length as int) as i64,
                prev_high: highs.last(),
                prev_low: lows.last(),
                prev_close: closes.last(),
                initialized: true,
            }
        } else {
            Self::idle(length)
        }
    }

    /// The state one bar later. An idle instance stays as it is.
    pub open spec fn advanced(self, bar: Bar) -> AdxState {
        if self.initialized {
            let n = self.length as int;
            let tr = wilder(
                self.tr_smooth as int,
                true_range(bar.high as int, bar.low as int, self.prev_close as int),
                n,
            );
            let pdm = wilder(
                self.pdm_smooth as int,
                plus_move(
                    bar.high as int,
                    bar.low as int,
                    self.prev_high as int,
                    self.prev_low as int,
                ),
                n,
            );
            let ndm = wilder(
                self.ndm_smooth as int,
                minus_move(
                    bar.high as int,
                    bar.low as int,
                    self.prev_high as int,
                    self.prev_low as int,
                ),
                n,
            );
            AdxState {
                length: self.length,
                tr_smooth: tr as i64,
                pdm_smooth: pdm as i64,
                ndm_smooth: ndm as i64,
                dx_smooth: wilder(self.dx_smooth as int, dx_smoothed(tr, pdm, ndm), n) as i64,
                prev_high: bar.high,
                prev_low: bar.low,
                prev_close: bar.close,
                initialized: true,
            }
        } else {
            self
        }
    }

    /// The values that the state stands for.
    pub open spec fn value(self) -> AdxValue {
        AdxValue {
            adx: self.dx_smooth,
            plus_di: directional_index(self.pdm_smooth as int, self.tr_smooth as int) as i128,
            minus_di: directional_index(self.ndm_smooth as int, self.tr_smooth as int) as i128,
        }
    }

    /// The values as they would stand after `bar`; nothing for an idle instance.
    pub open spec fn previewed(self, bar: Bar) -> Option<AdxValue> {
        if self.initialized {
            Some(self.advanced(bar).value())
        } else {
            None
        }
    }

    /// Seeds the state from a series of bars.
    pub fn warm_up(highs: &[i64], lows: &[i64], closes: &[i64], length: usize) -> (state:
        AdxState)
        requires
            highs.len() == closes.len(),
            lows.len() == closes.len(),
            all_in_range(highs@),
            all_in_range(lows@),
            all_in_range(closes@),
        ensures
            state == Self::warmed(highs@, lows@, closes@, length),
            state.wf(),
    {
        let ready: bool = length >= 1 && closes.len() as u128 > 2 * (length as u128);
        if !ready {
            return AdxState {
                length,
                tr_smooth: 0,
                pdm_smooth: 0,
                ndm_smooth: 0,
                dx_smooth: 0,
                prev_high: 0,
                prev_low: 0,
                prev_close: 0,
                initialized: false,
            };
        }
        let trs = true_ranges_of(highs, lows, closes);
        let (pdms, ndms) = directional_moves_of(highs, lows);
        let total: usize = trs.len();
        let n: i128 = length as i128;
        proof {
            lemma_sum_bounds(trs@.subrange(0, length as int), 0, SPAN_MAX as int);
            lemma_sum_bounds(pdms@.subrange(0, length as int), 0, SPAN_MAX as int);
            lemma_sum_bounds(ndms@.subrange(0, length as int), 0, SPAN_MAX as int);
            lemma_wilder_avg_bounds(trs@.subrange(0, length as int), n as int, 0, SPAN_MAX as int);
            lemma_wilder_avg_bounds(pdms@.subrange(0, length as int), n as int, 0, SPAN_MAX as int);
            lemma_wilder_avg_bounds(ndms@.subrange(0, length as int), n as int, 0, SPAN_MAX as int);
        }
        let mut tr_smooth: i64 = div_floor(sum_of(trs.as_slice(), 0, length), n) as i64;
        let mut pdm_smooth: i64 = div_floor(sum_of(pdms.as_slice(), 0, length), n) as i64;
        let mut ndm_smooth: i64 = div_floor(sum_of(ndms.as_slice(), 0, length), n) as i64;
        let mut dx_smooth: i64 = 0;
        let mut k: usize = length;
        while k < total
            invariant
                length >= 1,
                length <= k <= total,
                total == trs@.len(),
                total == pdms@.len(),
                total == ndms@.len(),
                all_magnitudes(trs@),
                all_magnitudes(pdms@),
                all_magnitudes(ndms@),
                tr_smooth == wilder_avg(trs@.subrange(0, k as int), length as int),
                pdm_smooth == wilder_avg(pdms@.subrange(0, k as int), length as int),
                ndm_smooth == wilder_avg(ndms@.subrange(0, k as int), length as int),
                dx_smooth == adx_avg(
                    trs@.subrange(0, k as int),
                    pdms@.subrange(0, k as int),
                    ndms@.subrange(0, k as int),
                    length as int,
                ),
                0 <= tr_smooth <= SPAN_MAX,
                0 <= pdm_smooth <= SPAN_MAX,
                0 <= ndm_smooth <= SPAN_MAX,
                0 <= dx_smooth <= HUNDRED,
            decreases total - k,
        {
            proof {
                let ranges = trs@.subrange(0, k as int);
                let rises = pdms@.subrange(0, k as int);
                let falls = ndms@.subrange(0, k as int);
                let more_ranges = trs@.subrange(0, k + 1);
                let more_rises = pdms@.subrange(0, k + 1);
                let more_falls = ndms@.subrange(0, k + 1);
                assert(ranges.push(trs@[k as int]) =~= more_ranges);
                assert(rises.push(pdms@[k as int]) =~= more_rises);
                assert(falls.push(ndms@[k as int]) =~= more_falls);
                assert(more_ranges.drop_last() =~= ranges);
                assert(more_rises.drop_last() =~= rises);
                assert(more_falls.drop_last() =~= falls);
                lemma_wilder_avg_push(ranges, trs@[k as int], length as int);
                lemma_wilder_avg_push(rises, pdms@[k as int], length as int);
                lemma_wilder_avg_push(falls, ndms@[k as int], length as int);
                lemma_adx_avg_bounds(more_ranges, more_rises, more_falls, length as int);
            }
            tr_smooth = wilder_next(tr_smooth, trs[k], length);
            pdm_smooth = wilder_next(pdm_smooth, pdms[k], length);
            ndm_smooth = wilder_next(ndm_smooth, ndms[k], length);
            let now: i64 = dx_of(tr_smooth, pdm_smooth, ndm_smooth);
            k += 1;
            if k as u128 + 1 == 2 * (length as u128) {
                dx_smooth = now;
            } else if k as u128 >= 2 * (length as u128) {
                dx_smooth = wilder_next(dx_smooth, now, length);
            }
        }
        proof {
            assert(trs@.subrange(0, total as int) =~= trs@);
            assert(pdms@.subrange(0, total as int) =~= pdms@);
            assert(ndms@.subrange(0, total as int) =~= ndms@);
        }
        let last: usize = closes.len() - 1;
        AdxState {
            length,
            tr_smooth,
            pdm_smooth,
            ndm_smooth,
            dx_smooth,
            prev_high: highs[last],
            prev_low: lows[last],
            prev_close: closes[last],
            initialized: true,
        }
    }

    /// The state one bar later.
    pub fn step(&self, bar: &Bar) -> (next: AdxState)
        requires
            self.wf(),
            bar.in_range(),
        ensures
            next == self.advanced(*bar),
            next.wf(),
    {
        if !self.initialized {
            return *self;
        }
        let tr: i64 = true_range_of(bar.high, bar.low, self.prev_close);
        let (plus, minus) = moves_of(bar.high, bar.low, self.prev_high, self.prev_low);
        let tr_smooth: i64 = wilder_next(self.tr_smooth, tr, self.length);
        let pdm_smooth: i64 = wilder_next(self.pdm_smooth, plus, self.length);
        let ndm_smooth: i64 = wilder_next(self.ndm_smooth, minus, self.length);
        let now: i64 = dx_of(tr_smooth, pdm_smooth, ndm_smooth);
        AdxState {
            length: self.length,
            tr_smooth,
            pdm_smooth,
            ndm_smooth,
            dx_smooth: wilder_next(self.dx_smooth, now, self.length),
            prev_high: bar.high,
            prev_low: bar.low,
            prev_close: bar.close,
            initialized: true,
        }
    }

    /// The values that the state stands for.
    pub fn current(&self) -> (v: AdxValue)
        requires
            self.wf(),
            self.initialized,
        ensures
            v == self.value(),
            0 <= v.adx <= HUNDRED,
    {
        AdxValue {
            adx: self.dx_smooth,
            plus_di: directional_index_of(self.pdm_smooth, self.tr_smooth),
            minus_di: directional_index_of(self.ndm_smooth, self.tr_smooth),
        }
    }

    /// The values as they would stand after `bar`, leaving the state untouched.
    pub fn preview(&self, bar: &Bar) -> (v: Option<AdxValue>)
        requires
            self.wf(),
            bar.in_range(),
        ensures
            v == self.previewed(*bar),
    {
        if self.initialized {
            Some(self.step(bar).current())
        } else {
            None
        }
    }

    /// Moves the state on by one bar.
    pub fn advance(&mut self, bar: &Bar)
        requires
            old(self).wf(),
            bar.in_range(),
        ensures
            *final(self) == old(self).advanced(*bar),
            final(self).wf(),
    {
        *self = self.step(bar);
    }
}

/// Warm-up on a series that is one bar longer gives the state that one advance
/// from the warm-up on the shorter series gives.
pub proof fn lemma_adx_warm_up_extends(
    highs: Seq<i64>,
    lows: Seq<i64>,
    closes: Seq<i64>,
    bar: Bar,
    length: usize,
)
    requires
        highs.len() == closes.len(),
        lows.len() == closes.len(),
        all_in_range(highs),
        all_in_range(lows),
        all_in_range(closes),
        bar.in_range(),
        AdxState::ready(closes.len(), length),
    ensures
        AdxState::warmed(highs.push(bar.high), lows.push(bar.low), closes.push(bar.close), length)
            == AdxState::warmed(highs, lows, closes, length).advanced(bar),
{
    let n = length as int;
    let trs = true_ranges(highs, lows, closes);
    let pdms = plus_moves(highs, lows);
    let ndms = minus_moves(highs, lows);
    let tr = true_range(bar.high as int, bar.low as int, closes.last() as int);
    let pm = plus_move(bar.high as int, bar.low as int, highs.last() as int, lows.last() as int);
    let mm = minus_move(bar.high as int, bar.low as int, highs.last() as int, lows.last() as int);
    let trs1 = true_ranges(highs.push(bar.high), lows.push(bar.low), closes.push(bar.close));
    let pdms1 = plus_moves(highs.push(bar.high), lows.push(bar.low));
    let ndms1 = minus_moves(highs.push(bar.high), lows.push(bar.low));
    assert(trs1 =~= trs.push(tr as i64));
    assert(pdms1 =~= pdms.push(pm as i64));
    assert(ndms1 =~= ndms.push(mm as i64));
    assert(trs1.drop_last() =~= trs);
    assert(pdms1.drop_last() =~= pdms);
    assert(ndms1.drop_last() =~= ndms);
    lemma_wilder_avg_push(trs, tr as i64, n);
    lemma_wilder_avg_push(pdms, pm as i64, n);
    lemma_wilder_avg_push(ndms, mm as i64, n);
    lemma_wilder_avg_bounds(trs, n, 0, SPAN_MAX as int);
    lemma_wilder_avg_bounds(pdms, n, 0, SPAN_MAX as int);
    lemma_wilder_avg_bounds(ndms, n, 0, SPAN_MAX as int);
    lemma_wilder_avg_bounds(trs1, n, 0, SPAN_MAX as int);
    lemma_wilder_avg_bounds(pdms1, n, 0, SPAN_MAX as int);
    lemma_wilder_avg_bounds(ndms1, n, 0, SPAN_MAX as int);
    lemma_adx_avg_bounds(trs, pdms, ndms, n);
    lemma_adx_avg_bounds(trs1, pdms1, ndms1, n);
}

} // verus!
