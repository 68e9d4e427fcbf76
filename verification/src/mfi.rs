//! Money flow index: the money that flowed on rising typical prices against
//! the money that flowed on falling ones, over the window.

use std::collections::VecDeque;
use vstd::prelude::*;
use crate::bar::Bar;
use crate::cci::typical;
use crate::fixed::all_in_range;
use crate::fixed::div_floor;
use crate::fixed::in_range;
use crate::fixed::lift_wide;
use crate::fixed::quot;
use crate::fixed::HUNDRED;
use crate::fixed::UNIT;
use crate::fixed::VALUE_MAX;
use crate::history::last_n;
use crate::history::lemma_last_n_push;
use crate::history::MAX_CAPACITY;
use crate::series::all_between;
use crate::series::duplicate;
use crate::series::lemma_sum_wide_bounds;
use crate::series::shifted;
use crate::series::sum_wide;

verus! {

/// Largest magnitude of one bar's money flow.
pub const FLOW_MAX: i128 = 1_000_000_000_000_000_000_000_000;

/// The money that a bar moved: its typical price times its volume, in ticks.
pub open spec fn money_flow(tp: int, volume: int) -> int {
    (tp * volume) / (UNIT as int)
}

/// The positive flow of a bar: its money flow where the typical price rose.
pub open spec fn positive_flow(tp: int, prev_tp: int, volume: int) -> int {
    if tp > prev_tp {
        money_flow(tp, volume)
    } else {
        0
    }
}

/// The negative flow of a bar: its money flow where the typical price fell.
pub open spec fn negative_flow(tp: int, prev_tp: int, volume: int) -> int {
    if tp < prev_tp {
        money_flow(tp, volume)
    } else {
        0
    }
}

/// Typical price of bar `i` of a series.
pub open spec fn typical_at(highs: Seq<i64>, lows: Seq<i64>, closes: Seq<i64>, i: int) -> int {
    typical(highs[i] as int, lows[i] as int, closes[i] as int)
}

/// Positive flows of consecutive bars: element `i` is that of bar `i + 1`.
pub open spec fn positive_flows(
    highs: Seq<i64>,
    lows: Seq<i64>,
    closes: Seq<i64>,
    volumes: Seq<i64>,
) -> Seq<i128> {
    Seq::new(
        if closes.len() == 0 {
            0nat
        } else {
            (closes.len() - 1) as nat
        },
        |i: int|
            positive_flow(
                typical_at(highs, lows, closes, i + 1),
                typical_at(highs, lows, closes, i),
                volumes[i + 1] as int,
            ) as i128,
    )
}

/// Negative flows of consecutive bars: element `i` is that of bar `i + 1`.
pub open spec fn negative_flows(
    highs: Seq<i64>,
    lows: Seq<i64>,
    closes: Seq<i64>,
    volumes: Seq<i64>,
) -> Seq<i128> {
    Seq::new(
        if closes.len() == 0 {
            0nat
        } else {
            (closes.len() - 1) as nat
        },
        |i: int|
            negative_flow(
                typical_at(highs, lows, closes, i + 1),
                typical_at(highs, lows, closes, i),
                volumes[i + 1] as int,
            ) as i128,
    )
}

/// The index from the window's positive and negative flow: one hundred when
/// there is no negative flow, else `100 - 100 / (1 + positive / negative)`,
/// which is `100 - 100 * negative / (positive + negative)`. Where the two
/// flows cancel, which takes a negative price or volume, the index is zero.
pub open spec fn mfi_value(positive: int, negative: int) -> int {
    if negative == 0 {
        HUNDRED as int
    } else if positive + negative == 0 {
        0
    } else {
        HUNDRED - quot(HUNDRED * negative, positive + negative)
    }
}

/// For flows that are not negative, the index lies between zero and one
/// hundred.
pub proof fn lemma_mfi_bounded(positive: int, negative: int)
    requires
        positive >= 0,
        negative >= 0,
    ensures
        0 <= mfi_value(positive, negative) <= HUNDRED,
{
    if negative != 0 {
        let d = positive + negative;
        let h = HUNDRED as int;
        assert(0 <= (h * negative) / d <= h) by (nonlinear_arith)
            requires
                0 <= negative <= d,
                d > 0,
                h >= 0,
        ;
    }
}

/// The money flow of an admissible price and volume is of admissible size.
pub proof fn lemma_money_flow_bounds(tp: int, volume: int)
    requires
        in_range(tp),
        in_range(volume),
    ensures
        -FLOW_MAX <= money_flow(tp, volume) <= FLOW_MAX,
        -1_000_000_000_000_000_000_000_000_000_000 <= tp * volume
            <= 1_000_000_000_000_000_000_000_000_000_000,
{
    let p = tp * volume;
    let m = VALUE_MAX as int;
    assert(-(m * m) <= p <= m * m) by (nonlinear_arith)
        requires
            -m <= tp <= m,
            -m <= volume <= m,
            p == tp * volume,
    ;
    assert(m * m == 1_000_000_000_000_000_000_000_000_000_000) by (nonlinear_arith)
        requires
            m == 1_000_000_000_000_000,
    ;
}

/// What a money-flow state holds.
pub struct MfiModel {
    pub length: usize,
    pub positive: Seq<i128>,
    pub negative: Seq<i128>,
    pub sum_p: i128,
    pub sum_n: i128,
    pub prev_tp: i64,
    pub initialized: bool,
}

/// The positive and negative flows of the window, their sums, and the last
/// typical price.
#[derive(Clone, Debug, PartialEq, Eq)]
pub struct MfiState {
    pub length: usize,
    pub pos_flow: VecDeque<i128>,
    pub neg_flow: VecDeque<i128>,
    pub sum_p: i128,
    pub sum_n: i128,
    pub prev_tp: i64,
    pub initialized: bool,
}

impl View for MfiState {
    type V = MfiModel;

    open spec fn view(&self) -> MfiModel {
        MfiModel {
            length: self.length,
            positive: self.pos_flow@,
            negative: self.neg_flow@,
            sum_p: self.sum_p,
            sum_n: self.sum_n,
            prev_tp: self.prev_tp,
            initialized: self.initialized,
        }
    }
}

impl MfiModel {
    /// The state holds the flows of a full window, each of admissible size,
    /// their sums, and the last typical price.
    pub open spec fn wf(self) -> bool {
        self.initialized ==> {
            &&& 1 <= self.length <= MAX_CAPACITY
            &&& self.positive.len() == self.length
            &&& self.negative.len() == self.length
            &&& all_between(self.positive, -FLOW_MAX as int, FLOW_MAX as int)
            &&& all_between(self.negative, -FLOW_MAX as int, FLOW_MAX as int)
            &&& self.sum_p == sum_wide(self.positive)
            &&& self.sum_n == sum_wide(self.negative)
            &&& in_range(self.prev_tp as int)
        }
    }

    /// Every flow held is zero or more.
    pub open spec fn bounded(self) -> bool {
        &&& all_between(self.positive, 0, FLOW_MAX as int)
        &&& all_between(self.negative, 0, FLOW_MAX as int)
    }

    /// The state of an instance that history could not seed.
    pub open spec fn idle(length: usize) -> MfiModel {
        MfiModel {
            length,
            positive: Seq::empty(),
            negative: Seq::empty(),
            sum_p: 0,
            sum_n: 0,
            prev_tp: 0,
            initialized: false,
        }
    }

    /// History seeds the index when it holds more bars than the lookback, and
    /// the lookback is no longer than a history buffer can be.
    pub open spec fn ready(total: nat, length: usize) -> bool {
        1 <= length <= MAX_CAPACITY && total > length
    }

    /// The state after warm-up on a series of bars.
    pub open spec fn warmed(
        highs: Seq<i64>,
        lows: Seq<i64>,
        closes: Seq<i64>,
        volumes: Seq<i64>,
        length: usize,
    ) -> MfiModel {
        if Self::ready(closes.len(), length) {
            let positive = last_n(positive_flows(highs, lows, closes, volumes), length as nat);
            let negative = last_n(negative_flows(highs, lows, closes, volumes), length as nat);
            MfiModel {
                length,
                positive,
                negative,
                sum_p: sum_wide(positive) as i128,
                sum_n: sum_wide(negative) as i128,
                prev_tp: typical_at(highs, lows, closes, closes.len() - 1) as i64,
                initialized: true,
            }
        } else {
            Self::idle(length)
        }
    }

    /// The state one bar later: the bar's flows enter the window and the oldest
    /// ones leave. An idle instance stays as it is.
    pub open spec fn advanced(self, bar: Bar) -> MfiModel {
        if self.initialized {
            let tp = bar.typical();
            let positive = self.positive.skip(1).push(
                positive_flow(tp, self.prev_tp as int, bar.volume as int) as i128,
            );
            let negative = self.negative.skip(1).push(
                negative_flow(tp, self.prev_tp as int, bar.volume as int) as i128,
            );
            MfiModel {
                length: self.length,
                positive,
                negative,
                sum_p: sum_wide(positive) as i128,
                sum_n: sum_wide(negative) as i128,
                prev_tp: tp as i64,
                initialized: true,
            }
        } else {
            self
        }
    }

    /// The index that the state stands for.
    pub open spec fn value(self) -> int {
        mfi_value(self.sum_p as int, self.sum_n as int)
    }

    /// The index as it would stand after `bar`; nothing for an idle instance.
    pub open spec fn previewed(self, bar: Bar) -> Option<int> {
        if self.initialized {
            Some(self.advanced(bar).value())
        } else {
            None
        }
    }
}

/// The sum of a series with one more value.
pub proof fn lemma_sum_wide_push(s: Seq<i128>, x: i128)
    ensures
        sum_wide(s.push(x)) == sum_wide(s) + x,
{
    assert(s.push(x).drop_last() =~= s);
}

/// The sum of a series is its first value and the sum of the rest.
pub proof fn lemma_sum_wide_skip_first(s: Seq<i128>)
    requires
        s.len() >= 1,
    ensures
        sum_wide(s) == s[0] + sum_wide(s.skip(1)),
    decreases s.len(),
{
    if s.len() == 1 {
        assert(s.skip(1) =~= Seq::<i128>::empty());
        assert(s.drop_last() =~= Seq::<i128>::empty());
    } else {
        lemma_sum_wide_skip_first(s.drop_last());
        assert(s.drop_last().skip(1) =~= s.skip(1).drop_last());
    }
}

/// The two flows of a bar against the typical price before it.
pub fn flows_of(tp: i64, prev_tp: i64, volume: i64) -> (r: (i128, i128))
    requires
        in_range(tp as int),
        in_range(volume as int),
    ensures
        r.0 == positive_flow(tp as int, prev_tp as int, volume as int),
        r.1 == negative_flow(tp as int, prev_tp as int, volume as int),
        -FLOW_MAX <= r.0 <= FLOW_MAX,
        -FLOW_MAX <= r.1 <= FLOW_MAX,
        volume >= 0 && tp >= 0 ==> r.0 >= 0 && r.1 >= 0,
{
    proof {
        lemma_money_flow_bounds(tp as int, volume as int);
        if volume >= 0 && tp >= 0 {
            let p = tp * volume;
            assert(p >= 0) by (nonlinear_arith)
                requires
                    tp >= 0,
                    volume >= 0,
                    p == tp * volume,
            ;
        }
    }
    let flow: i128 = div_floor((tp as i128) * (volume as i128), UNIT as i128);
    if tp > prev_tp {
        (flow, 0)
    } else if tp < prev_tp {
        (0, flow)
    } else {
        (0, 0)
    }
}

impl MfiState {
    /// Seeds the state from a series of bars.
    pub fn warm_up(
        highs: &[i64],
        lows: &[i64],
        closes: &[i64],
        volumes: &[i64],
        length: usize,
    ) -> (state: MfiState)
        requires
            highs.len() == closes.len(),
            lows.len() == closes.len(),
            volumes.len() == closes.len(),
            all_in_range(highs@),
            all_in_range(lows@),
            all_in_range(closes@),
            all_in_range(volumes@),
        ensures
            state@ == MfiModel::warmed(highs@, lows@, closes@, volumes@, length),
            state@.wf(),
    {
        let total: usize = closes.len();
        if !(1 <= length && length <= MAX_CAPACITY && total > length) {
            return MfiState {
                length,
                pos_flow: VecDeque::new(),
                neg_flow: VecDeque::new(),
                sum_p: 0,
                sum_n: 0,
                prev_tp: 0,
                initialized: false,
            };
        }
        let start: usize = total - length;
        let mut pos_flow: VecDeque<i128> = VecDeque::new();
        let mut neg_flow: VecDeque<i128> = VecDeque::new();
        let mut sum_p: i128 = 0;
        let mut sum_n: i128 = 0;
        let mut prev_tp: i64 = Bar::new(
            0,
            highs[start - 1],
            lows[start - 1],
            closes[start - 1],
            0,
            0,
        ).typical_price();
        let mut i: usize = start;
        let ghost pos = positive_flows(highs@, lows@, closes@, volumes@);
        let ghost neg = negative_flows(highs@, lows@, closes@, volumes@);
        while i < total
            invariant
                1 <= start <= i <= total,
                total - start <= MAX_CAPACITY,
                total == closes.len(),
                highs.len() == closes.len(),
                lows.len() == closes.len(),
                volumes.len() == closes.len(),
                all_in_range(highs@),
                all_in_range(lows@),
                all_in_range(closes@),
                all_in_range(volumes@),
                pos == positive_flows(highs@, lows@, closes@, volumes@),
                neg == negative_flows(highs@, lows@, closes@, volumes@),
                pos_flow@ == pos.subrange(start - 1, i - 1),
                neg_flow@ == neg.subrange(start - 1, i - 1),
                all_between(pos_flow@, -FLOW_MAX as int, FLOW_MAX as int),
                all_between(neg_flow@, -FLOW_MAX as int, FLOW_MAX as int),
                sum_p == sum_wide(pos_flow@),
                sum_n == sum_wide(neg_flow@),
                -(i - start) * FLOW_MAX <= sum_p <= (i - start) * FLOW_MAX,
                -(i - start) * FLOW_MAX <= sum_n <= (i - start) * FLOW_MAX,
                prev_tp == typical_at(highs@, lows@, closes@, i - 1),
                in_range(prev_tp as int),
            decreases total - i,
        {
            let tp: i64 = Bar::new(0, highs[i], lows[i], closes[i], 0, 0).typical_price();
            let (p, n) = flows_of(tp, prev_tp, volumes[i]);
            proof {
                lemma_sum_wide_push(pos_flow@, p);
                lemma_sum_wide_push(neg_flow@, n);
                assert(pos_flow@.push(p) =~= pos.subrange(start - 1, i as int));
                assert(neg_flow@.push(n) =~= neg.subrange(start - 1, i as int));
                let k = i - start;
                let f = FLOW_MAX as int;
                assert((k + 1) * f == k * f + f) by (nonlinear_arith);
                assert(-(k + 1) * f == -k * f - f) by (nonlinear_arith);
                assert((k + 1) * f <= 4096 * f) by (nonlinear_arith)
                    requires
                        0 <= k + 1 <= 4096,
                        f >= 0,
                ;
                assert(-(k + 1) * f >= -4096 * f) by (nonlinear_arith)
                    requires
                        0 <= k + 1 <= 4096,
                        f >= 0,
                ;
            }
            pos_flow.push_back(p);
            neg_flow.push_back(n);
            sum_p = sum_p + p;
            sum_n = sum_n + n;
            prev_tp = tp;
            i += 1;
        }
        proof {
            assert(pos.subrange(start - 1, total - 1) =~= last_n(pos, length as nat));
            assert(neg.subrange(start - 1, total - 1) =~= last_n(neg, length as nat));
        }
        MfiState { length, pos_flow, neg_flow, sum_p, sum_n, prev_tp, initialized: true }
    }

    /// The state one bar later.
    pub fn step(&self, bar: &Bar) -> (next: MfiState)
        requires
            self@.wf(),
            bar.in_range(),
        ensures
            next@ == self@.advanced(*bar),
            next@.wf(),
            self@.bounded() && bar.volume >= 0 && bar.typical() >= 0 ==> next@.bounded(),
    {
        if !self.initialized {
            let pos_flow = duplicate(&self.pos_flow);
            let neg_flow = duplicate(&self.neg_flow);
            proof {
                assert(pos_flow@ =~= self.pos_flow@);
                assert(neg_flow@ =~= self.neg_flow@);
            }
            return MfiState {
                length: self.length,
                pos_flow,
                neg_flow,
                sum_p: self.sum_p,
                sum_n: self.sum_n,
                prev_tp: self.prev_tp,
                initialized: false,
            };
        }
        let tp: i64 = bar.typical_price();
        let (p, n) = flows_of(tp, self.prev_tp, bar.volume);
        proof {
            let f = FLOW_MAX as int;
            let k = self.length as int;
            lemma_sum_wide_skip_first(self.pos_flow@);
            lemma_sum_wide_skip_first(self.neg_flow@);
            lemma_sum_wide_push(self.pos_flow@.skip(1), p);
            lemma_sum_wide_push(self.neg_flow@.skip(1), n);
            lemma_sum_wide_bounds(self.pos_flow@, -f, f);
            lemma_sum_wide_bounds(self.neg_flow@, -f, f);
            assert(k * f <= 4096 * f) by (nonlinear_arith)
                requires
                    0 <= k <= 4096,
                    f >= 0,
            ;
            assert(k * (-f) >= 4096 * (-f)) by (nonlinear_arith)
                requires
                    0 <= k <= 4096,
                    f >= 0,
            ;
        }
        let old_p: i128 = self.pos_flow[0];
        let old_n: i128 = self.neg_flow[0];
        MfiState {
            length: self.length,
            pos_flow: shifted(&self.pos_flow, 1, p),
            neg_flow: shifted(&self.neg_flow, 1, n),
            sum_p: self.sum_p - old_p + p,
            sum_n: self.sum_n - old_n + n,
            prev_tp: tp,
            initialized: true,
        }
    }

    /// The index that the state stands for.
    pub fn current(&self) -> (v: i128)
        requires
            self@.wf(),
            self.initialized,
        ensures
            v == self@.value(),
            self@.bounded() ==> 0 <= v <= HUNDRED,
    {
        proof {
            let f = FLOW_MAX as int;
            let k = self.length as int;
            lemma_sum_wide_bounds(self.pos_flow@, -f, f);
            lemma_sum_wide_bounds(self.neg_flow@, -f, f);
            assert(k * f <= 4096 * f) by (nonlinear_arith)
                requires
                    0 <= k <= 4096,
                    f >= 0,
            ;
            assert(k * (-f) >= 4096 * (-f)) by (nonlinear_arith)
                requires
                    0 <= k <= 4096,
                    f >= 0,
            ;
            if self@.bounded() {
                lemma_sum_wide_bounds(self.pos_flow@, 0, f);
                lemma_sum_wide_bounds(self.neg_flow@, 0, f);
                assert(k * 0 == 0) by (nonlinear_arith);
                lemma_mfi_bounded(self.sum_p as int, self.sum_n as int);
            }
            let n = self.sum_n as int;
            assert(-(100_000_000 * (4096 * f)) <= 100_000_000 * n <= 100_000_000 * (4096 * f))
                by (nonlinear_arith)
                requires
                    -(4096 * f) <= n <= 4096 * f,
            ;
        }
        if self.sum_n == 0 {
            HUNDRED as i128
        } else if self.sum_p + self.sum_n == 0 {
            0
        } else {
            HUNDRED as i128 - div_floor(HUNDRED as i128 * self.sum_n, self.sum_p + self.sum_n)
        }
    }

    /// The index as it would stand after `bar`, leaving the state untouched.
    pub fn preview(&self, bar: &Bar) -> (v: Option<i128>)
        requires
            self@.wf(),
            bar.in_range(),
        ensures
            lift_wide(v) == self@.previewed(*bar),
    {
        if self.initialized {
            Some(self.step(bar).current())
        } else {
            None
        }
    }
}

/// Warm-up on a series that is one bar longer gives the state that one advance
/// from the warm-up on the shorter series gives.
pub proof fn lemma_mfi_warm_up_extends(
    highs: Seq<i64>,
    lows: Seq<i64>,
    closes: Seq<i64>,
    volumes: Seq<i64>,
    bar: Bar,
    length: usize,
)
    requires
        highs.len() == closes.len(),
        lows.len() == closes.len(),
        volumes.len() == closes.len(),
        all_in_range(highs),
        all_in_range(lows),
        all_in_range(closes),
        MfiModel::ready(closes.len(), length),
    ensures
        MfiModel::warmed(
            highs.push(bar.high),
            lows.push(bar.low),
            closes.push(bar.close),
            volumes.push(bar.volume),
            length,
        ) == MfiModel::warmed(highs, lows, closes, volumes, length).advanced(bar),
{
    let h1 = highs.push(bar.high);
    let l1 = lows.push(bar.low);
    let c1 = closes.push(bar.close);
    let v1 = volumes.push(bar.volume);
    let last = closes.len() - 1;
    let prev_tp = typical_at(highs, lows, closes, last);
    let tp = bar.typical();
    let p = positive_flow(tp, prev_tp, bar.volume as int) as i128;
    let n = negative_flow(tp, prev_tp, bar.volume as int) as i128;
    let pos = positive_flows(highs, lows, closes, volumes);
    let neg = negative_flows(highs, lows, closes, volumes);
    assert(in_range(prev_tp));
    assert(positive_flows(h1, l1, c1, v1) =~= pos.push(p));
    assert(negative_flows(h1, l1, c1, v1) =~= neg.push(n));
    lemma_last_n_push(pos, p, length as nat);
    lemma_last_n_push(neg, n, length as nat);
}

} // verus!
