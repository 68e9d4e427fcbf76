//! Bollinger bands: the mean of the window of closes, and a band on each side
//! of it at a multiple of the window's standard deviation.

use vstd::prelude::*;
use crate::bar::Bar;
use crate::fixed::div_floor;
use crate::fixed::floor_sqrt;
use crate::fixed::in_range;
use crate::fixed::is_floor_sqrt;
use crate::fixed::isqrt;
use crate::fixed::larger;
use crate::fixed::lemma_floor_sqrt_unique;
use crate::fixed::quot;
use crate::fixed::UNIT;
use crate::fixed::VALUE_MAX;
use crate::history::last_n;
use crate::history::lemma_last_n_push_bounded;
use crate::history::push_bounded;
use crate::history::HistoryBuffer;
use crate::history::MAX_CAPACITY;
use crate::series::lemma_sum_bounds;
use crate::series::lemma_sum_constant;
use crate::series::sum;
use crate::window::dot;
use crate::window::lemma_dot_bounds;
use crate::window::lemma_dot_window_push;
use crate::window::lemma_sum_window_push;
use crate::window::window_with;

verus! {

/// Population standard deviation of `n` values from their sum and the sum of
/// their squares: the root of `(n * squares - sum * sum)`, taken as zero where
/// that is negative, over `n`.
pub open spec fn deviation(total: int, squares: int, n: int) -> int {
    floor_sqrt(larger(0, n * squares - total * total)) / n
}

/// Where the close lies between the bands, as a fraction of their distance:
/// zero on the lower band, one unit on the upper; half a unit where the bands
/// coincide.
pub open spec fn percent_b(close: int, upper: int, lower: int) -> int {
    if upper == lower {
        UNIT / 2
    } else {
        quot(UNIT * (close - lower), upper - lower)
    }
}

/// The two bands, the mean between them, and the close's place between the
/// bands.
#[derive(Clone, Copy, Debug, PartialEq, Eq, Structural)]
pub struct BollingerValue {
    pub upper: i128,
    pub lower: i128,
    pub basis: i64,
    pub percent_b: i128,
}

/// The sum and the sum of squares of the window of closes, with the band
/// multiplier in ticks.
#[derive(Clone, Copy, Debug, PartialEq, Eq, Structural)]
pub struct BbState {
    pub length: usize,
    pub multiplier: i64,
    pub sum: i128,
    pub sum_sq: i128,
    pub initialized: bool,
}

/// The sum of squares of a series of one repeated value.
pub proof fn lemma_dot_constant(s: Seq<i64>, v: int)
    requires
        forall|i: int| 0 <= i < s.len() ==> #[trigger] s[i] == v,
    ensures
        dot(s, s) == s.len() * (v * v),
    decreases s.len(),
{
    if s.len() > 0 {
        lemma_dot_constant(s.drop_last(), v);
        assert(s.len() * (v * v) == (s.len() - 1) * (v * v) + v * v) by (nonlinear_arith);
    }
}

/// A sum of squares is not negative.
pub proof fn lemma_dot_self_nonnegative(s: Seq<i64>)
    ensures
        dot(s, s) >= 0,
    decreases s.len(),
{
    if s.len() > 0 {
        lemma_dot_self_nonnegative(s.drop_last());
        let x = s.last() as int;
        assert(x * x >= 0) by (nonlinear_arith);
    }
}

impl BbState {
    /// The state holds the sum and the sum of squares over the window of a
    /// series that is long enough.
    pub open spec fn tracks(&self, closes: Seq<i64>) -> bool {
        self.initialized ==> {
            &&& 1 <= self.length <= closes.len()
            &&& self.sum == sum(last_n(closes, self.length as nat))
            &&& self.sum_sq == dot(
                last_n(closes, self.length as nat),
                last_n(closes, self.length as nat),
            )
        }
    }

    /// The two sums are those of at most `MAX_CAPACITY` admissible values.
    pub open spec fn bounded(&self) -> bool {
        &&& 1 <= self.length <= MAX_CAPACITY
        &&& -self.length * VALUE_MAX <= self.sum <= self.length * VALUE_MAX
        &&& 0 <= self.sum_sq <= self.length * (VALUE_MAX * VALUE_MAX)
    }

    /// The state of an instance that history could not seed.
    pub open spec fn idle(length: usize, multiplier: i64) -> BbState {
        BbState { length, multiplier, sum: 0, sum_sq: 0, initialized: false }
    }

    /// The kept history seeds the bands when it holds a full window.
    pub open spec fn ready(len: nat, length: usize) -> bool {
        1 <= length <= len
    }

    /// The state after warm-up on the kept closes.
    pub open spec fn warmed(closes: Seq<i64>, length: usize, multiplier: i64) -> BbState {
        if Self::ready(closes.len(), length) {
            let w = last_n(closes, length as nat);
            BbState {
                length,
                multiplier,
                sum: sum(w) as i128,
                sum_sq: dot(w, w) as i128,
                initialized: true,
            }
        } else {
            Self::idle(length, multiplier)
        }
    }

    /// The state once `close` has arrived after the kept closes. An idle
    /// instance stays as it is.
    pub open spec fn advanced(self, closes: Seq<i64>, close: i64) -> BbState {
        if self.initialized && closes.len() >= self.length {
            let w = window_with(closes, close, self.length as nat);
            BbState {
                length: self.length,
                multiplier: self.multiplier,
                sum: sum(w) as i128,
                sum_sq: dot(w, w) as i128,
                initialized: true,
            }
        } else {
            self
        }
    }

    /// The mean of the window.
    pub open spec fn basis(self) -> int {
        (self.sum as int) / (self.length as int)
    }

    /// The distance of each band from the mean.
    pub open spec fn offset(self) -> int {
        quot(
            self.multiplier * deviation(self.sum as int, self.sum_sq as int, self.length as int),
            UNIT as int,
        )
    }

    /// The bands that the state stands for, with the place of `close` between
    /// them.
    pub open spec fn value(self, close: i64) -> BollingerValue {
        let upper = self.basis() + self.offset();
        let lower = self.basis() - self.offset();
        BollingerValue {
            upper: upper as i128,
            lower: lower as i128,
            basis: self.basis() as i64,
            percent_b: percent_b(close as int, upper, lower) as i128,
        }
    }

    /// The bands as they would stand once `close` has arrived; nothing for an
    /// idle instance.
    pub open spec fn previewed(self, closes: Seq<i64>, close: i64) -> Option<BollingerValue> {
        if self.initialized && closes.len() >= self.length {
            Some(self.advanced(closes, close).value(close))
        } else {
            None
        }
    }

    /// Seeds the state from the kept history.
    pub fn warm_up(history: &HistoryBuffer, length: usize, multiplier: i64) -> (state: BbState)
        requires
            history.wf(),
        ensures
            state == Self::warmed(history.closes(), length, multiplier),
            state.tracks(history.closes()),
            state.initialized ==> state.bounded(),
    {
        let len: usize = history.len();
        if !(1 <= length && length <= len) {
            return BbState { length, multiplier, sum: 0, sum_sq: 0, initialized: false };
        }
        let start: usize = len - length;
        let mut total: i128 = 0;
        let mut squares: i128 = 0;
        let mut i: usize = start;
        let ghost s = history.closes();
        let ghost m = VALUE_MAX as int;
        assert(s.subrange(start as int, start as int) =~= Seq::<i64>::empty());
        while i < len
            invariant
                history.wf(),
                s == history.closes(),
                m == VALUE_MAX,
                len == history.spec_len(),
                len <= MAX_CAPACITY,
                start <= i <= len,
                total == sum(s.subrange(start as int, i as int)),
                squares == dot(
                    s.subrange(start as int, i as int),
                    s.subrange(start as int, i as int),
                ),
                -(i - start) * m <= total <= (i - start) * m,
                0 <= squares <= (i - start) * (m * m),
            decreases len - i,
        {
            let x: i64 = history.close_at(i);
            proof {
                let w0 = s.subrange(start as int, i as int);
                let w1 = s.subrange(start as int, i + 1);
                assert(w1.drop_last() =~= w0);
                lemma_dot_self_nonnegative(w1);
                let xi = x as int;
                let k = i - start;
                assert(0 <= xi * xi <= m * m) by (nonlinear_arith)
                    requires
                        -m <= xi <= m,
                ;
                assert((k + 1) * (m * m) == k * (m * m) + m * m) by (nonlinear_arith);
                assert((k + 1) * (m * m) <= 4096 * (m * m)) by (nonlinear_arith)
                    requires
                        0 <= k + 1 <= 4096,
                ;
                assert((k + 1) * m <= 4096 * m) by (nonlinear_arith)
                    requires
                        0 <= k + 1 <= 4096,
                        m >= 0,
                ;
                assert(m * m == 1_000_000_000_000_000_000_000_000_000_000) by (nonlinear_arith)
                    requires
                        m == 1_000_000_000_000_000,
                ;
            }
            total = total + x as i128;
            squares = squares + (x as i128) * (x as i128);
            i += 1;
        }
        assert(s.subrange(start as int, len as int) =~= last_n(s, length as nat));
        BbState { length, multiplier, sum: total, sum_sq: squares, initialized: true }
    }

    /// The state one bar later, read against the history before the bar.
    pub fn step(&self, history: &HistoryBuffer, bar: &Bar) -> (next: BbState)
        requires
            history.wf(),
            bar.in_range(),
            self.tracks(history.closes()),
        ensures
            next == self.advanced(history.closes(), bar.close),
            next.tracks(push_bounded(history.closes(), bar.close, history.spec_capacity())),
            next.initialized ==> next.bounded(),
    {
        if !self.initialized {
            return *self;
        }
        let len: usize = history.len();
        let leaving: i64 = history.close_at(len - self.length);
        let arriving: i64 = bar.close;
        proof {
            let s = history.closes();
            let n = self.length as nat;
            let m = VALUE_MAX as int;
            let w0 = last_n(s, n);
            let w1 = window_with(s, arriving, n);
            lemma_sum_window_push(s, arriving, n);
            lemma_dot_window_push(s, s, arriving, arriving, n);
            lemma_last_n_push_bounded(s, arriving, n, history.spec_capacity());
            lemma_sum_bounds(w0, -m, m);
            lemma_sum_bounds(w1, -m, m);
            lemma_dot_bounds(w0, w0);
            lemma_dot_bounds(w1, w1);
            lemma_dot_self_nonnegative(w0);
            lemma_dot_self_nonnegative(w1);
            let a = arriving as int;
            let l = leaving as int;
            assert(0 <= a * a <= m * m) by (nonlinear_arith)
                requires
                    -m <= a <= m,
            ;
            assert(0 <= l * l <= m * m) by (nonlinear_arith)
                requires
                    -m <= l <= m,
            ;
            assert(n * (m * m) <= 4096 * (m * m)) by (nonlinear_arith)
                requires
                    0 <= n <= 4096,
            ;
            assert(n * m <= 4096 * m) by (nonlinear_arith)
                requires
                    0 <= n <= 4096,
                    m >= 0,
            ;
            assert(m * m == 1_000_000_000_000_000_000_000_000_000_000) by (nonlinear_arith)
                requires
                    m == 1_000_000_000_000_000,
            ;
        }
        BbState {
            length: self.length,
            multiplier: self.multiplier,
            sum: self.sum - leaving as i128 + arriving as i128,
            sum_sq: self.sum_sq - (leaving as i128) * (leaving as i128) + (arriving as i128) * (
            arriving as i128),
            initialized: true,
        }
    }

    /// The bands that the state stands for, with the place of `close` between
    /// them.
    pub fn current(&self, close: i64) -> (v: BollingerValue)
        requires
            self.bounded(),
            in_range(close as int),
        ensures
            v == self.value(close),
    {
        let n: i128 = self.length as i128;
        let ghost m = VALUE_MAX as int;
        let ghost t = self.sum as int;
        let ghost q = self.sum_sq as int;
        proof {
            let ni = n as int;
            assert(-m <= t / ni <= m) by (nonlinear_arith)
                requires
                    ni >= 1,
                    -ni * m <= t <= ni * m,
            ;
            assert(0 <= ni * q <= 4096 * 4096 * (m * m)) by (nonlinear_arith)
                requires
                    1 <= ni <= 4096,
                    0 <= q <= ni * (m * m),
            ;
            assert(0 <= t * t <= 4096 * 4096 * (m * m)) by (nonlinear_arith)
                requires
                    1 <= ni <= 4096,
                    -ni * m <= t <= ni * m,
                    m >= 0,
            ;
            assert(m * m == 1_000_000_000_000_000_000_000_000_000_000) by (nonlinear_arith)
                requires
                    m == 1_000_000_000_000_000,
            ;
        }
        let basis: i128 = div_floor(self.sum, n);
        let spread: i128 = n * self.sum_sq - self.sum * self.sum;
        let root: i128 = isqrt(if spread > 0 {
            spread
        } else {
            0
        });
        proof {
            let r = root as int;
            let x = larger(0, spread as int);
            let bound = 4096 * m;
            if r > bound {
                assert(r * r > 4096 * 4096 * (m * m)) by (nonlinear_arith)
                    requires
                        r > 4096 * m,
                        m >= 0,
                ;
            }
            assert(0 <= r / (n as int) <= r) by (nonlinear_arith)
                requires
                    r >= 0,
                    n >= 1,
            ;
        }
        let dev: i128 = root / n;
        proof {
            let d = dev as int;
            let k = self.multiplier as int;
            assert(-0x8000_0000_0000_0000 * (4096 * m) <= k * d <= 0x8000_0000_0000_0000 * (4096
                * m)) by (nonlinear_arith)
                requires
                    0 <= d <= 4096 * m,
                    -0x8000_0000_0000_0000 <= k <= 0x8000_0000_0000_0000,
            ;
            let p = k * d;
            let u = UNIT as int;
            let b = 0x8000_0000_0000_0000 * (4096 * m);
            assert(-b <= p / u <= b) by (nonlinear_arith)
                requires
                    -b <= p <= b,
                    b >= 0,
                    u == 1_000_000,
            ;
        }
        let offset: i128 = div_floor(self.multiplier as i128 * dev, UNIT as i128);
        let upper: i128 = basis + offset;
        let lower: i128 = basis - offset;
        let pb: i128 = if upper == lower {
            (UNIT / 2) as i128
        } else {
            let num: i128 = close as i128 - lower;
            proof {
                let x = num as int;
                let b = VALUE_MAX + VALUE_MAX + 0x8000_0000_0000_0000 * (4096 * m);
                assert(-(1_000_000 * b) <= 1_000_000 * x <= 1_000_000 * b) by (nonlinear_arith)
                    requires
                        -b <= x <= b,
                ;
            }
            div_floor(UNIT as i128 * num, upper - lower)
        };
        BollingerValue { upper, lower, basis: basis as i64, percent_b: pb }
    }

    /// The bands as they would stand after `bar`, leaving the state untouched.
    pub fn preview(&self, history: &HistoryBuffer, bar: &Bar) -> (v: Option<BollingerValue>)
        requires
            history.wf(),
            bar.in_range(),
            self.tracks(history.closes()),
        ensures
            v == self.previewed(history.closes(), bar.close),
    {
        if self.initialized {
            Some(self.step(history, bar).current(bar.close))
        } else {
            None
        }
    }
}

/// Over a window of equal closes the deviation is zero: both bands and the
/// mean stand at the close, and the close's place between them is one half.
pub proof fn lemma_bollinger_flat(closes: Seq<i64>, length: usize, multiplier: i64, close: i64)
    requires
        closes.len() <= MAX_CAPACITY,
        in_range(close as int),
        BbState::ready(closes.len(), length),
        forall|i: int| 0 <= i < closes.len() ==> #[trigger] closes[i] == close,
    ensures
        BbState::warmed(closes, length, multiplier).value(close) == (BollingerValue {
            upper: close as i128,
            lower: close as i128,
            basis: close,
            percent_b: (UNIT / 2) as i128,
        }),
{
    let n = length as int;
    let c = close as int;
    let m = VALUE_MAX as int;
    let w = last_n(closes, length as nat);
    lemma_sum_constant(w, c);
    lemma_dot_constant(w, c);
    assert(w.len() == n);
    let nc = n * c;
    let ncc = n * (c * c);
    assert(-(4096 * m) <= nc <= 4096 * m) by (nonlinear_arith)
        requires
            nc == n * c,
            1 <= n <= 4096,
            -m <= c <= m,
    ;
    assert(0 <= ncc <= 4096 * (m * m)) by (nonlinear_arith)
        requires
            ncc == n * (c * c),
            1 <= n <= 4096,
            -m <= c <= m,
    ;
    assert(m * m == 1_000_000_000_000_000_000_000_000_000_000) by (nonlinear_arith)
        requires
            m == 1_000_000_000_000_000,
    ;
    assert(n * ncc - nc * nc == 0) by (nonlinear_arith)
        requires
            nc == n * c,
            ncc == n * (c * c),
    ;
    assert(nc / n == c) by (nonlinear_arith)
        requires
            n >= 1,
            nc == n * c,
    ;
    assert(is_floor_sqrt(0, 0));
    lemma_floor_sqrt_unique(0, 0, floor_sqrt(0));
    assert(0int / n == 0) by (nonlinear_arith)
        requires
            n >= 1,
    ;
    let k = multiplier as int;
    assert(k * 0 == 0) by (nonlinear_arith);
}

} // verus!
