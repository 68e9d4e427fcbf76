//! Volume-weighted moving average of the close.

use vstd::prelude::*;
use crate::bar::Bar;
use crate::fixed::div_floor;
use crate::fixed::lift_wide;
use crate::fixed::quot;
use crate::fixed::VALUE_MAX;
use crate::history::last_n;
use crate::history::lemma_last_n_push_bounded;
use crate::history::push_bounded;
use crate::history::HistoryBuffer;
use crate::history::MAX_CAPACITY;
use crate::series::lemma_sum_bounds;
use crate::series::sum;
use crate::window::dot;
use crate::window::lemma_dot_bounds;
use crate::window::lemma_dot_window_push;
use crate::window::lemma_sum_window_push;
use crate::window::window_with;

verus! {

/// The mean of prices weighted by volume, from the sum of price times volume
/// and the sum of volumes; zero when no volume traded.
pub open spec fn volume_weighted(sum_pv: int, sum_vol: int) -> int {
    if sum_vol == 0 {
        0
    } else {
        quot(sum_pv, sum_vol)
    }
}

/// The sum of close times volume and the sum of volumes over the window.
#[derive(Clone, Copy, Debug, PartialEq, Eq, Structural)]
pub struct VwmaState {
    pub length: usize,
    pub sum_pv: i128,
    pub sum_vol: i128,
    pub initialized: bool,
}

impl VwmaState {
    /// The state holds the two sums over the window of two series that are
    /// long enough.
    pub open spec fn tracks(&self, closes: Seq<i64>, volumes: Seq<i64>) -> bool {
        self.initialized ==> {
            &&& 1 <= self.length <= closes.len()
            &&& closes.len() == volumes.len()
            &&& self.sum_pv == dot(
                last_n(closes, self.length as nat),
                last_n(volumes, self.length as nat),
            )
            &&& self.sum_vol == sum(last_n(volumes, self.length as nat))
        }
    }

    /// The two sums are those of at most `MAX_CAPACITY` admissible values.
    pub open spec fn bounded(&self) -> bool {
        &&& 1 <= self.length <= MAX_CAPACITY
        &&& -self.length * VALUE_MAX <= self.sum_vol <= self.length * VALUE_MAX
        &&& -self.length * (VALUE_MAX * VALUE_MAX) <= self.sum_pv <= self.length * (VALUE_MAX
            * VALUE_MAX)
    }

    /// The state of an instance that history could not seed.
    pub open spec fn idle(length: usize) -> VwmaState {
        VwmaState { length, sum_pv: 0, sum_vol: 0, initialized: false }
    }

    /// The kept history seeds the average when it holds a full window.
    pub open spec fn ready(len: nat, length: usize) -> bool {
        1 <= length <= len
    }

    /// The state after warm-up on the kept closes and volumes.
    pub open spec fn warmed(closes: Seq<i64>, volumes: Seq<i64>, length: usize) -> VwmaState {
        if Self::ready(closes.len(), length) {
            VwmaState {
                length,
                sum_pv: dot(last_n(closes, length as nat), last_n(volumes, length as nat)) as i128,
                sum_vol: sum(last_n(volumes, length as nat)) as i128,
                initialized: true,
            }
        } else {
            Self::idle(length)
        }
    }

    /// The state once a bar has arrived after the kept history. An idle
    /// instance stays as it is.
    pub open spec fn advanced(self, closes: Seq<i64>, volumes: Seq<i64>, bar: Bar) -> VwmaState {
        if self.initialized && closes.len() >= self.length {
            VwmaState {
                length: self.length,
                sum_pv: dot(
                    window_with(closes, bar.close, self.length as nat),
                    window_with(volumes, bar.volume, self.length as nat),
                ) as i128,
                sum_vol: sum(window_with(volumes, bar.volume, self.length as nat)) as i128,
                initialized: true,
            }
        } else {
            self
        }
    }

    /// The average that the state stands for.
    pub open spec fn value(self) -> int {
        volume_weighted(self.sum_pv as int, self.sum_vol as int)
    }

    /// The average as it would stand once a bar has arrived; nothing for an
    /// idle instance.
    pub open spec fn previewed(self, closes: Seq<i64>, volumes: Seq<i64>, bar: Bar) -> Option<int> {
        if self.initialized && closes.len() >= self.length {
            Some(self.advanced(closes, volumes, bar).value())
        } else {
            None
        }
    }

    /// Seeds the state from the kept history.
    pub fn warm_up(history: &HistoryBuffer, length: usize) -> (state: VwmaState)
        requires
            history.wf(),
        ensures
            state == Self::warmed(history.closes(), history.volumes(), length),
            state.tracks(history.closes(), history.volumes()),
            state.initialized ==> state.bounded(),
    {
        let len: usize = history.len();
        if !(1 <= length && length <= len) {
            return VwmaState { length, sum_pv: 0, sum_vol: 0, initialized: false };
        }
        let start: usize = len - length;
        let mut sum_pv: i128 = 0;
        let mut sum_vol: i128 = 0;
        let mut i: usize = start;
        let ghost c = history.closes();
        let ghost v = history.volumes();
        let ghost m = VALUE_MAX as int;
        assert(c.subrange(start as int, start as int) =~= Seq::<i64>::empty());
        assert(v.subrange(start as int, start as int) =~= Seq::<i64>::empty());
        while i < len
            invariant
                history.wf(),
                c == history.closes(),
                v == history.volumes(),
                m == VALUE_MAX,
                len == history.spec_len(),
                len <= MAX_CAPACITY,
                start <= i <= len,
                sum_vol == sum(v.subrange(start as int, i as int)),
                sum_pv == dot(
                    c.subrange(start as int, i as int),
                    v.subrange(start as int, i as int),
                ),
                -(i - start) * m <= sum_vol <= (i - start) * m,
                -(i - start) * (m * m) <= sum_pv <= (i - start) * (m * m),
            decreases len - i,
        {
            let price: i64 = history.close_at(i);
            let volume: i64 = history.volume_at(i);
            proof {
                assert(c.subrange(start as int, i + 1).drop_last() =~= c.subrange(
                    start as int,
                    i as int,
                ));
                assert(v.subrange(start as int, i + 1).drop_last() =~= v.subrange(
                    start as int,
                    i as int,
                ));
                let p = price as int;
                let q = volume as int;
                let k = i - start;
                assert(-(m * m) <= p * q <= m * m) by (nonlinear_arith)
                    requires
                        -m <= p <= m,
                        -m <= q <= m,
                ;
                assert((k + 1) * (m * m) == k * (m * m) + m * m) by (nonlinear_arith);
                assert((k + 1) * (m * m) <= 4096 * (m * m)) by (nonlinear_arith)
                    requires
                        0 <= k + 1 <= 4096,
                ;
                assert((k + 1) * m <= 4096 * m) by (nonlinear_arith)
                    requires
                        0 <= k + 1 <= 4096,
                        m >= 0,
                ;
                assert(m * m == 1_000_000_000_000_000_000_000_000_000_000) by (nonlinear_arith)
                    requires
                        m == 1_000_000_000_000_000,
                ;
            }
            sum_pv = sum_pv + (price as i128) * (volume as i128);
            sum_vol = sum_vol + volume as i128;
            i += 1;
        }
        assert(c.subrange(start as int, len as int) =~= last_n(c, length as nat));
        assert(v.subrange(start as int, len as int) =~= last_n(v, length as nat));
        VwmaState { length, sum_pv, sum_vol, initialized: true }
    }

    /// The state one bar later, read against the history before the bar.
    pub fn step(&self, history: &HistoryBuffer, bar: &Bar) -> (next: VwmaState)
        requires
            history.wf(),
            bar.in_range(),
            self.tracks(history.closes(), history.volumes()),
        ensures
            next == self.advanced(history.closes(), history.volumes(), *bar),
            next.tracks(
                push_bounded(history.closes(), bar.close, history.spec_capacity()),
                push_bounded(history.volumes(), bar.volume, history.spec_capacity()),
            ),
            next.initialized ==> next.bounded(),
    {
        if !self.initialized {
            return *self;
        }
        let len: usize = history.len();
        let old_close: i64 = history.close_at(len - self.length);
        let old_volume: i64 = history.volume_at(len - self.length);
        proof {
            let c = history.closes();
            let v = history.volumes();
            let n = self.length as nat;
            let m = VALUE_MAX as int;
            lemma_sum_window_push(v, bar.volume, n);
            lemma_dot_window_push(c, v, bar.close, bar.volume, n);
            lemma_last_n_push_bounded(c, bar.close, n, history.spec_capacity());
            lemma_last_n_push_bounded(v, bar.volume, n, history.spec_capacity());
            lemma_sum_bounds(last_n(v, n), -m, m);
            lemma_sum_bounds(window_with(v, bar.volume, n), -m, m);
            lemma_dot_bounds(last_n(c, n), last_n(v, n));
            lemma_dot_bounds(window_with(c, bar.close, n), window_with(v, bar.volume, n));
            let a = bar.close as int;
            let b = bar.volume as int;
            let p = old_close as int;
            let q = old_volume as int;
            assert(-(m * m) <= a * b <= m * m) by (nonlinear_arith)
                requires
                    -m <= a <= m,
                    -m <= b <= m,
            ;
            assert(-(m * m) <= p * q <= m * m) by (nonlinear_arith)
                requires
                    -m <= p <= m,
                    -m <= q <= m,
            ;
            assert(n * (m * m) <= 4096 * (m * m)) by (nonlinear_arith)
                requires
                    0 <= n <= 4096,
            ;
            assert((-n) * (m * m) == -(n * (m * m))) by (nonlinear_arith);
            assert(n * m <= 4096 * m) by (nonlinear_arith)
                requires
                    0 <= n <= 4096,
                    m >= 0,
            ;
            assert(m * m == 1_000_000_000_000_000_000_000_000_000_000) by (nonlinear_arith)
                requires
                    m == 1_000_000_000_000_000,
            ;
        }
        VwmaState {
            length: self.length,
            sum_pv: self.sum_pv - (old_close as i128) * (old_volume as i128) + (bar.close as i128)
                * (bar.volume as i128),
            sum_vol: self.sum_vol - old_volume as i128 + bar.volume as i128,
            initialized: true,
        }
    }

    /// The average that the state stands for.
    pub fn current(&self) -> (v: i128)
        requires
            self.bounded(),
        ensures
            v == self.value(),
    {
        proof {
            let m = VALUE_MAX as int;
            let n = self.length as int;
            assert(n * (m * m) <= 4096 * (m * m)) by (nonlinear_arith)
                requires
                    0 <= n <= 4096,
            ;
            assert((-n) * (m * m) == -(n * (m * m))) by (nonlinear_arith);
            assert(n * m <= 4096 * m) by (nonlinear_arith)
                requires
                    0 <= n <= 4096,
                    m >= 0,
            ;
            assert(m * m == 1_000_000_000_000_000_000_000_000_000_000) by (nonlinear_arith)
                requires
                    m == 1_000_000_000_000_000,
            ;
        }
        if self.sum_vol == 0 {
            0
        } else {
            div_floor(self.sum_pv, self.sum_vol)
        }
    }

    /// The average as it would stand after `bar`, leaving the state untouched.
    pub fn preview(&self, history: &HistoryBuffer, bar: &Bar) -> (v: Option<i128>)
        requires
            history.wf(),
            bar.in_range(),
            self.tracks(history.closes(), history.volumes()),
        ensures
            lift_wide(v) == self.previewed(history.closes(), history.volumes(), *bar),
    {
        if self.initialized {
            Some(self.step(history, bar).current())
        } else {
            None
        }
    }
}

} // verus!
