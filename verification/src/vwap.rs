//! Volume-weighted average price since an anchor: the typical price of every
//! bar since then, weighted by the bar's volume.
//!
//! The anchor is the start of the history that the state was warmed up on,
//! until the host starts the state anew. The two sums grow without end, so a
//! state takes a bar only while the sums have room for it; after that it
//! stands still.

use vstd::prelude::*;
use crate::bar::Bar;
use crate::cci::typical;
use crate::fixed::all_in_range;
use crate::fixed::div_floor;
use crate::fixed::in_range;
use crate::fixed::quot;
use crate::fixed::VALUE_MAX;

verus! {

/// Largest magnitude that either sum may have before a bar is taken.
pub const VWAP_ROOM: i128 = 1_000_000_000_000_000_000_000_000_000_000_000_000;

/// Largest magnitude that either sum can reach.
pub const VWAP_MAX: i128 = 1_000_001_000_000_000_000_000_000_000_000_000_000;

/// The position of the instance among the configured anchors, the summed
/// volume, and the summed price times volume.
#[derive(Clone, Copy, Debug, PartialEq, Eq, Structural)]
pub struct VwapState {
    pub slot: usize,
    pub cum_vol: i128,
    pub cum_pv: i128,
}

impl VwapState {
    /// Neither sum is beyond what it can reach.
    pub open spec fn wf(&self) -> bool {
        &&& -VWAP_MAX <= self.cum_vol <= VWAP_MAX
        &&& -VWAP_MAX <= self.cum_pv <= VWAP_MAX
    }

    /// The state at the start of an anchor period.
    pub open spec fn start(slot: usize) -> VwapState {
        VwapState { slot, cum_vol: 0, cum_pv: 0 }
    }

    /// Both sums leave room for one more bar.
    pub open spec fn has_room(self) -> bool {
        &&& -VWAP_ROOM <= self.cum_vol <= VWAP_ROOM
        &&& -VWAP_ROOM <= self.cum_pv <= VWAP_ROOM
    }

    /// The state one bar later, from the bar's high, low, close and volume.
    /// While the sums have room, the bar's typical price times its volume
    /// joins the one sum and its volume the other; else the state stands
    /// still.
    pub open spec fn taken_by(self, high: i64, low: i64, close: i64, volume: i64) -> VwapState {
        if self.has_room() {
            let tp = typical(high as int, low as int, close as int);
            VwapState {
                slot: self.slot,
                cum_vol: (self.cum_vol + volume) as i128,
                cum_pv: (self.cum_pv + tp * volume) as i128,
            }
        } else {
            self
        }
    }

    /// The state one bar later.
    pub open spec fn advanced(self, bar: Bar) -> VwapState {
        self.taken_by(bar.high, bar.low, bar.close, bar.volume)
    }

    /// The state after warm-up on a series of bars: the start, advanced over
    /// every bar.
    pub open spec fn warmed(
        highs: Seq<i64>,
        lows: Seq<i64>,
        closes: Seq<i64>,
        volumes: Seq<i64>,
        slot: usize,
    ) -> VwapState
        decreases closes.len(),
    {
        if closes.len() == 0 {
            Self::start(slot)
        } else {
            Self::warmed(
                highs.drop_last(),
                lows.drop_last(),
                closes.drop_last(),
                volumes.drop_last(),
                slot,
            ).taken_by(highs.last(), lows.last(), closes.last(), volumes.last())
        }
    }

    /// The average that the state stands for; zero while no volume has traded.
    pub open spec fn value(self) -> int {
        if self.cum_vol == 0 {
            0
        } else {
            quot(self.cum_pv as int, self.cum_vol as int)
        }
    }

    /// The average as it would stand after `bar`.
    pub open spec fn previewed(self, bar: Bar) -> Option<int> {
        Some(self.advanced(bar).value())
    }

    /// The state at the start of an anchor period.
    pub fn new(slot: usize) -> (state: VwapState)
        ensures
            state == Self::start(slot),
            state.wf(),
    {
        VwapState { slot, cum_vol: 0, cum_pv: 0 }
    }

    /// Whether both sums leave room for one more bar.
    pub fn room(&self) -> (ok: bool)
        ensures
            ok == self.has_room(),
    {
        -VWAP_ROOM <= self.cum_vol && self.cum_vol <= VWAP_ROOM && -VWAP_ROOM <= self.cum_pv
            && self.cum_pv <= VWAP_ROOM
    }

    /// The state one bar later, from the bar's high, low, close and volume.
    pub fn step_by(&self, high: i64, low: i64, close: i64, volume: i64) -> (next: VwapState)
        requires
            self.wf(),
            in_range(high as int),
            in_range(low as int),
            in_range(close as int),
            in_range(volume as int),
        ensures
            next == self.taken_by(high, low, close, volume),
            next.wf(),
            next.slot == self.slot,
    {
        if !self.room() {
            return *self;
        }
        let tp: i64 = Bar::new(0, high, low, close, 0, 0).typical_price();
        proof {
            let t = tp as int;
            let v = volume as int;
            let m = VALUE_MAX as int;
            assert(-(m * m) <= t * v <= m * m) by (nonlinear_arith)
                requires
                    -m <= t <= m,
                    -m <= v <= m,
            ;
            assert(m * m == 1_000_000_000_000_000_000_000_000_000_000) by (nonlinear_arith)
                requires
                    m == 1_000_000_000_000_000,
            ;
        }
        VwapState {
            slot: self.slot,
            cum_vol: self.cum_vol + volume as i128,
            cum_pv: self.cum_pv + (tp as i128) * (volume as i128),
        }
    }

    /// The state one bar later.
    pub fn step(&self, bar: &Bar) -> (next: VwapState)
        requires
            self.wf(),
            bar.in_range(),
        ensures
            next == self.advanced(*bar),
            next.wf(),
            next.slot == self.slot,
    {
        self.step_by(bar.high, bar.low, bar.close, bar.volume)
    }

    /// Seeds the state from a series of bars.
    pub fn warm_up(
        highs: &[i64],
        lows: &[i64],
        closes: &[i64],
        volumes: &[i64],
        slot: usize,
    ) -> (state: VwapState)
        requires
            highs.len() == closes.len(),
            lows.len() == closes.len(),
            volumes.len() == closes.len(),
            all_in_range(highs@),
            all_in_range(lows@),
            all_in_range(closes@),
            all_in_range(volumes@),
        ensures
            state == Self::warmed(highs@, lows@, closes@, volumes@, slot),
            state.wf(),
            state.slot == slot,
    {
        let mut state = VwapState { slot, cum_vol: 0, cum_pv: 0 };
        let mut i: usize = 0;
        while i < closes.len()
            invariant
                i <= closes.len(),
                highs.len() == closes.len(),
                lows.len() == closes.len(),
                volumes.len() == closes.len(),
                all_in_range(highs@),
                all_in_range(lows@),
                all_in_range(closes@),
                all_in_range(volumes@),
                state == Self::warmed(
                    highs@.subrange(0, i as int),
                    lows@.subrange(0, i as int),
                    closes@.subrange(0, i as int),
                    volumes@.subrange(0, i as int),
                    slot,
                ),
                state.wf(),
                state.slot == slot,
            decreases closes.len() - i,
        {
            proof {
                assert(highs@.subrange(0, i + 1).drop_last() =~= highs@.subrange(0, i as int));
                assert(lows@.subrange(0, i + 1).drop_last() =~= lows@.subrange(0, i as int));
                assert(closes@.subrange(0, i + 1).drop_last() =~= closes@.subrange(0, i as int));
                assert(volumes@.subrange(0, i + 1).drop_last() =~= volumes@.subrange(0, i as int));
            }
            state = state.step_by(highs[i], lows[i], closes[i], volumes[i]);
            i += 1;
        }
        proof {
            assert(highs@.subrange(0, closes.len() as int) =~= highs@);
            assert(lows@.subrange(0, closes.len() as int) =~= lows@);
            assert(closes@.subrange(0, closes.len() as int) =~= closes@);
            assert(volumes@.subrange(0, closes.len() as int) =~= volumes@);
        }
        state
    }

    /// The average that the state stands for.
    pub fn current(&self) -> (v: i128)
        requires
            self.wf(),
        ensures
            v == self.value(),
    {
        if self.cum_vol == 0 {
            0
        } else {
            div_floor(self.cum_pv, self.cum_vol)
        }
    }

    /// The average as it would stand after `bar`, leaving the state untouched.
    pub fn preview(&self, bar: &Bar) -> (v: i128)
        requires
            self.wf(),
            bar.in_range(),
        ensures
            self.previewed(*bar) == Some(v as int),
    {
        self.step(bar).current()
    }
}

/// Warm-up keeps the position it was given.
pub proof fn lemma_vwap_warmed_slot(
    highs: Seq<i64>,
    lows: Seq<i64>,
    closes: Seq<i64>,
    volumes: Seq<i64>,
    slot: usize,
)
    ensures
        VwapState::warmed(highs, lows, closes, volumes, slot).slot == slot,
    decreases closes.len(),
{
    if closes.len() > 0 {
        lemma_vwap_warmed_slot(
            highs.drop_last(),
            lows.drop_last(),
            closes.drop_last(),
            volumes.drop_last(),
            slot,
        );
    }
}

/// Warm-up on a series that is one bar longer gives the state that one advance
/// from the warm-up on the shorter series gives.
pub proof fn lemma_vwap_warm_up_extends(
    highs: Seq<i64>,
    lows: Seq<i64>,
    closes: Seq<i64>,
    volumes: Seq<i64>,
    bar: Bar,
    slot: usize,
)
    ensures
        VwapState::warmed(
            highs.push(bar.high),
            lows.push(bar.low),
            closes.push(bar.close),
            volumes.push(bar.volume),
            slot,
        ) == VwapState::warmed(highs, lows, closes, volumes, slot).advanced(bar),
{
    assert(highs.push(bar.high).drop_last() =~= highs);
    assert(lows.push(bar.low).drop_last() =~= lows);
    assert(closes.push(bar.close).drop_last() =~= closes);
    assert(volumes.push(bar.volume).drop_last() =~= volumes);
}

} // verus!
