//! One configured indicator instance of any family: its key, its state, and
//! the three operations that every family offers.

use vstd::prelude::*;
use crate::adx::AdxState;
use crate::adx::AdxValue;
use crate::atr::AtrState;
use crate::bar::Bar;
use crate::bar::Source;
use crate::bollinger::BbState;
use crate::bollinger::BollingerValue;
use crate::cci::CciModel;
use crate::cci::CciState;
use crate::chop::ChopModel;
use crate::chop::ChopState;
use crate::chop::ChopValue;
use crate::ema::EmaState;
use crate::history::recent;
use crate::history::HistoryBuffer;
use crate::history::Series;
use crate::macd::MacdState;
use crate::macd::MacdValue;
use crate::mfi::MfiModel;
use crate::mfi::MfiState;
use crate::momentum::MomState;
use crate::momentum::WrState;
use crate::psar::PsarState;
use crate::psar::PsarValue;
use crate::rsi::RsiState;
use crate::sma::SmaState;
use crate::stochastic::StochModel;
use crate::stochastic::StochState;
use crate::stochastic::StochValue;
use crate::supertrend::SuperTrendState;
use crate::supertrend::SuperTrendValue;
use crate::vwap::VwapState;
use crate::vwma::VwmaState;
use crate::wma::HmaState;
use crate::wma::WmaState;

verus! {

/// What identifies one configured instance: its family and its parameters.
#[derive(Clone, Copy, Debug, PartialEq, Eq, Structural)]
pub enum IndicatorKey {
    Ema { length: usize },
    Sma { length: usize },
    Wma { length: usize },
    Vwma { length: usize },
    Hma { length: usize },
    Rsi { length: usize },
    Macd { fast: usize, slow: usize, signal: usize },
    Bb { length: usize, multiplier: i64 },
    Atr { length: usize },
    Stoch { k: usize, d: usize, smooth: usize },
    Cci { length: usize },
    Adx { length: usize },
    SuperTrend { length: usize, multiplier: i64 },
    Mom { length: usize },
    Wr { length: usize },
    VolMa { length: usize },
    Chop { length: usize },
    Mfi { length: usize },
    Psar { start: i64, increment: i64, max: i64 },
    /// The volume-weighted average price of the anchor at position `slot` of
    /// the configuration.
    Vwap { slot: usize },
}

/// The partition of the output that a family reports in.
#[derive(Clone, Copy, Debug, PartialEq, Eq, Structural)]
pub enum Category {
    MovingAverages,
    Oscillators,
    Volatility,
}

impl IndicatorKey {
    /// The partition of the output that the key's family reports in.
    pub open spec fn category(self) -> Category {
        match self {
            IndicatorKey::Ema { .. } => Category::MovingAverages,
            IndicatorKey::Sma { .. } => Category::MovingAverages,
            IndicatorKey::Wma { .. } => Category::MovingAverages,
            IndicatorKey::Vwma { .. } => Category::MovingAverages,
            IndicatorKey::Hma { .. } => Category::MovingAverages,
            IndicatorKey::VolMa { .. } => Category::MovingAverages,
            IndicatorKey::Rsi { .. } => Category::Oscillators,
            IndicatorKey::Macd { .. } => Category::Oscillators,
            IndicatorKey::Stoch { .. } => Category::Oscillators,
            IndicatorKey::Cci { .. } => Category::Oscillators,
            IndicatorKey::Adx { .. } => Category::Oscillators,
            IndicatorKey::Mom { .. } => Category::Oscillators,
            IndicatorKey::Wr { .. } => Category::Oscillators,
            IndicatorKey::Mfi { .. } => Category::Oscillators,
            IndicatorKey::Bb { .. } => Category::Volatility,
            IndicatorKey::Atr { .. } => Category::Volatility,
            IndicatorKey::SuperTrend { .. } => Category::Volatility,
            IndicatorKey::Chop { .. } => Category::Volatility,
            IndicatorKey::Psar { .. } => Category::Volatility,
            IndicatorKey::Vwap { .. } => Category::Volatility,
        }
    }

    /// The partition of the output that the key's family reports in.
    pub fn partition(&self) -> (c: Category)
        ensures
            c == self.category(),
    {
        match self {
            IndicatorKey::Ema { .. } => Category::MovingAverages,
            IndicatorKey::Sma { .. } => Category::MovingAverages,
            IndicatorKey::Wma { .. } => Category::MovingAverages,
            IndicatorKey::Vwma { .. } => Category::MovingAverages,
            IndicatorKey::Hma { .. } => Category::MovingAverages,
            IndicatorKey::VolMa { .. } => Category::MovingAverages,
            IndicatorKey::Rsi { .. } => Category::Oscillators,
            IndicatorKey::Macd { .. } => Category::Oscillators,
            IndicatorKey::Stoch { .. } => Category::Oscillators,
            IndicatorKey::Cci { .. } => Category::Oscillators,
            IndicatorKey::Adx { .. } => Category::Oscillators,
            IndicatorKey::Mom { .. } => Category::Oscillators,
            IndicatorKey::Wr { .. } => Category::Oscillators,
            IndicatorKey::Mfi { .. } => Category::Oscillators,
            IndicatorKey::Bb { .. } => Category::Volatility,
            IndicatorKey::Atr { .. } => Category::Volatility,
            IndicatorKey::SuperTrend { .. } => Category::Volatility,
            IndicatorKey::Chop { .. } => Category::Volatility,
            IndicatorKey::Psar { .. } => Category::Volatility,
            IndicatorKey::Vwap { .. } => Category::Volatility,
        }
    }
}

/// What one instance reports for a bar.
#[derive(Clone, Copy, Debug, PartialEq, Eq, Structural)]
pub enum Reading {
    /// A single value, in ticks.
    Single(i128),
    Macd(MacdValue),
    Bands(BollingerValue),
    Stoch(StochValue),
    Adx(AdxValue),
    SuperTrend(SuperTrendValue),
    Chop(ChopValue),
    Psar(PsarValue),
}

/// A single value, if there is one, as a reading.
pub open spec fn single(v: Option<int>) -> Option<Reading> {
    match v {
        Some(x) => Some(Reading::Single(x as i128)),
        None => None,
    }
}

/// The state of one instance, whatever its family.
#[derive(Clone, Debug, PartialEq, Eq)]
pub enum Indicator {
    Ema(EmaState),
    Sma(SmaState),
    Wma(WmaState),
    Vwma(VwmaState),
    Hma(HmaState),
    Rsi(RsiState),
    Macd(MacdState),
    Bb(BbState),
    Atr(AtrState),
    Stoch(StochState),
    Cci(CciState),
    Adx(AdxState),
    SuperTrend(SuperTrendState),
    Mom(MomState),
    Wr(WrState),
    VolMa(SmaState),
    Chop(ChopState),
    Mfi(MfiState),
    Psar(PsarState),
    Vwap(VwapState),
}

/// What an instance's state holds.
pub enum IndicatorModel {
    Ema(EmaState),
    Sma(SmaState),
    Wma(WmaState),
    Vwma(VwmaState),
    Hma(HmaState),
    Rsi(RsiState),
    Macd(MacdState),
    Bb(BbState),
    Atr(AtrState),
    Stoch(StochModel),
    Cci(CciModel),
    Adx(AdxState),
    SuperTrend(SuperTrendState),
    Mom(MomState),
    Wr(WrState),
    VolMa(SmaState),
    Chop(ChopModel),
    Mfi(MfiModel),
    Psar(PsarState),
    Vwap(VwapState),
}

impl View for Indicator {
    type V = IndicatorModel;

    open spec fn view(&self) -> IndicatorModel {
        match self {
            Indicator::Ema(s) => IndicatorModel::Ema(*s),
            Indicator::Sma(s) => IndicatorModel::Sma(*s),
            Indicator::Wma(s) => IndicatorModel::Wma(*s),
            Indicator::Vwma(s) => IndicatorModel::Vwma(*s),
            Indicator::Hma(s) => IndicatorModel::Hma(*s),
            Indicator::Rsi(s) => IndicatorModel::Rsi(*s),
            Indicator::Macd(s) => IndicatorModel::Macd(*s),
            Indicator::Bb(s) => IndicatorModel::Bb(*s),
            Indicator::Atr(s) => IndicatorModel::Atr(*s),
            Indicator::Stoch(s) => IndicatorModel::Stoch(s@),
            Indicator::Cci(s) => IndicatorModel::Cci(s@),
            Indicator::Adx(s) => IndicatorModel::Adx(*s),
            Indicator::SuperTrend(s) => IndicatorModel::SuperTrend(*s),
            Indicator::Mom(s) => IndicatorModel::Mom(*s),
            Indicator::Wr(s) => IndicatorModel::Wr(*s),
            Indicator::VolMa(s) => IndicatorModel::VolMa(*s),
            Indicator::Chop(s) => IndicatorModel::Chop(s@),
            Indicator::Mfi(s) => IndicatorModel::Mfi(s@),
            Indicator::Psar(s) => IndicatorModel::Psar(*s),
            Indicator::Vwap(s) => IndicatorModel::Vwap(*s),
        }
    }
}

impl IndicatorModel {
    /// The key that the instance was configured with.
    pub open spec fn key(self) -> IndicatorKey {
        match self {
            IndicatorModel::Ema(s) => IndicatorKey::Ema { length: s.length },
            IndicatorModel::Sma(s) => IndicatorKey::Sma { length: s.length },
            IndicatorModel::Wma(s) => IndicatorKey::Wma { length: s.length },
            IndicatorModel::Vwma(s) => IndicatorKey::Vwma { length: s.length },
            IndicatorModel::Hma(s) => IndicatorKey::Hma { length: s.length },
            IndicatorModel::Rsi(s) => IndicatorKey::Rsi { length: s.length },
            IndicatorModel::Macd(s) => IndicatorKey::Macd {
                fast: s.fast,
                slow: s.slow,
                signal: s.signal,
            },
            IndicatorModel::Bb(s) => IndicatorKey::Bb {
                length: s.length,
                multiplier: s.multiplier,
            },
            IndicatorModel::Atr(s) => IndicatorKey::Atr { length: s.length },
            IndicatorModel::Stoch(s) => IndicatorKey::Stoch {
                k: s.k_len,
                d: s.d_len,
                smooth: s.smooth,
            },
            IndicatorModel::Cci(s) => IndicatorKey::Cci { length: s.length },
            IndicatorModel::Adx(s) => IndicatorKey::Adx { length: s.length },
            IndicatorModel::SuperTrend(s) => IndicatorKey::SuperTrend {
                length: s.length,
                multiplier: s.multiplier,
            },
            IndicatorModel::Mom(s) => IndicatorKey::Mom { length: s.length },
            IndicatorModel::Wr(s) => IndicatorKey::Wr { length: s.length },
            IndicatorModel::VolMa(s) => IndicatorKey::VolMa { length: s.length },
            IndicatorModel::Chop(s) => IndicatorKey::Chop { length: s.length },
            IndicatorModel::Mfi(s) => IndicatorKey::Mfi { length: s.length },
            IndicatorModel::Psar(s) => IndicatorKey::Psar {
                start: s.start_af,
                increment: s.inc_af,
                max: s.max_af,
            },
            IndicatorModel::Vwap(s) => IndicatorKey::Vwap { slot: s.slot },
        }
    }

    /// Whether history seeded the instance.
    pub open spec fn initialized(self) -> bool {
        match self {
            IndicatorModel::Ema(s) => s.initialized,
            IndicatorModel::Sma(s) => s.initialized,
            IndicatorModel::Wma(s) => s.initialized,
            IndicatorModel::Vwma(s) => s.initialized,
            IndicatorModel::Hma(s) => s.initialized,
            IndicatorModel::Rsi(s) => s.initialized,
            IndicatorModel::Macd(s) => s.initialized,
            IndicatorModel::Bb(s) => s.initialized,
            IndicatorModel::Atr(s) => s.initialized,
            IndicatorModel::Stoch(s) => s.initialized,
            IndicatorModel::Cci(s) => s.initialized,
            IndicatorModel::Adx(s) => s.initialized,
            IndicatorModel::SuperTrend(s) => s.initialized,
            IndicatorModel::Mom(s) => s.initialized,
            IndicatorModel::Wr(s) => s.initialized,
            IndicatorModel::VolMa(s) => s.initialized,
            IndicatorModel::Chop(s) => s.initialized,
            IndicatorModel::Mfi(s) => s.initialized,
            IndicatorModel::Psar(s) => s.initialized,
            IndicatorModel::Vwap(s) => true,
        }
    }

    /// The state is valid by itself and agrees with the kept history.
    pub open spec fn wf(self, kept: Series) -> bool {
        match self {
            IndicatorModel::Ema(s) => s.wf(),
            IndicatorModel::Sma(s) => s.source == Source::Close && s.tracks(kept.closes),
            IndicatorModel::Wma(s) => s.wf(kept.len()),
            IndicatorModel::Vwma(s) => s.tracks(kept.closes, kept.volumes),
            IndicatorModel::Hma(s) => s.wf(kept.len()),
            IndicatorModel::Rsi(s) => s.wf(),
            IndicatorModel::Macd(s) => s.wf(),
            IndicatorModel::Bb(s) => s.tracks(kept.closes),
            IndicatorModel::Atr(s) => s.wf(),
            IndicatorModel::Stoch(s) => s.wf(kept.len()),
            IndicatorModel::Cci(s) => s.wf(),
            IndicatorModel::Adx(s) => s.wf(),
            IndicatorModel::SuperTrend(s) => s.wf(),
            IndicatorModel::Mom(s) => s.wf(kept.len()),
            IndicatorModel::Wr(s) => s.wf(kept.len()),
            IndicatorModel::VolMa(s) => s.source == Source::Volume && s.tracks(kept.volumes),
            IndicatorModel::Chop(s) => s.wf(),
            IndicatorModel::Mfi(s) => s.wf(),
            IndicatorModel::Psar(s) => s.wf(),
            IndicatorModel::Vwap(s) => s.wf(),
        }
    }

    /// The state of the instance with the given key after warm-up on the whole
    /// of history, of which a buffer of the given capacity keeps the most
    /// recent bars.
    pub open spec fn warmed(key: IndicatorKey, all: Series, capacity: nat) -> IndicatorModel {
        let kept = all.recent(capacity);
        match key {
            IndicatorKey::Ema { length } => IndicatorModel::Ema(
                EmaState::warmed(all.closes, length),
            ),
            IndicatorKey::Sma { length } => IndicatorModel::Sma(
                SmaState::warmed(kept.closes, Source::Close, length),
            ),
            IndicatorKey::Wma { length } => IndicatorModel::Wma(
                WmaState::warmed(kept.closes, length),
            ),
            IndicatorKey::Vwma { length } => IndicatorModel::Vwma(
                VwmaState::warmed(kept.closes, kept.volumes, length),
            ),
            IndicatorKey::Hma { length } => IndicatorModel::Hma(
                HmaState::warmed(kept.closes, all.len(), length),
            ),
            IndicatorKey::Rsi { length } => IndicatorModel::Rsi(
                RsiState::warmed(all.closes, length),
            ),
            IndicatorKey::Macd { fast, slow, signal } => IndicatorModel::Macd(
                MacdState::warmed(all.closes, fast, slow, signal),
            ),
            IndicatorKey::Bb { length, multiplier } => IndicatorModel::Bb(
                BbState::warmed(kept.closes, length, multiplier),
            ),
            IndicatorKey::Atr { length } => IndicatorModel::Atr(
                AtrState::warmed(all.highs, all.lows, all.closes, length),
            ),
            IndicatorKey::Stoch { k, d, smooth } => IndicatorModel::Stoch(
                StochModel::warmed(all.highs, all.lows, all.closes, capacity, k, d, smooth),
            ),
            IndicatorKey::Cci { length } => IndicatorModel::Cci(
                CciModel::warmed(all.highs, all.lows, all.closes, length),
            ),
            IndicatorKey::Adx { length } => IndicatorModel::Adx(
                AdxState::warmed(all.highs, all.lows, all.closes, length),
            ),
            IndicatorKey::SuperTrend { length, multiplier } => IndicatorModel::SuperTrend(
                SuperTrendState::warmed(all.highs, all.lows, all.closes, length, multiplier),
            ),
            IndicatorKey::Mom { length } => IndicatorModel::Mom(
                MomState::warmed(kept.len(), length),
            ),
            IndicatorKey::Wr { length } => IndicatorModel::Wr(WrState::warmed(kept.len(), length)),
            IndicatorKey::VolMa { length } => IndicatorModel::VolMa(
                SmaState::warmed(kept.volumes, Source::Volume, length),
            ),
            IndicatorKey::Chop { length } => IndicatorModel::Chop(
                ChopModel::warmed(all.highs, all.lows, all.closes, length),
            ),
            IndicatorKey::Mfi { length } => IndicatorModel::Mfi(
                MfiModel::warmed(all.highs, all.lows, all.closes, all.volumes, length),
            ),
            IndicatorKey::Psar { start, increment, max } => IndicatorModel::Psar(
                PsarState::warmed(all.highs, all.lows, all.closes, start, increment, max),
            ),
            IndicatorKey::Vwap { slot } => IndicatorModel::Vwap(
                VwapState::warmed(all.highs, all.lows, all.closes, all.volumes, slot),
            ),
        }
    }

    /// The state once `bar` has arrived after the kept history, by the
    /// family's recurrence. An instance that history did not seed stays as it
    /// is.
    pub open spec fn advanced(self, kept: Series, bar: Bar) -> IndicatorModel {
        match self {
            IndicatorModel::Ema(s) => IndicatorModel::Ema(s.advanced(bar)),
            IndicatorModel::Sma(s) => IndicatorModel::Sma(s.advanced(kept.closes, bar.close)),
            IndicatorModel::Wma(s) => IndicatorModel::Wma(s.advanced(kept.closes, bar.close)),
            IndicatorModel::Vwma(s) => IndicatorModel::Vwma(
                s.advanced(kept.closes, kept.volumes, bar),
            ),
            IndicatorModel::Hma(s) => IndicatorModel::Hma(s.advanced(kept.closes, bar.close)),
            IndicatorModel::Rsi(s) => IndicatorModel::Rsi(s.advanced(bar)),
            IndicatorModel::Macd(s) => IndicatorModel::Macd(s.advanced(bar)),
            IndicatorModel::Bb(s) => IndicatorModel::Bb(s.advanced(kept.closes, bar.close)),
            IndicatorModel::Atr(s) => IndicatorModel::Atr(s.advanced(bar)),
            IndicatorModel::Stoch(s) => IndicatorModel::Stoch(
                s.advanced(kept.highs, kept.lows, bar),
            ),
            IndicatorModel::Cci(s) => IndicatorModel::Cci(s.advanced(bar)),
            IndicatorModel::Adx(s) => IndicatorModel::Adx(s.advanced(bar)),
            IndicatorModel::SuperTrend(s) => IndicatorModel::SuperTrend(s.advanced(bar)),
            IndicatorModel::Mom(s) => IndicatorModel::Mom(s),
            IndicatorModel::Wr(s) => IndicatorModel::Wr(s),
            IndicatorModel::VolMa(s) => IndicatorModel::VolMa(s.advanced(kept.volumes, bar.volume)),
            IndicatorModel::Chop(s) => IndicatorModel::Chop(s.advanced(bar)),
            IndicatorModel::Mfi(s) => IndicatorModel::Mfi(s.advanced(bar)),
            IndicatorModel::Psar(s) => IndicatorModel::Psar(s.advanced(bar)),
            IndicatorModel::Vwap(s) => IndicatorModel::Vwap(s.advanced(bar)),
        }
    }

    /// The state once `bar` has been committed after the kept history. A
    /// seeded instance advances. One that history has not seeded yet is warmed
    /// up on the bars that the history keeps once the bar has entered it, and
    /// so becomes seeded as soon as these are enough.
    pub open spec fn committed(self, kept: Series, bar: Bar, capacity: nat) -> IndicatorModel {
        if self.initialized() {
            self.advanced(kept, bar)
        } else {
            IndicatorModel::warmed(self.key(), kept.push_bounded(bar, capacity), capacity)
        }
    }

    /// The state once a new period of the anchor at position `slot` has begun:
    /// the average over that anchor starts anew, every other instance stays as
    /// it is.
    pub open spec fn restarted(self, slot: usize) -> IndicatorModel {
        match self {
            IndicatorModel::Vwap(s) => if s.slot == slot {
                IndicatorModel::Vwap(VwapState::start(slot))
            } else {
                self
            },
            _ => self,
        }
    }

    /// What the instance reports for `bar` arriving after the kept history;
    /// nothing where history did not seed it.
    pub open spec fn previewed(self, kept: Series, bar: Bar) -> Option<Reading> {
        match self {
            IndicatorModel::Ema(s) => single(s.previewed(bar)),
            IndicatorModel::Sma(s) => single(s.previewed(kept.closes, bar.close)),
            IndicatorModel::Wma(s) => single(s.previewed(kept.closes, bar.close)),
            IndicatorModel::Vwma(s) => single(s.previewed(kept.closes, kept.volumes, bar)),
            IndicatorModel::Hma(s) => single(s.previewed(kept.closes, bar.close)),
            IndicatorModel::Rsi(s) => single(s.previewed(bar)),
            IndicatorModel::Macd(s) => match s.previewed(bar) {
                Some(v) => Some(Reading::Macd(v)),
                None => None,
            },
            IndicatorModel::Bb(s) => match s.previewed(kept.closes, bar.close) {
                Some(v) => Some(Reading::Bands(v)),
                None => None,
            },
            IndicatorModel::Atr(s) => single(s.previewed(bar)),
            IndicatorModel::Stoch(s) => match s.previewed(kept.highs, kept.lows, bar) {
                Some(v) => Some(Reading::Stoch(v)),
                None => None,
            },
            IndicatorModel::Cci(s) => single(s.previewed(bar)),
            IndicatorModel::Adx(s) => match s.previewed(bar) {
                Some(v) => Some(Reading::Adx(v)),
                None => None,
            },
            IndicatorModel::SuperTrend(s) => match s.previewed(bar) {
                Some(v) => Some(Reading::SuperTrend(v)),
                None => None,
            },
            IndicatorModel::Mom(s) => single(s.previewed(kept.closes, bar.close)),
            IndicatorModel::Wr(s) => single(s.previewed(kept.highs, kept.lows, bar)),
            IndicatorModel::VolMa(s) => single(s.previewed(kept.volumes, bar.volume)),
            IndicatorModel::Chop(s) => match s.previewed(bar) {
                Some(v) => Some(Reading::Chop(v)),
                None => None,
            },
            IndicatorModel::Mfi(s) => single(s.previewed(bar)),
            IndicatorModel::Psar(s) => match s.previewed(bar) {
                Some(v) => Some(Reading::Psar(v)),
                None => None,
            },
            IndicatorModel::Vwap(s) => single(s.previewed(bar)),
        }
    }
}

/// A single value, if there is one, as a reading.
fn single_of(v: Option<i64>) -> (r: Option<Reading>)
    ensures
        r == single(crate::fixed::lift(v)),
{
    match v {
        Some(x) => Some(Reading::Single(x as i128)),
        None => None,
    }
}

/// A single wide value, if there is one, as a reading.
fn single_wide(v: Option<i128>) -> (r: Option<Reading>)
    ensures
        r == single(crate::fixed::lift_wide(v)),
{
    match v {
        Some(x) => Some(Reading::Single(x)),
        None => None,
    }
}

/// The four slices are a well-formed history, and the buffer keeps its most
/// recent bars.
pub open spec fn is_history(
    closes: Seq<i64>,
    highs: Seq<i64>,
    lows: Seq<i64>,
    volumes: Seq<i64>,
    history: &HistoryBuffer,
) -> bool {
    let all = Series { closes, highs, lows, volumes };
    &&& all.wf()
    &&& history.wf()
    &&& history.kept() == all.recent(history.spec_capacity())
}

impl Indicator {
    /// The key that the instance was configured with.
    pub fn key(&self) -> (k: IndicatorKey)
        ensures
            k == self@.key(),
    {
        match self {
            Indicator::Ema(s) => IndicatorKey::Ema { length: s.length },
            Indicator::Sma(s) => IndicatorKey::Sma { length: s.length },
            Indicator::Wma(s) => IndicatorKey::Wma { length: s.length },
            Indicator::Vwma(s) => IndicatorKey::Vwma { length: s.length },
            Indicator::Hma(s) => IndicatorKey::Hma { length: s.length },
            Indicator::Rsi(s) => IndicatorKey::Rsi { length: s.length },
            Indicator::Macd(s) => IndicatorKey::Macd {
                fast: s.fast,
                slow: s.slow,
                signal: s.signal,
            },
            Indicator::Bb(s) => IndicatorKey::Bb { length: s.length, multiplier: s.multiplier },
            Indicator::Atr(s) => IndicatorKey::Atr { length: s.length },
            Indicator::Stoch(s) => IndicatorKey::Stoch { k: s.k_len, d: s.d_len, smooth: s.smooth },
            Indicator::Cci(s) => IndicatorKey::Cci { length: s.length },
            Indicator::Adx(s) => IndicatorKey::Adx { length: s.length },
            Indicator::SuperTrend(s) => IndicatorKey::SuperTrend {
                length: s.length,
                multiplier: s.multiplier,
            },
            Indicator::Mom(s) => IndicatorKey::Mom { length: s.length },
            Indicator::Wr(s) => IndicatorKey::Wr { length: s.length },
            Indicator::VolMa(s) => IndicatorKey::VolMa { length: s.length },
            Indicator::Chop(s) => IndicatorKey::Chop { length: s.length },
            Indicator::Mfi(s) => IndicatorKey::Mfi { length: s.length },
            Indicator::Psar(s) => IndicatorKey::Psar {
                start: s.start_af,
                increment: s.inc_af,
                max: s.max_af,
            },
            Indicator::Vwap(s) => IndicatorKey::Vwap { slot: s.slot },
        }
    }

    /// Whether history seeded the instance.
    pub fn is_initialized(&self) -> (b: bool)
        ensures
            b == self@.initialized(),
    {
        match self {
            Indicator::Ema(s) => s.initialized,
            Indicator::Sma(s) => s.initialized,
            Indicator::Wma(s) => s.initialized,
            Indicator::Vwma(s) => s.initialized,
            Indicator::Hma(s) => s.initialized,
            Indicator::Rsi(s) => s.initialized,
            Indicator::Macd(s) => s.initialized,
            Indicator::Bb(s) => s.initialized,
            Indicator::Atr(s) => s.initialized,
            Indicator::Stoch(s) => s.initialized,
            Indicator::Cci(s) => s.initialized,
            Indicator::Adx(s) => s.initialized,
            Indicator::SuperTrend(s) => s.initialized,
            Indicator::Mom(s) => s.initialized,
            Indicator::Wr(s) => s.initialized,
            Indicator::VolMa(s) => s.initialized,
            Indicator::Chop(s) => s.initialized,
            Indicator::Mfi(s) => s.initialized,
            Indicator::Psar(s) => s.initialized,
            Indicator::Vwap(s) => true,
        }
    }

    /// Seeds the instance with the given key from the whole of history, of
    /// which `history` keeps the most recent bars.
    pub fn warm_up(
        key: IndicatorKey,
        closes: &[i64],
        highs: &[i64],
        lows: &[i64],
        volumes: &[i64],
        history: &HistoryBuffer,
    ) -> (indicator: Indicator)
        requires
            is_history(closes@, highs@, lows@, volumes@, history),
        ensures
            indicator@ == IndicatorModel::warmed(
                key,
                Series { closes: closes@, highs: highs@, lows: lows@, volumes: volumes@ },
                history.spec_capacity(),
            ),
            indicator@.wf(history.kept()),
            indicator@.key() == key,
    {
        match key {
            IndicatorKey::Ema { length } => Indicator::Ema(EmaState::warm_up(closes, length)),
            IndicatorKey::Sma { length } => Indicator::Sma(
                SmaState::warm_up(history, Source::Close, length),
            ),
            IndicatorKey::Wma { length } => Indicator::Wma(WmaState::warm_up(history, length)),
            IndicatorKey::Vwma { length } => Indicator::Vwma(VwmaState::warm_up(history, length)),
            IndicatorKey::Hma { length } => Indicator::Hma(
                HmaState::warm_up(history, closes.len(), length),
            ),
            IndicatorKey::Rsi { length } => Indicator::Rsi(RsiState::warm_up(closes, length)),
            IndicatorKey::Macd { fast, slow, signal } => Indicator::Macd(
                MacdState::warm_up(closes, fast, slow, signal),
            ),
            IndicatorKey::Bb { length, multiplier } => Indicator::Bb(
                BbState::warm_up(history, length, multiplier),
            ),
            IndicatorKey::Atr { length } => Indicator::Atr(
                AtrState::warm_up(highs, lows, closes, length),
            ),
            IndicatorKey::Stoch { k, d, smooth } => Indicator::Stoch(
                StochState::warm_up(highs, lows, closes, history.capacity(), k, d, smooth),
            ),
            IndicatorKey::Cci { length } => Indicator::Cci(
                CciState::warm_up(highs, lows, closes, length),
            ),
            IndicatorKey::Adx { length } => Indicator::Adx(
                AdxState::warm_up(highs, lows, closes, length),
            ),
            IndicatorKey::SuperTrend { length, multiplier } => Indicator::SuperTrend(
                SuperTrendState::warm_up(highs, lows, closes, length, multiplier),
            ),
            IndicatorKey::Mom { length } => Indicator::Mom(MomState::warm_up(history, length)),
            IndicatorKey::Wr { length } => Indicator::Wr(WrState::warm_up(history, length)),
            IndicatorKey::VolMa { length } => Indicator::VolMa(
                SmaState::warm_up(history, Source::Volume, length),
            ),
            IndicatorKey::Chop { length } => Indicator::Chop(
                ChopState::warm_up(highs, lows, closes, length),
            ),
            IndicatorKey::Mfi { length } => Indicator::Mfi(
                MfiState::warm_up(highs, lows, closes, volumes, length),
            ),
            IndicatorKey::Psar { start, increment, max } => Indicator::Psar(
                PsarState::warm_up(highs, lows, closes, start, increment, max),
            ),
            IndicatorKey::Vwap { slot } => Indicator::Vwap(
                VwapState::warm_up(highs, lows, closes, volumes, slot),
            ),
        }
    }

    /// What the instance reports for `bar`, read against the history before
    /// the bar. The state is left untouched.
    pub fn preview(&self, history: &HistoryBuffer, bar: &Bar) -> (reading: Option<Reading>)
        requires
            history.wf(),
            bar.in_range(),
            self@.wf(history.kept()),
        ensures
            reading == self@.previewed(history.kept(), *bar),
    {
        match self {
            Indicator::Ema(s) => single_of(s.preview(bar)),
            Indicator::Sma(s) => single_of(s.preview(history, bar)),
            Indicator::Wma(s) => single_of(s.preview(history, bar)),
            Indicator::Vwma(s) => single_wide(s.preview(history, bar)),
            Indicator::Hma(s) => single_of(s.preview(history, bar)),
            Indicator::Rsi(s) => single_of(s.preview(bar)),
            Indicator::Macd(s) => match s.preview(bar) {
                Some(v) => Some(Reading::Macd(v)),
                None => None,
            },
            Indicator::Bb(s) => match s.preview(history, bar) {
                Some(v) => Some(Reading::Bands(v)),
                None => None,
            },
            Indicator::Atr(s) => single_of(s.preview(bar)),
            Indicator::Stoch(s) => match s.preview(history, bar) {
                Some(v) => Some(Reading::Stoch(v)),
                None => None,
            },
            Indicator::Cci(s) => single_wide(s.preview(bar)),
            Indicator::Adx(s) => match s.preview(bar) {
                Some(v) => Some(Reading::Adx(v)),
                None => None,
            },
            Indicator::SuperTrend(s) => match s.preview(bar) {
                Some(v) => Some(Reading::SuperTrend(v)),
                None => None,
            },
            Indicator::Mom(s) => single_of(s.preview(history, bar)),
            Indicator::Wr(s) => single_wide(s.preview(history, bar)),
            Indicator::VolMa(s) => single_of(s.preview(history, bar)),
            Indicator::Chop(s) => match s.preview(bar) {
                Some(v) => Some(Reading::Chop(v)),
                None => None,
            },
            Indicator::Mfi(s) => single_wide(s.preview(bar)),
            Indicator::Psar(s) => match s.preview(bar) {
                Some(v) => Some(Reading::Psar(v)),
                None => None,
            },
            Indicator::Vwap(s) => Some(Reading::Single(s.preview(bar))),
        }
    }

    /// The instance one bar later, read against the history before the bar.
    pub fn step(&self, history: &HistoryBuffer, bar: &Bar) -> (next: Indicator)
        requires
            history.wf(),
            bar.in_range(),
            self@.wf(history.kept()),
        ensures
            follows(self@, next@, history, *bar),
    {
        match self {
            Indicator::Ema(s) => Indicator::Ema(s.step(bar)),
            Indicator::Sma(s) => step_sma(s, history, bar),
            Indicator::Wma(s) => step_wma(s, history, bar),
            Indicator::Vwma(s) => step_vwma(s, history, bar),
            Indicator::Hma(s) => step_hma(s, history, bar),
            Indicator::Rsi(s) => Indicator::Rsi(s.step(bar)),
            Indicator::Macd(s) => Indicator::Macd(s.step(bar)),
            Indicator::Bb(s) => step_bb(s, history, bar),
            Indicator::Atr(s) => Indicator::Atr(s.step(bar)),
            Indicator::Stoch(s) => step_stoch(s, history, bar),
            Indicator::Cci(s) => Indicator::Cci(s.step(bar)),
            Indicator::Adx(s) => Indicator::Adx(s.step(bar)),
            Indicator::SuperTrend(s) => Indicator::SuperTrend(s.step(bar)),
            Indicator::Mom(s) => Indicator::Mom(*s),
            Indicator::Wr(s) => Indicator::Wr(*s),
            Indicator::VolMa(s) => step_volma(s, history, bar),
            Indicator::Chop(s) => Indicator::Chop(s.step(bar)),
            Indicator::Mfi(s) => Indicator::Mfi(s.step(bar)),
            Indicator::Psar(s) => Indicator::Psar(s.step(bar)),
            Indicator::Vwap(s) => Indicator::Vwap(s.step(bar)),
        }
    }
}

/// `after` is `before` advanced by `bar` against the history: it agrees with the
/// history as it will stand once the bar has been pushed, and it keeps its key
/// and whether it was seeded.
pub open spec fn follows(
    before: IndicatorModel,
    after: IndicatorModel,
    history: &HistoryBuffer,
    bar: Bar,
) -> bool {
    &&& after == before.advanced(history.kept(), bar)
    &&& after.wf(history.kept().push_bounded(bar, history.spec_capacity()))
    &&& after.key() == before.key()
    &&& after.initialized() == before.initialized()
}

fn step_sma(state: &SmaState, history: &HistoryBuffer, bar: &Bar) -> (next: Indicator)
    requires
        history.wf(),
        bar.in_range(),
        IndicatorModel::Sma(*state).wf(history.kept()),
    ensures
        follows(IndicatorModel::Sma(*state), next@, history, *bar),
{
    Indicator::Sma(state.step(history, bar))
}

fn step_wma(state: &WmaState, history: &HistoryBuffer, bar: &Bar) -> (next: Indicator)
    requires
        history.wf(),
        bar.in_range(),
        IndicatorModel::Wma(*state).wf(history.kept()),
    ensures
        follows(IndicatorModel::Wma(*state), next@, history, *bar),
{
    Indicator::Wma(state.step(history, bar))
}

fn step_vwma(state: &VwmaState, history: &HistoryBuffer, bar: &Bar) -> (next: Indicator)
    requires
        history.wf(),
        bar.in_range(),
        IndicatorModel::Vwma(*state).wf(history.kept()),
    ensures
        follows(IndicatorModel::Vwma(*state), next@, history, *bar),
{
    Indicator::Vwma(state.step(history, bar))
}

fn step_hma(state: &HmaState, history: &HistoryBuffer, bar: &Bar) -> (next: Indicator)
    requires
        history.wf(),
        bar.in_range(),
        IndicatorModel::Hma(*state).wf(history.kept()),
    ensures
        follows(IndicatorModel::Hma(*state), next@, history, *bar),
{
    Indicator::Hma(state.step(history, bar))
}

fn step_bb(state: &BbState, history: &HistoryBuffer, bar: &Bar) -> (next: Indicator)
    requires
        history.wf(),
        bar.in_range(),
        IndicatorModel::Bb(*state).wf(history.kept()),
    ensures
        follows(IndicatorModel::Bb(*state), next@, history, *bar),
{
    Indicator::Bb(state.step(history, bar))
}

fn step_volma(state: &SmaState, history: &HistoryBuffer, bar: &Bar) -> (next: Indicator)
    requires
        history.wf(),
        bar.in_range(),
        IndicatorModel::VolMa(*state).wf(history.kept()),
    ensures
        follows(IndicatorModel::VolMa(*state), next@, history, *bar),
{
    Indicator::VolMa(state.step(history, bar))
}

fn step_stoch(state: &StochState, history: &HistoryBuffer, bar: &Bar) -> (next: Indicator)
    requires
        history.wf(),
        bar.in_range(),
        IndicatorModel::Stoch(state@).wf(history.kept()),
    ensures
        follows(IndicatorModel::Stoch(state@), next@, history, *bar),
{
    Indicator::Stoch(state.step(history, bar))
}

} // verus!
