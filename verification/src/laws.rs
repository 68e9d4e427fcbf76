//! What holds of every indicator instance, whatever its family.

use vstd::prelude::*;
use crate::adx::lemma_adx_warm_up_extends;
use crate::adx::AdxState;
use crate::atr::lemma_atr_warm_up_extends;
use crate::atr::AtrState;
use crate::bar::Bar;
use crate::bollinger::BbState;
use crate::cci::lemma_cci_warm_up_extends;
use crate::cci::CciModel;
use crate::chop::lemma_chop_warm_up_extends;
use crate::chop::ChopModel;
use crate::ema::lemma_ema_warm_up_extends;
use crate::ema::EmaState;
use crate::history::lemma_last_n_push_bounded;
use crate::history::lemma_series_recent_push;
use crate::history::Series;
use crate::history::MAX_CAPACITY;
use crate::engine::readings;
use crate::engine::Entry;
use crate::indicator::Category;
use crate::indicator::IndicatorKey;
use crate::indicator::IndicatorModel;
use crate::macd::lemma_macd_warm_up_extends;
use crate::macd::MacdState;
use crate::mfi::lemma_mfi_warm_up_extends;
use crate::mfi::MfiModel;
use crate::momentum::MomState;
use crate::momentum::WrState;
use crate::psar::lemma_psar_warm_up_extends;
use crate::psar::lemma_psar_warmed_key;
use crate::psar::PsarState;
use crate::rsi::lemma_rsi_warm_up_extends;
use crate::rsi::RsiState;
use crate::sma::SmaState;
use crate::stochastic::lemma_stoch_warm_up_extends;
use crate::stochastic::StochModel;
use crate::supertrend::lemma_supertrend_warm_up_extends;
use crate::supertrend::lemma_supertrend_warmed_key;
use crate::supertrend::SuperTrendState;
use crate::vwap::lemma_vwap_warm_up_extends;
use crate::vwap::lemma_vwap_warmed_slot;
use crate::vwma::VwmaState;
use crate::wma::HmaState;
use crate::wma::WmaState;

verus! {

/// A series with the bars of `bars` appended in order.
pub open spec fn extended(all: Series, bars: Seq<Bar>) -> Series
    decreases bars.len(),
{
    if bars.len() == 0 {
        all
    } else {
        extended(all, bars.drop_last()).push(bars.last())
    }
}

/// Every bar is of admissible magnitude.
pub open spec fn all_bars_in_range(bars: Seq<Bar>) -> bool {
    forall|i: int| 0 <= i < bars.len() ==> (#[trigger] bars[i]).in_range()
}

/// The state of an instance after the bars of `bars` have been committed in
/// order, each read against the bars that a buffer of the given capacity kept
/// of everything before it. `all` is everything that came before `bars`.
pub open spec fn replayed(
    model: IndicatorModel,
    all: Series,
    bars: Seq<Bar>,
    capacity: nat,
) -> IndicatorModel
    decreases bars.len(),
{
    if bars.len() == 0 {
        model
    } else {
        replayed(model, all, bars.drop_last(), capacity).committed(
            extended(all, bars.drop_last()).recent(capacity),
            bars.last(),
            capacity,
        )
    }
}

/// A well-formed series extended by admissible bars is well formed, and
/// longer by the number of bars.
pub proof fn lemma_extended_wf(all: Series, bars: Seq<Bar>)
    requires
        all.wf(),
        all_bars_in_range(bars),
    ensures
        extended(all, bars).wf(),
        extended(all, bars).len() == all.len() + bars.len(),
    decreases bars.len(),
{
    if bars.len() > 0 {
        lemma_extended_wf(all, bars.drop_last());
        assert(bars.last().in_range());
    }
}

/// Warm-up on the history with one more bar gives the state that committing
/// that bar after warm-up on the history gives, and that state is seeded.
pub open spec fn extends(key: IndicatorKey, all: Series, bar: Bar, capacity: nat) -> bool {
    &&& IndicatorModel::warmed(key, all.push(bar), capacity) == IndicatorModel::warmed(
        key,
        all,
        capacity,
    ).advanced(all.recent(capacity), bar)
    &&& IndicatorModel::warmed(key, all.push(bar), capacity).initialized()
}

/// A history, a bar and a capacity of which the warm-up laws speak.
pub open spec fn admissible(all: Series, bar: Bar, capacity: nat) -> bool {
    &&& all.wf()
    &&& bar.in_range()
    &&& 1 <= capacity <= MAX_CAPACITY
}

proof fn lemma_extends_ema(all: Series, bar: Bar, capacity: nat, length: usize)
    requires
        admissible(all, bar, capacity),
        IndicatorModel::warmed(IndicatorKey::Ema { length }, all, capacity).initialized(),
    ensures
        extends(IndicatorKey::Ema { length }, all, bar, capacity),
{
    lemma_series_recent_push(all, bar, capacity);
    lemma_ema_warm_up_extends(all.closes, bar, length);
}

proof fn lemma_extends_sma(all: Series, bar: Bar, capacity: nat, length: usize)
    requires
        admissible(all, bar, capacity),
        IndicatorModel::warmed(IndicatorKey::Sma { length }, all, capacity).initialized(),
    ensures
        extends(IndicatorKey::Sma { length }, all, bar, capacity),
{
    let kept = all.recent(capacity);
    lemma_series_recent_push(all, bar, capacity);
    lemma_last_n_push_bounded(kept.closes, bar.close, length as nat, capacity);
}

proof fn lemma_extends_wma(all: Series, bar: Bar, capacity: nat, length: usize)
    requires
        admissible(all, bar, capacity),
        IndicatorModel::warmed(IndicatorKey::Wma { length }, all, capacity).initialized(),
    ensures
        extends(IndicatorKey::Wma { length }, all, bar, capacity),
{
    let kept = all.recent(capacity);
    lemma_series_recent_push(all, bar, capacity);
    lemma_last_n_push_bounded(kept.closes, bar.close, length as nat, capacity);
}

proof fn lemma_extends_vwma(all: Series, bar: Bar, capacity: nat, length: usize)
    requires
        admissible(all, bar, capacity),
        IndicatorModel::warmed(IndicatorKey::Vwma { length }, all, capacity).initialized(),
    ensures
        extends(IndicatorKey::Vwma { length }, all, bar, capacity),
{
    let kept = all.recent(capacity);
    lemma_series_recent_push(all, bar, capacity);
    lemma_last_n_push_bounded(kept.closes, bar.close, length as nat, capacity);
    lemma_last_n_push_bounded(kept.volumes, bar.volume, length as nat, capacity);
}

proof fn lemma_extends_hma(all: Series, bar: Bar, capacity: nat, length: usize)
    requires
        admissible(all, bar, capacity),
        IndicatorModel::warmed(IndicatorKey::Hma { length }, all, capacity).initialized(),
    ensures
        extends(IndicatorKey::Hma { length }, all, bar, capacity),
{
    let kept = all.recent(capacity);
    lemma_series_recent_push(all, bar, capacity);
    lemma_last_n_push_bounded(kept.closes, bar.close, length as nat, capacity);
    lemma_last_n_push_bounded(kept.closes, bar.close, (length / 2) as nat, capacity);
}

proof fn lemma_extends_rsi(all: Series, bar: Bar, capacity: nat, length: usize)
    requires
        admissible(all, bar, capacity),
        IndicatorModel::warmed(IndicatorKey::Rsi { length }, all, capacity).initialized(),
    ensures
        extends(IndicatorKey::Rsi { length }, all, bar, capacity),
{
    lemma_series_recent_push(all, bar, capacity);
    lemma_rsi_warm_up_extends(all.closes, bar, length);
}

proof fn lemma_extends_macd(
    all: Series,
    bar: Bar,
    capacity: nat,
    fast: usize,
    slow: usize,
    signal: usize,
)
    requires
        admissible(all, bar, capacity),
        IndicatorModel::warmed(
            IndicatorKey::Macd { fast, slow, signal },
            all,
            capacity,
        ).initialized(),
    ensures
        extends(IndicatorKey::Macd { fast, slow, signal }, all, bar, capacity),
{
    lemma_series_recent_push(all, bar, capacity);
    lemma_macd_warm_up_extends(all.closes, bar, fast, slow, signal);
}

proof fn lemma_extends_bb(all: Series, bar: Bar, capacity: nat, length: usize, multiplier: i64)
    requires
        admissible(all, bar, capacity),
        IndicatorModel::warmed(
            IndicatorKey::Bb { length, multiplier },
            all,
            capacity,
        ).initialized(),
    ensures
        extends(IndicatorKey::Bb { length, multiplier }, all, bar, capacity),
{
    let kept = all.recent(capacity);
    lemma_series_recent_push(all, bar, capacity);
    lemma_last_n_push_bounded(kept.closes, bar.close, length as nat, capacity);
}

proof fn lemma_extends_atr(all: Series, bar: Bar, capacity: nat, length: usize)
    requires
        admissible(all, bar, capacity),
        IndicatorModel::warmed(IndicatorKey::Atr { length }, all, capacity).initialized(),
    ensures
        extends(IndicatorKey::Atr { length }, all, bar, capacity),
{
    lemma_series_recent_push(all, bar, capacity);
    lemma_atr_warm_up_extends(all.highs, all.lows, all.closes, bar, length);
}

proof fn lemma_extends_stoch(
    all: Series,
    bar: Bar,
    capacity: nat,
    k: usize,
    d: usize,
    smooth: usize,
)
    requires
        admissible(all, bar, capacity),
        IndicatorModel::warmed(IndicatorKey::Stoch { k, d, smooth }, all, capacity).initialized(),
    ensures
        extends(IndicatorKey::Stoch { k, d, smooth }, all, bar, capacity),
{
    lemma_series_recent_push(all, bar, capacity);
    lemma_stoch_warm_up_extends(all.highs, all.lows, all.closes, bar, capacity, k, d, smooth);
}

proof fn lemma_extends_cci(all: Series, bar: Bar, capacity: nat, length: usize)
    requires
        admissible(all, bar, capacity),
        IndicatorModel::warmed(IndicatorKey::Cci { length }, all, capacity).initialized(),
    ensures
        extends(IndicatorKey::Cci { length }, all, bar, capacity),
{
    lemma_series_recent_push(all, bar, capacity);
    lemma_cci_warm_up_extends(all.highs, all.lows, all.closes, bar, length);
}

proof fn lemma_extends_adx(all: Series, bar: Bar, capacity: nat, length: usize)
    requires
        admissible(all, bar, capacity),
        IndicatorModel::warmed(IndicatorKey::Adx { length }, all, capacity).initialized(),
    ensures
        extends(IndicatorKey::Adx { length }, all, bar, capacity),
{
    lemma_series_recent_push(all, bar, capacity);
    lemma_adx_warm_up_extends(all.highs, all.lows, all.closes, bar, length);
}

proof fn lemma_extends_supertrend(
    all: Series,
    bar: Bar,
    capacity: nat,
    length: usize,
    multiplier: i64,
)
    requires
        admissible(all, bar, capacity),
        IndicatorModel::warmed(
            IndicatorKey::SuperTrend { length, multiplier },
            all,
            capacity,
        ).initialized(),
    ensures
        extends(IndicatorKey::SuperTrend { length, multiplier }, all, bar, capacity),
{
    lemma_series_recent_push(all, bar, capacity);
    lemma_supertrend_warmed_key(all.highs, all.lows, all.closes, length, multiplier);
    lemma_supertrend_warm_up_extends(all.highs, all.lows, all.closes, bar, length, multiplier);
    lemma_supertrend_warmed_key(
        all.highs.push(bar.high),
        all.lows.push(bar.low),
        all.closes.push(bar.close),
        length,
        multiplier,
    );
}

proof fn lemma_extends_mom(all: Series, bar: Bar, capacity: nat, length: usize)
    requires
        admissible(all, bar, capacity),
        IndicatorModel::warmed(IndicatorKey::Mom { length }, all, capacity).initialized(),
    ensures
        extends(IndicatorKey::Mom { length }, all, bar, capacity),
{
    lemma_series_recent_push(all, bar, capacity);
    
}

proof fn lemma_extends_wr(all: Series, bar: Bar, capacity: nat, length: usize)
    requires
        admissible(all, bar, capacity),
        IndicatorModel::warmed(IndicatorKey::Wr { length }, all, capacity).initialized(),
    ensures
        extends(IndicatorKey::Wr { length }, all, bar, capacity),
{
    lemma_series_recent_push(all, bar, capacity);
    
}

proof fn lemma_extends_volma(all: Series, bar: Bar, capacity: nat, length: usize)
    requires
        admissible(all, bar, capacity),
        IndicatorModel::warmed(IndicatorKey::VolMa { length }, all, capacity).initialized(),
    ensures
        extends(IndicatorKey::VolMa { length }, all, bar, capacity),
{
    let kept = all.recent(capacity);
    lemma_series_recent_push(all, bar, capacity);
    lemma_last_n_push_bounded(kept.volumes, bar.volume, length as nat, capacity);
}

proof fn lemma_extends_chop(all: Series, bar: Bar, capacity: nat, length: usize)
    requires
        admissible(all, bar, capacity),
        IndicatorModel::warmed(IndicatorKey::Chop { length }, all, capacity).initialized(),
    ensures
        extends(IndicatorKey::Chop { length }, all, bar, capacity),
{
    lemma_series_recent_push(all, bar, capacity);
    lemma_chop_warm_up_extends(all.highs, all.lows, all.closes, bar, length);
}

proof fn lemma_extends_mfi(all: Series, bar: Bar, capacity: nat, length: usize)
    requires
        admissible(all, bar, capacity),
        IndicatorModel::warmed(IndicatorKey::Mfi { length }, all, capacity).initialized(),
    ensures
        extends(IndicatorKey::Mfi { length }, all, bar, capacity),
{
    lemma_mfi_warm_up_extends(all.highs, all.lows, all.closes, all.volumes, bar, length);
}

proof fn lemma_extends_psar(
    all: Series,
    bar: Bar,
    capacity: nat,
    start: i64,
    increment: i64,
    max: i64,
)
    requires
        admissible(all, bar, capacity),
        IndicatorModel::warmed(
            IndicatorKey::Psar { start, increment, max },
            all,
            capacity,
        ).initialized(),
    ensures
        extends(IndicatorKey::Psar { start, increment, max }, all, bar, capacity),
{
    lemma_psar_warmed_key(all.highs, all.lows, all.closes, start, increment, max);
    lemma_psar_warm_up_extends(all.highs, all.lows, all.closes, bar, start, increment, max);
    lemma_psar_warmed_key(
        all.highs.push(bar.high),
        all.lows.push(bar.low),
        all.closes.push(bar.close),
        start,
        increment,
        max,
    );
}

proof fn lemma_extends_vwap(all: Series, bar: Bar, capacity: nat, slot: usize)
    requires
        admissible(all, bar, capacity),
    ensures
        extends(IndicatorKey::Vwap { slot }, all, bar, capacity),
{
    lemma_vwap_warm_up_extends(all.highs, all.lows, all.closes, all.volumes, bar, slot);
}

/// Warm-up equivalence, one bar at a time: for an instance that warm-up on a
/// history seeds, warm-up on the history with one more bar gives the state that
/// committing that bar after warm-up on the history gives.
pub proof fn lemma_warm_up_extends(key: IndicatorKey, all: Series, bar: Bar, capacity: nat)
    requires
        admissible(all, bar, capacity),
        IndicatorModel::warmed(key, all, capacity).initialized(),
    ensures
        extends(key, all, bar, capacity),
{
    match key {
        IndicatorKey::Ema { length } => {
            lemma_extends_ema(all, bar, capacity, length);
        },
        IndicatorKey::Sma { length } => {
            lemma_extends_sma(all, bar, capacity, length);
        },
        IndicatorKey::Wma { length } => {
            lemma_extends_wma(all, bar, capacity, length);
        },
        IndicatorKey::Vwma { length } => {
            lemma_extends_vwma(all, bar, capacity, length);
        },
        IndicatorKey::Hma { length } => {
            lemma_extends_hma(all, bar, capacity, length);
        },
        IndicatorKey::Rsi { length } => {
            lemma_extends_rsi(all, bar, capacity, length);
        },
        IndicatorKey::Macd { fast, slow, signal } => {
            lemma_extends_macd(all, bar, capacity, fast, slow, signal);
        },
        IndicatorKey::Bb { length, multiplier } => {
            lemma_extends_bb(all, bar, capacity, length, multiplier);
        },
        IndicatorKey::Atr { length } => {
            lemma_extends_atr(all, bar, capacity, length);
        },
        IndicatorKey::Stoch { k, d, smooth } => {
            lemma_extends_stoch(all, bar, capacity, k, d, smooth);
        },
        IndicatorKey::Cci { length } => {
            lemma_extends_cci(all, bar, capacity, length);
        },
        IndicatorKey::Adx { length } => {
            lemma_extends_adx(all, bar, capacity, length);
        },
        IndicatorKey::SuperTrend { length, multiplier } => {
            lemma_extends_supertrend(all, bar, capacity, length, multiplier);
        },
        IndicatorKey::Mom { length } => {
            lemma_extends_mom(all, bar, capacity, length);
        },
        IndicatorKey::Wr { length } => {
            lemma_extends_wr(all, bar, capacity, length);
        },
        IndicatorKey::VolMa { length } => {
            lemma_extends_volma(all, bar, capacity, length);
        },
        IndicatorKey::Chop { length } => {
            lemma_extends_chop(all, bar, capacity, length);
        },
        IndicatorKey::Mfi { length } => {
            lemma_extends_mfi(all, bar, capacity, length);
        },
        IndicatorKey::Psar { start, increment, max } => {
            lemma_extends_psar(all, bar, capacity, start, increment, max);
        },
        IndicatorKey::Vwap { slot } => {
            lemma_extends_vwap(all, bar, capacity, slot);
        },
    }
}

/// Whether a history of `total` bars, of which a buffer of the given capacity
/// keeps the most recent, seeds the instance with the given key.
pub open spec fn seeds(key: IndicatorKey, total: nat, capacity: nat) -> bool {
    let kept = if total > capacity {
        capacity
    } else {
        total
    };
    match key {
        IndicatorKey::Ema { length } => EmaState::ready(total, length),
        IndicatorKey::Sma { length } => SmaState::ready(kept, length),
        IndicatorKey::Wma { length } => WmaState::ready(kept, length),
        IndicatorKey::Vwma { length } => VwmaState::ready(kept, length),
        IndicatorKey::Hma { length } => HmaState::ready(total, kept, length),
        IndicatorKey::Rsi { length } => RsiState::ready(total, length),
        IndicatorKey::Macd { fast, slow, signal } => MacdState::ready(total, fast, slow, signal),
        IndicatorKey::Bb { length, multiplier } => BbState::ready(kept, length),
        IndicatorKey::Atr { length } => AtrState::ready(total, length),
        IndicatorKey::Stoch { k, d, smooth } => StochModel::ready(total, capacity, k, d, smooth),
        IndicatorKey::Cci { length } => CciModel::ready(total, length),
        IndicatorKey::Adx { length } => AdxState::ready(total, length),
        IndicatorKey::SuperTrend { length, multiplier } => SuperTrendState::ready(total, length),
        IndicatorKey::Mom { length } => MomState::ready(kept, length),
        IndicatorKey::Wr { length } => WrState::ready(kept, length),
        IndicatorKey::VolMa { length } => SmaState::ready(kept, length),
        IndicatorKey::Chop { length } => ChopModel::ready(total, length),
        IndicatorKey::Mfi { length } => MfiModel::ready(total, length),
        IndicatorKey::Psar { start, increment, max } => PsarState::ready(
            total,
            start,
            increment,
            max,
        ),
        IndicatorKey::Vwap { slot } => true,
    }
}

/// Whether committing bars one by one seeds the instance by the time that
/// `total` bars have arrived, `start` of them at warm-up: either warm-up seeds
/// it, or the bars seed it while the buffer still keeps them all.
pub open spec fn seeds_on_the_way(
    key: IndicatorKey,
    start: nat,
    total: nat,
    capacity: nat,
) -> bool {
    ||| seeds(key, start, capacity)
    ||| start <= capacity && seeds(
        key,
        if total > capacity {
            capacity
        } else {
            total
        },
        capacity,
    )
}

/// Warm-up yields an instance of the key it was asked for, seeded exactly when
/// the history is long enough.
pub proof fn lemma_warmed_key(key: IndicatorKey, all: Series, capacity: nat)
    requires
        all.wf(),
    ensures
        IndicatorModel::warmed(key, all, capacity).key() == key,
        IndicatorModel::warmed(key, all, capacity).initialized() == seeds(
            key,
            all.len(),
            capacity,
        ),
{
    match key {
        IndicatorKey::SuperTrend { length, multiplier } => {
            lemma_supertrend_warmed_key(all.highs, all.lows, all.closes, length, multiplier);
        },
        IndicatorKey::Psar { start, increment, max } => {
            lemma_psar_warmed_key(all.highs, all.lows, all.closes, start, increment, max);
        },
        IndicatorKey::Vwap { slot } => {
            lemma_vwap_warmed_slot(all.highs, all.lows, all.closes, all.volumes, slot);
        },
        _ => {},
    }
}

/// A history that seeds an instance still seeds it when it is longer.
pub proof fn lemma_seeds_monotone(key: IndicatorKey, shorter: nat, longer: nat, capacity: nat)
    requires
        shorter <= longer,
        seeds(key, shorter, capacity),
    ensures
        seeds(key, longer, capacity),
{
}

/// Two histories that both fail to seed an instance leave it in one state.
pub proof fn lemma_unseeded_alike(key: IndicatorKey, one: Series, other: Series, capacity: nat)
    requires
        one.wf(),
        other.wf(),
        !seeds(key, one.len(), capacity),
        !seeds(key, other.len(), capacity),
    ensures
        IndicatorModel::warmed(key, one, capacity) == IndicatorModel::warmed(key, other, capacity),
{
    lemma_warmed_key(key, one, capacity);
    lemma_warmed_key(key, other, capacity);
}

/// Warm-up equivalence: committing any further bars one by one after warm-up
/// on a history gives the state that warm-up on the history with those bars
/// appended gives. The one exception is left out: an instance that the whole
/// history seeds, but that neither warm-up seeded nor the bars could seed
/// while the buffer still kept them all.
pub proof fn lemma_warm_up_equivalence(
    key: IndicatorKey,
    all: Series,
    bars: Seq<Bar>,
    capacity: nat,
)
    requires
        all.wf(),
        all_bars_in_range(bars),
        1 <= capacity <= MAX_CAPACITY,
        seeds(key, all.len() + bars.len(), capacity) ==> seeds_on_the_way(
            key,
            all.len(),
            all.len() + bars.len(),
            capacity,
        ),
    ensures
        replayed(IndicatorModel::warmed(key, all, capacity), all, bars, capacity)
            == IndicatorModel::warmed(key, extended(all, bars), capacity),
    decreases bars.len(),
{
    if bars.len() > 0 {
        let rest = bars.drop_last();
        let earlier = extended(all, rest);
        let later = extended(all, bars);
        let before = IndicatorModel::warmed(key, earlier, capacity);
        let total = all.len() + bars.len();
        lemma_extended_wf(all, rest);
        lemma_extended_wf(all, bars);
        assert(bars.last().in_range());
        if seeds(key, earlier.len(), capacity) {
            lemma_seeds_monotone(key, earlier.len(), total, capacity);
            if !seeds(key, all.len(), capacity) && total > capacity {
                lemma_seeds_monotone(key, capacity, earlier.len(), capacity);
            }
        }
        lemma_warm_up_equivalence(key, all, rest, capacity);
        lemma_warmed_key(key, earlier, capacity);
        if before.initialized() {
            lemma_warm_up_extends(key, earlier, bars.last(), capacity);
        } else if total <= capacity {
            assert(earlier.recent(capacity) == earlier);
            assert(earlier.push_bounded(bars.last(), capacity) == later);
        } else {
            let kept = earlier.recent(capacity).push_bounded(bars.last(), capacity);
            lemma_series_recent_push(earlier, bars.last(), capacity);
            assert(kept == later.recent(capacity));
            assert(kept.len() == capacity);
            if seeds(key, capacity, capacity) {
                lemma_seeds_monotone(key, capacity, earlier.len(), capacity);
            }
            if seeds(key, total, capacity) {
                if seeds(key, all.len(), capacity) {
                    lemma_seeds_monotone(key, all.len(), earlier.len(), capacity);
                }
            }
            lemma_unseeded_alike(key, kept, later, capacity);
        }
    }
}

/// What a history buffer keeps after the bars of `bars` have been pushed into
/// it in order.
pub open spec fn pushed(kept: Series, bars: Seq<Bar>, capacity: nat) -> Series
    decreases bars.len(),
{
    if bars.len() == 0 {
        kept
    } else {
        pushed(kept, bars.drop_last(), capacity).push_bounded(bars.last(), capacity)
    }
}

/// After any number of commits the history keeps the most recent bars of
/// everything that arrived, in arrival order: as many as arrived, but no more
/// than its capacity.
pub proof fn lemma_history_keeps_recent(all: Series, bars: Seq<Bar>, capacity: nat)
    requires
        all.wf(),
        all_bars_in_range(bars),
        capacity >= 1,
    ensures
        pushed(all.recent(capacity), bars, capacity) == extended(all, bars).recent(capacity),
        pushed(all.recent(capacity), bars, capacity).len() == if all.len() + bars.len()
            > capacity {
            capacity
        } else {
            all.len() + bars.len()
        },
    decreases bars.len(),
{
    if bars.len() > 0 {
        lemma_history_keeps_recent(all, bars.drop_last(), capacity);
        lemma_extended_wf(all, bars.drop_last());
        lemma_series_recent_push(extended(all, bars.drop_last()), bars.last(), capacity);
        lemma_extended_wf(all, bars);
    }
}

/// An instance that agrees with the kept history reports for a bar exactly
/// when it is seeded.
pub proof fn lemma_reports_iff_seeded(model: IndicatorModel, kept: Series, bar: Bar)
    requires
        kept.wf(),
        model.wf(kept),
    ensures
        model.previewed(kept, bar).is_some() == model.initialized(),
{
}

/// The entries hold one for the given key.
pub open spec fn holds(entries: Seq<Entry>, key: IndicatorKey) -> bool {
    exists|e: int| 0 <= e < entries.len() && (#[trigger] entries[e]).key == key
}

/// Some instance of the given key reports for the bar.
pub open spec fn reported(
    models: Seq<IndicatorModel>,
    kept: Series,
    bar: Bar,
    key: IndicatorKey,
) -> bool {
    exists|j: int|
        0 <= j < models.len() && (#[trigger] models[j]).key() == key && models[j].previewed(
            kept,
            bar,
        ).is_some()
}

/// A partition holds an entry for a key exactly when the key is of the
/// partition and an instance of the key reports.
pub proof fn lemma_readings_hold_the_reported(
    models: Seq<IndicatorModel>,
    kept: Series,
    bar: Bar,
    category: Category,
    key: IndicatorKey,
)
    ensures
        holds(readings(models, kept, bar, category), key) <==> key.category() == category
            && reported(models, kept, bar, key),
    decreases models.len(),
{
    let all = readings(models, kept, bar, category);
    if models.len() > 0 {
        let rest = models.drop_last();
        let before = readings(rest, kept, bar, category);
        let last = models.last();
        lemma_readings_hold_the_reported(rest, kept, bar, category, key);
        let enters = last.previewed(kept, bar).is_some() && last.key().category() == category;
        if holds(all, key) {
            let e = choose|e: int| 0 <= e < all.len() && (#[trigger] all[e]).key == key;
            if e < before.len() {
                assert(before[e].key == key);
                assert(holds(before, key));
                let j = choose|j: int|
                    0 <= j < rest.len() && (#[trigger] rest[j]).key() == key && rest[j].previewed(
                        kept,
                        bar,
                    ).is_some();
                assert(models[j].key() == key);
            } else {
                assert(enters && last.key() == key);
                assert(models[models.len() - 1].key() == key);
            }
        }
        if key.category() == category && reported(models, kept, bar, key) {
            let j = choose|j: int|
                0 <= j < models.len() && (#[trigger] models[j]).key() == key && models[j].previewed(
                    kept,
                    bar,
                ).is_some();
            if j < models.len() - 1 {
                assert(rest[j].key() == key);
                assert(reported(rest, kept, bar, key));
                let e = choose|e: int| 0 <= e < before.len() && (#[trigger] before[e]).key == key;
                assert(all[e].key == key);
            } else {
                assert(all[all.len() - 1].key == key);
            }
        }
    }
}

/// The output holds an entry for an instance exactly when the instance is
/// seeded: the partition of its family holds one for its key, and no other
/// partition does.
pub proof fn lemma_output_holds_the_seeded(
    models: Seq<IndicatorModel>,
    kept: Series,
    bar: Bar,
    category: Category,
    i: int,
)
    requires
        kept.wf(),
        0 <= i < models.len(),
        forall|j: int| 0 <= j < models.len() ==> (#[trigger] models[j]).wf(kept),
        forall|j: int, k: int|
            0 <= j < k < models.len() ==> (#[trigger] models[j]).key() != (
            #[trigger] models[k]).key(),
    ensures
        holds(readings(models, kept, bar, category), models[i].key()) <==> models[i].initialized()
            && models[i].key().category() == category,
{
    let key = models[i].key();
    lemma_readings_hold_the_reported(models, kept, bar, category, key);
    lemma_reports_iff_seeded(models[i], kept, bar);
    if reported(models, kept, bar, key) {
        let j = choose|j: int|
            0 <= j < models.len() && (#[trigger] models[j]).key() == key && models[j].previewed(
                kept,
                bar,
            ).is_some();
        assert(j == i);
    }
}

} // verus!
