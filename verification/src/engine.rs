//! The engine: one history buffer and one instance of every configured
//! indicator, seeded together, previewed together and advanced together.

use vstd::prelude::*;
use vstd::slice::slice_subrange;
use crate::bar::Bar;
use crate::bar::Source;
use crate::config::distinct;
use crate::config::distinct_keys;
use crate::fixed::all_in_range;
use crate::fixed::clamp;
use crate::fixed::clamp_series;
use crate::fixed::clamped;
use crate::fixed::clamped_all;
use crate::history::recent;
use crate::history::shortest_of;
use crate::history::HistoryBuffer;
use crate::history::Series;
use crate::indicator::is_history;
use crate::indicator::Category;
use crate::indicator::Indicator;
use crate::indicator::IndicatorKey;
use crate::indicator::IndicatorModel;
use crate::indicator::Reading;
use crate::laws::holds;
use crate::laws::lemma_output_holds_the_seeded;
use crate::pivots::PivotKind;
use crate::pivots::PivotState;
use crate::settings::IndicatorSettings;
use crate::vwap::VwapState;

verus! {

/// Number of bars that an engine's history keeps.
pub const HISTORY_CAPACITY: usize = 200;

/// One line of the output: an instance and what it reports.
#[derive(Clone, Copy, Debug, PartialEq, Eq, Structural)]
pub struct Entry {
    pub key: IndicatorKey,
    pub reading: Reading,
}

/// What the engine reports for a bar, in four partitions. An instance that
/// history did not seed has no entry.
#[derive(Clone, Debug, PartialEq, Eq)]
pub struct OutputData {
    pub moving_averages: Vec<Entry>,
    pub oscillators: Vec<Entry>,
    pub volatility: Vec<Entry>,
    pub pivots: Option<PivotState>,
}

impl OutputData {
    /// The entries of one partition.
    pub open spec fn partition(&self, category: Category) -> Seq<Entry> {
        match category {
            Category::MovingAverages => self.moving_averages@,
            Category::Oscillators => self.oscillators@,
            Category::Volatility => self.volatility@,
        }
    }
}

/// The entries of one partition: for each instance of that partition that
/// reports for `bar`, in the order of the instances, its key and its reading.
pub open spec fn readings(
    models: Seq<IndicatorModel>,
    kept: Series,
    bar: Bar,
    category: Category,
) -> Seq<Entry>
    decreases models.len(),
{
    if models.len() == 0 {
        Seq::empty()
    } else {
        let before = readings(models.drop_last(), kept, bar, category);
        let last = models.last();
        match last.previewed(kept, bar) {
            Some(reading) => if last.key().category() == category {
                before.push(Entry { key: last.key(), reading })
            } else {
                before
            },
            None => before,
        }
    }
}

/// Every instance after `bar` has been committed after the kept history.
pub open spec fn committed_all(
    models: Seq<IndicatorModel>,
    kept: Series,
    bar: Bar,
    capacity: nat,
) -> Seq<IndicatorModel> {
    Seq::new(models.len(), |i: int| models[i].committed(kept, bar, capacity))
}

/// Every instance once a new period of the anchor at position `slot` has
/// begun.
pub open spec fn restarted_all(models: Seq<IndicatorModel>, slot: usize) -> Seq<IndicatorModel> {
    Seq::new(models.len(), |i: int| models[i].restarted(slot))
}

/// One instance for each key, after warm-up on the whole of history.
pub open spec fn warmed_all(keys: Seq<IndicatorKey>, all: Series, capacity: nat) -> Seq<
    IndicatorModel,
> {
    Seq::new(keys.len(), |i: int| IndicatorModel::warmed(keys[i], all, capacity))
}

/// The models of a list of instances.
pub open spec fn models_of(indicators: Seq<Indicator>) -> Seq<IndicatorModel> {
    Seq::new(indicators.len(), |i: int| indicators[i]@)
}

/// The pivot levels as the output shows them: none before the first period has
/// closed.
pub open spec fn shown(pivots: PivotState) -> Option<PivotState> {
    if pivots.initialized {
        Some(pivots)
    } else {
        None
    }
}

/// The engine of one instrument and timeframe.
pub struct TechnicalsCalculator {
    settings: IndicatorSettings,
    history: HistoryBuffer,
    indicators: Vec<Indicator>,
    pivots_state: PivotState,
}

impl TechnicalsCalculator {
    /// The bars that the history keeps.
    pub closed spec fn kept(&self) -> Series {
        self.history.kept()
    }

    /// The states of the configured instances, in the order of configuration.
    pub closed spec fn models(&self) -> Seq<IndicatorModel> {
        models_of(self.indicators@)
    }

    /// The configuration that the engine was last initialized with.
    pub closed spec fn configuration(&self) -> IndicatorSettings {
        self.settings
    }

    /// The pivot levels of the current anchor period.
    pub closed spec fn pivot_levels(&self) -> PivotState {
        self.pivots_state
    }

    /// The history is well formed and of the engine's capacity, every instance
    /// agrees with it, and no two instances have one key.
    pub closed spec fn wf(&self) -> bool {
        &&& self.history.wf()
        &&& self.history.spec_capacity() == HISTORY_CAPACITY
        &&& forall|i: int|
            0 <= i < self.indicators@.len() ==> (#[trigger] self.indicators@[i])@.wf(
                self.history.kept(),
            )
        &&& forall|i: int, j: int|
            0 <= i < j < self.indicators@.len() ==> (#[trigger] self.indicators@[i])@.key() != (
            #[trigger] self.indicators@[j])@.key()
    }

    /// What a well-formed engine promises of its history and its instances.
    pub proof fn lemma_wf(&self)
        requires
            self.wf(),
        ensures
            self.kept().wf(),
            self.kept().len() <= HISTORY_CAPACITY,
            forall|i: int|
                0 <= i < self.models().len() ==> (#[trigger] self.models()[i]).wf(self.kept()),
            forall|i: int, j: int|
                0 <= i < j < self.models().len() ==> (#[trigger] self.models()[i]).key() != (
                #[trigger] self.models()[j]).key(),
    {
        assert forall|i: int| 0 <= i < self.models().len() implies (#[trigger] self.models()[i]).wf(
            self.kept(),
        ) by {
            assert(self.indicators@[i]@.wf(self.history.kept()));
        }
        assert forall|i: int, j: int| 0 <= i < j < self.models().len() implies (
        #[trigger] self.models()[i]).key() != (#[trigger] self.models()[j]).key() by {
            assert(self.indicators@[i]@.key() != self.indicators@[j]@.key());
        }
    }

    /// An engine with an empty history, no instance and no pivot levels.
    pub fn new() -> (engine: TechnicalsCalculator)
        ensures
            engine.wf(),
            engine.kept() == Series::empty(),
            engine.models() == Seq::<IndicatorModel>::empty(),
            engine.configuration().is_empty(),
            engine.pivot_levels() == PivotState::unset(),
    {
        let engine = TechnicalsCalculator {
            settings: IndicatorSettings::default(),
            history: HistoryBuffer::new(HISTORY_CAPACITY),
            indicators: Vec::new(),
            pivots_state: PivotState::default(),
        };
        assert(engine.models() =~= Seq::<IndicatorModel>::empty());
        engine
    }

    /// Number of configured instances.
    pub fn len(&self) -> (n: usize)
        ensures
            n == self.models().len(),
    {
        self.indicators.len()
    }

    /// Number of bars that the history keeps.
    pub fn history_len(&self) -> (n: usize)
        ensures
            n == self.kept().len(),
    {
        self.history.len()
    }

    /// The configuration that the engine was last initialized with.
    pub fn settings(&self) -> (s: &IndicatorSettings)
        ensures
            *s == self.configuration(),
    {
        &self.settings
    }

    /// The pivot levels of the current anchor period.
    pub fn pivots(&self) -> (p: PivotState)
        ensures
            p == self.pivot_levels(),
    {
        self.pivots_state
    }

    /// The engine's history.
    pub fn history(&self) -> (h: &HistoryBuffer)
        ensures
            h.kept() == self.kept(),
            self.wf() ==> h.wf() && h.spec_capacity() == HISTORY_CAPACITY,
    {
        &self.history
    }

    /// The instance at position `i` in the order of configuration.
    pub fn indicator(&self, i: usize) -> (ind: &Indicator)
        requires
            i < self.models().len(),
        ensures
            ind@ == self.models()[i as int],
    {
        &self.indicators[i]
    }

    /// The position of the instance with the given key, if one is configured.
    pub fn find(&self, key: IndicatorKey) -> (pos: Option<usize>)
        ensures
            match pos {
                Some(i) => {
                    &&& i < self.models().len()
                    &&& self.models()[i as int].key() == key
                    &&& forall|j: int| 0 <= j < i ==> self.models()[j].key() != key
                },
                None => forall|i: int|
                    0 <= i < self.models().len() ==> self.models()[i].key() != key,
            },
    {
        let mut i: usize = 0;
        while i < self.indicators.len()
            invariant
                i <= self.indicators@.len(),
                forall|j: int| 0 <= j < i ==> self.models()[j].key() != key,
            decreases self.indicators@.len() - i,
        {
            if self.indicators[i].key() == key {
                return Some(i);
            }
            i += 1;
        }
        None
    }

    /// Seeds the engine from history, in place of whatever it held. History is
    /// the bars that the four columns hold together: where one is shorter than
    /// another, the bars up to the end of the shortest. A value beyond the
    /// admissible magnitude counts as the largest admissible one. The history
    /// buffer
    /// takes the most recent bars, and every instance that the configuration
    /// asks for, once for each distinct key, is warmed up on the whole of
    /// history. The pivot levels stay.
    pub fn initialize(
        &mut self,
        closes: &[i64],
        highs: &[i64],
        lows: &[i64],
        volumes: &[i64],
        _times: &[i64],
        settings: IndicatorSettings,
    )
        requires
            old(self).wf(),
        ensures
            final(self).wf(),
            final(self).configuration() == settings,
            final(self).pivot_levels() == old(self).pivot_levels(),
            ({
                let all = Series::of_columns(
                    clamped_all(closes@),
                    clamped_all(highs@),
                    clamped_all(lows@),
                    clamped_all(volumes@),
                );
                &&& final(self).kept() == all.recent(HISTORY_CAPACITY as nat)
                &&& final(self).models() == warmed_all(
                    distinct(settings.configured()),
                    all,
                    HISTORY_CAPACITY as nat,
                )
            }),
    {
        let configured = settings.keys();
        self.settings = settings;
        let len: usize = shortest_of(closes.len(), highs.len(), lows.len(), volumes.len());
        let all_closes = clamp_series(closes);
        let all_highs = clamp_series(highs);
        let all_lows = clamp_series(lows);
        let all_volumes = clamp_series(volumes);
        let closes = slice_subrange(all_closes.as_slice(), 0, len);
        let highs = slice_subrange(all_highs.as_slice(), 0, len);
        let lows = slice_subrange(all_lows.as_slice(), 0, len);
        let volumes = slice_subrange(all_volumes.as_slice(), 0, len);
        let ghost all = Series { closes: closes@, highs: highs@, lows: lows@, volumes: volumes@ };
        let mut history = HistoryBuffer::new(HISTORY_CAPACITY);
        let start: usize = if len > HISTORY_CAPACITY {
            len - HISTORY_CAPACITY
        } else {
            0
        };
        let mut i: usize = start;
        proof {
            assert(closes@.subrange(start as int, start as int) =~= Seq::<i64>::empty());
            assert(highs@.subrange(start as int, start as int) =~= Seq::<i64>::empty());
            assert(lows@.subrange(start as int, start as int) =~= Seq::<i64>::empty());
            assert(volumes@.subrange(start as int, start as int) =~= Seq::<i64>::empty());
        }
        while i < len
            invariant
                start <= i <= len,
                len == closes.len(),
                len - start <= HISTORY_CAPACITY,
                highs.len() == closes.len(),
                lows.len() == closes.len(),
                volumes.len() == closes.len(),
                all_in_range(closes@),
                all_in_range(highs@),
                all_in_range(lows@),
                all_in_range(volumes@),
                history.wf(),
                history.spec_capacity() == HISTORY_CAPACITY,
                history.closes() == closes@.subrange(start as int, i as int),
                history.highs() == highs@.subrange(start as int, i as int),
                history.lows() == lows@.subrange(start as int, i as int),
                history.volumes() == volumes@.subrange(start as int, i as int),
            decreases len - i,
        {
            let bar = Bar::new(0, highs[i], lows[i], closes[i], volumes[i], 0);
            history.push(bar);
            i += 1;
            proof {
                assert(history.closes() =~= closes@.subrange(start as int, i as int));
                assert(history.highs() =~= highs@.subrange(start as int, i as int));
                assert(history.lows() =~= lows@.subrange(start as int, i as int));
                assert(history.volumes() =~= volumes@.subrange(start as int, i as int));
            }
        }
        proof {
            let cap = HISTORY_CAPACITY as nat;
            assert(closes@.subrange(start as int, len as int) =~= recent(closes@, cap));
            assert(highs@.subrange(start as int, len as int) =~= recent(highs@, cap));
            assert(lows@.subrange(start as int, len as int) =~= recent(lows@, cap));
            assert(volumes@.subrange(start as int, len as int) =~= recent(volumes@, cap));
        }
        let keys = distinct_keys(&configured);
        let mut indicators: Vec<Indicator> = Vec::new();
        let mut k: usize = 0;
        while k < keys.len()
            invariant
                k <= keys@.len(),
                is_history(closes@, highs@, lows@, volumes@, &history),
                history.spec_capacity() == HISTORY_CAPACITY,
                all == (Series { closes: closes@, highs: highs@, lows: lows@, volumes: volumes@ }),
                indicators@.len() == k,
                forall|j: int|
                    0 <= j < k ==> (#[trigger] indicators@[j])@ == IndicatorModel::warmed(
                        keys@[j],
                        all,
                        HISTORY_CAPACITY as nat,
                    ),
                forall|j: int| 0 <= j < k ==> (#[trigger] indicators@[j])@.wf(history.kept()),
                forall|j: int| 0 <= j < k ==> (#[trigger] indicators@[j])@.key() == keys@[j],
            decreases keys@.len() - k,
        {
            let indicator = Indicator::warm_up(keys[k], closes, highs, lows, volumes, &history);
            indicators.push(indicator);
            k += 1;
        }
        self.history = history;
        self.indicators = indicators;
        proof {
            assert(self.models() =~= warmed_all(keys@, all, HISTORY_CAPACITY as nat));
        }
    }

    /// What every seeded instance reports for the bar, read against the history
    /// as it stands: the partition of its family holds an entry for an instance
    /// exactly when the instance is seeded. A value beyond the admissible magnitude counts as the
    /// largest admissible one. Nothing changes: the same bar gives the same
    /// output however often it is asked for, and the next commit is not
    /// affected.
    pub fn update(&self, o: i64, h: i64, l: i64, c: i64, v: i64, t: i64) -> (out: OutputData)
        requires
            self.wf(),
        ensures
            ({
                let bar = (Bar {
                    open: o,
                    high: h,
                    low: l,
                    close: c,
                    volume: v,
                    timestamp: t,
                }).clamped();
                &&& out.moving_averages@ == readings(
                    self.models(),
                    self.kept(),
                    bar,
                    Category::MovingAverages,
                )
                &&& out.oscillators@ == readings(
                    self.models(),
                    self.kept(),
                    bar,
                    Category::Oscillators,
                )
                &&& out.volatility@ == readings(
                    self.models(),
                    self.kept(),
                    bar,
                    Category::Volatility,
                )
                &&& out.pivots == shown(self.pivot_levels())
            }),
            forall|i: int, category: Category|
                0 <= i < self.models().len() ==> (holds(
                    #[trigger] out.partition(category),
                    (#[trigger] self.models()[i]).key(),
                ) <==> self.models()[i].initialized() && self.models()[i].key().category()
                    == category),
    {
        let bar = Bar::new(o, h, l, c, v, t).admitted();
        let mut moving_averages: Vec<Entry> = Vec::new();
        let mut oscillators: Vec<Entry> = Vec::new();
        let mut volatility: Vec<Entry> = Vec::new();
        let ghost models = self.models();
        let ghost kept = self.kept();
        let mut i: usize = 0;
        proof {
            assert(models.subrange(0, 0) =~= Seq::<IndicatorModel>::empty());
        }
        while i < self.indicators.len()
            invariant
                self.wf(),
                bar.in_range(),
                models == self.models(),
                kept == self.kept(),
                i <= self.indicators@.len(),
                moving_averages@ == readings(
                    models.subrange(0, i as int),
                    kept,
                    bar,
                    Category::MovingAverages,
                ),
                oscillators@ == readings(
                    models.subrange(0, i as int),
                    kept,
                    bar,
                    Category::Oscillators,
                ),
                volatility@ == readings(
                    models.subrange(0, i as int),
                    kept,
                    bar,
                    Category::Volatility,
                ),
            decreases self.indicators@.len() - i,
        {
            proof {
                assert(models.subrange(0, i + 1).drop_last() =~= models.subrange(0, i as int));
                assert(models.subrange(0, i + 1).last() == self.indicators@[i as int]@);
            }
            let indicator = &self.indicators[i];
            match indicator.preview(&self.history, &bar) {
                Some(reading) => {
                    let key = indicator.key();
                    let entry = Entry { key, reading };
                    match key.partition() {
                        Category::MovingAverages => {
                            moving_averages.push(entry);
                        },
                        Category::Oscillators => {
                            oscillators.push(entry);
                        },
                        Category::Volatility => {
                            volatility.push(entry);
                        },
                    }
                },
                None => {},
            }
            i += 1;
        }
        proof {
            assert(models.subrange(0, i as int) =~= models);
        }
        let pivots: Option<PivotState> = if self.pivots_state.initialized {
            Some(self.pivots_state)
        } else {
            None
        };
        let out = OutputData { moving_averages, oscillators, volatility, pivots };
        proof {
            self.lemma_wf();
            assert forall|i: int, category: Category| 0 <= i < models.len() implies (holds(
                #[trigger] out.partition(category),
                (#[trigger] models[i]).key(),
            ) <==> models[i].initialized() && models[i].key().category() == category) by {
                lemma_output_holds_the_seeded(models, kept, bar, category, i);
            }
        }
        out
    }

    /// Commits a closed bar. Every seeded instance advances by the bar, read
    /// against the history as it stood, and the bar enters the history. An
    /// instance that history has not seeded yet is then warmed up on the bars
    /// that the history keeps, so that it reports as soon as these suffice. A
    /// value beyond the admissible magnitude counts as the largest admissible
    /// one.
    pub fn shift(&mut self, o: i64, h: i64, l: i64, c: i64, v: i64, t: i64)
        requires
            old(self).wf(),
        ensures
            final(self).wf(),
            ({
                let bar = (Bar {
                    open: o,
                    high: h,
                    low: l,
                    close: c,
                    volume: v,
                    timestamp: t,
                }).clamped();
                &&& final(self).kept() == old(self).kept().push_bounded(
                    bar,
                    HISTORY_CAPACITY as nat,
                )
                &&& final(self).models() == committed_all(
                    old(self).models(),
                    old(self).kept(),
                    bar,
                    HISTORY_CAPACITY as nat,
                )
            }),
            final(self).configuration() == old(self).configuration(),
            final(self).pivot_levels() == old(self).pivot_levels(),
    {
        let bar = Bar::new(o, h, l, c, v, t).admitted();
        let mut next: Vec<Indicator> = Vec::new();
        let mut unseeded: bool = false;
        let mut i: usize = 0;
        let ghost kept = self.history.kept();
        let ghost after = kept.push_bounded(bar, HISTORY_CAPACITY as nat);
        while i < self.indicators.len()
            invariant
                self.wf(),
                *self == *old(self),
                bar.in_range(),
                kept == self.history.kept(),
                after == kept.push_bounded(bar, HISTORY_CAPACITY as nat),
                i <= self.indicators@.len(),
                next@.len() == i,
                forall|j: int|
                    0 <= j < i ==> (#[trigger] next@[j])@ == self.indicators@[j]@.advanced(
                        kept,
                        bar,
                    ),
                forall|j: int| 0 <= j < i ==> (#[trigger] next@[j])@.wf(after),
                forall|j: int|
                    0 <= j < i ==> (#[trigger] next@[j])@.key() == self.indicators@[j]@.key(),
                forall|j: int|
                    0 <= j < i ==> (#[trigger] next@[j])@.initialized()
                        == self.indicators@[j]@.initialized(),
                !unseeded ==> forall|j: int| 0 <= j < i ==> (#[trigger] next@[j])@.initialized(),
            decreases self.indicators@.len() - i,
        {
            let advanced = self.indicators[i].step(&self.history, &bar);
            if !advanced.is_initialized() {
                unseeded = true;
            }
            next.push(advanced);
            i += 1;
        }
        self.history.push(bar);
        if unseeded {
            next = Self::seed_late(
                next,
                &self.history,
                Ghost(old(self).models()),
                Ghost(kept),
                Ghost(bar),
            );
        }
        self.indicators = next;
        proof {
            assert(self.models() =~= committed_all(
                old(self).models(),
                old(self).kept(),
                bar,
                HISTORY_CAPACITY as nat,
            ));
        }
    }

    /// Warms up, on the bars that the history keeps, every instance that is
    /// not seeded yet.
    fn seed_late(
        stepped: Vec<Indicator>,
        history: &HistoryBuffer,
        Ghost(before): Ghost<Seq<IndicatorModel>>,
        Ghost(kept): Ghost<Series>,
        Ghost(bar): Ghost<Bar>,
    ) -> (next: Vec<Indicator>)
        requires
            history.wf(),
            history.spec_capacity() == HISTORY_CAPACITY,
            history.kept() == kept.push_bounded(bar, HISTORY_CAPACITY as nat),
            stepped@.len() == before.len(),
            forall|j: int|
                0 <= j < stepped@.len() ==> (#[trigger] stepped@[j])@ == before[j].advanced(
                    kept,
                    bar,
                ),
            forall|j: int| 0 <= j < stepped@.len() ==> (#[trigger] stepped@[j])@.wf(history.kept()),
            forall|j: int|
                0 <= j < stepped@.len() ==> (#[trigger] stepped@[j])@.key() == before[j].key(),
            forall|j: int|
                0 <= j < stepped@.len() ==> (#[trigger] stepped@[j])@.initialized()
                    == before[j].initialized(),
        ensures
            next@.len() == before.len(),
            forall|j: int|
                0 <= j < next@.len() ==> (#[trigger] next@[j])@ == before[j].committed(
                    kept,
                    bar,
                    HISTORY_CAPACITY as nat,
                ),
            forall|j: int| 0 <= j < next@.len() ==> (#[trigger] next@[j])@.wf(history.kept()),
            forall|j: int| 0 <= j < next@.len() ==> (#[trigger] next@[j])@.key() == before[j].key(),
    {
        let mut next = stepped;
        let len: usize = history.len();
        let closes = history.window(Source::Close, len);
        let highs = history.window(Source::High, len);
        let lows = history.window(Source::Low, len);
        let volumes = history.window(Source::Volume, len);
        proof {
            assert(closes@ =~= history.closes());
            assert(highs@ =~= history.highs());
            assert(lows@ =~= history.lows());
            assert(volumes@ =~= history.volumes());
        }
        let mut i: usize = 0;
        while i < next.len()
            invariant
                i <= next@.len(),
                next@.len() == before.len(),
                history.wf(),
                history.spec_capacity() == HISTORY_CAPACITY,
                history.kept() == kept.push_bounded(bar, HISTORY_CAPACITY as nat),
                is_history(closes@, highs@, lows@, volumes@, history),
                history.kept() == (Series {
                    closes: closes@,
                    highs: highs@,
                    lows: lows@,
                    volumes: volumes@,
                }),
                forall|j: int|
                    0 <= j < i ==> (#[trigger] next@[j])@ == before[j].committed(
                        kept,
                        bar,
                        HISTORY_CAPACITY as nat,
                    ),
                forall|j: int|
                    i <= j < next@.len() ==> (#[trigger] next@[j])@ == before[j].advanced(
                        kept,
                        bar,
                    ),
                forall|j: int| 0 <= j < next@.len() ==> (#[trigger] next@[j])@.wf(history.kept()),
                forall|j: int|
                    0 <= j < next@.len() ==> (#[trigger] next@[j])@.key() == before[j].key(),
                forall|j: int|
                    i <= j < next@.len() ==> (#[trigger] next@[j])@.initialized()
                        == before[j].initialized(),
            decreases next@.len() - i,
        {
            if !next[i].is_initialized() {
                let key = next[i].key();
                let fresh = Indicator::warm_up(
                    key,
                    closes.as_slice(),
                    highs.as_slice(),
                    lows.as_slice(),
                    volumes.as_slice(),
                    history,
                );
                next[i] = fresh;
            }
            i += 1;
        }
        next
    }

    /// Begins a new period of the anchor at position `slot` of the
    /// configuration: the average over that anchor starts anew. Nothing else
    /// changes.
    pub fn restart_anchor(&mut self, slot: usize)
        requires
            old(self).wf(),
        ensures
            final(self).wf(),
            final(self).models() == restarted_all(old(self).models(), slot),
            final(self).kept() == old(self).kept(),
            final(self).configuration() == old(self).configuration(),
            final(self).pivot_levels() == old(self).pivot_levels(),
    {
        let mut i: usize = 0;
        while i < self.indicators.len()
            invariant
                i <= self.indicators@.len(),
                self.indicators@.len() == old(self).indicators@.len(),
                self.history == old(self).history,
                self.settings == old(self).settings,
                self.pivots_state == old(self).pivots_state,
                old(self).wf(),
                forall|j: int|
                    0 <= j < i ==> (#[trigger] self.indicators@[j])@ == old(
                        self,
                    ).indicators@[j]@.restarted(slot),
                forall|j: int|
                    i <= j < self.indicators@.len() ==> (#[trigger] self.indicators@[j])
                        == old(self).indicators@[j],
            decreases self.indicators@.len() - i,
        {
            let anchored: bool = match &self.indicators[i] {
                Indicator::Vwap(state) => state.slot == slot,
                _ => false,
            };
            if anchored {
                self.indicators[i] = Indicator::Vwap(VwapState::new(slot));
            }
            i += 1;
        }
        proof {
            assert(self.models() =~= restarted_all(old(self).models(), slot));
            assert forall|j: int| 0 <= j < self.indicators@.len() implies (
            #[trigger] self.indicators@[j])@.wf(self.history.kept()) by {
                assert(old(self).indicators@[j]@.wf(old(self).history.kept()));
            }
            assert forall|j: int, k: int| 0 <= j < k < self.indicators@.len() implies (
            #[trigger] self.indicators@[j])@.key() != (#[trigger] self.indicators@[k])@.key() by {
                assert(old(self).indicators@[j]@.key() != old(self).indicators@[k]@.key());
            }
        }
    }

    /// Replaces the pivot levels by those of a new anchor period, computed by
    /// the given method from the bar of the period that has closed and the open
    /// of the period that begins. A price beyond the admissible magnitude
    /// counts as the largest admissible one.
    pub fn roll_pivots(&mut self, kind: PivotKind, open: i64, high: i64, low: i64, close: i64)
        requires
            old(self).wf(),
        ensures
            final(self).wf(),
            final(self).pivot_levels() == PivotState::levels(
                kind,
                clamped(open),
                clamped(high),
                clamped(low),
                clamped(close),
            ),
            final(self).kept() == old(self).kept(),
            final(self).models() == old(self).models(),
            final(self).configuration() == old(self).configuration(),
    {
        self.pivots_state = PivotState::from_prior(
            kind,
            clamp(open),
            clamp(high),
            clamp(low),
            clamp(close),
        );
    }
}

} // verus!
