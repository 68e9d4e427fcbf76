use technicals::bar::Bar;
use technicals::bar::Source;
use technicals::config::distinct_keys;
use technicals::config::holds_key;
use technicals::config::ParameterSet;
use technicals::engine::OutputData;
use technicals::engine::TechnicalsCalculator;
use technicals::engine::HISTORY_CAPACITY;
use technicals::fixed::HUNDRED;
use technicals::fixed::UNIT;
use technicals::fixed::VALUE_MAX;
use technicals::indicator::Category;
use technicals::indicator::Indicator;
use technicals::indicator::IndicatorKey;
use technicals::indicator::Reading;
use technicals::pivots::PivotKind;
use technicals::pivots::PivotState;
use technicals::settings::AdxSettings;
use technicals::settings::AtrSettings;
use technicals::settings::BbSettings;
use technicals::settings::CciSettings;
use technicals::settings::ChopSettings;
use technicals::settings::EmaSettings;
use technicals::settings::HmaSettings;
use technicals::settings::IndicatorSettings;
use technicals::settings::MacdSettings;
use technicals::settings::MfiSettings;
use technicals::settings::MomSettings;
use technicals::settings::PsarSettings;
use technicals::settings::RsiSettings;
use technicals::settings::SmaSettings;
use technicals::settings::StochSettings;
use technicals::settings::SuperTrendSettings;
use technicals::settings::VolMaSettings;
use technicals::settings::VwapSettings;
use technicals::settings::VwmaSettings;
use technicals::settings::WmaSettings;
use technicals::settings::WrSettings;

struct Feed {
    closes: Vec<i64>,
    highs: Vec<i64>,
    lows: Vec<i64>,
    volumes: Vec<i64>,
    times: Vec<i64>,
}

fn feed(n: usize, mut seed: i64) -> Feed {
    let mut f =
        Feed { closes: vec![], highs: vec![], lows: vec![], volumes: vec![], times: vec![] };
    let mut price: i64 = 100 * UNIT;
    for i in 0..n {
        seed = (seed * 1_103_515_245 + 12_345) % 2_147_483_648;
        let step = seed % (4 * UNIT) - 2 * UNIT;
        price = (price + step).max(10 * UNIT);
        let up = (seed / 3) % UNIT;
        let down = (seed / 5) % UNIT;
        f.closes.push(price);
        f.highs.push(price + up);
        f.lows.push(price - down);
        f.volumes.push((seed / 11) % (5_000 * UNIT));
        f.times.push(i as i64);
    }
    f
}

fn every_family() -> IndicatorSettings {
    let mut s = IndicatorSettings::default();
    s.ema.push(EmaSettings { length: 20 });
    s.ema.push(EmaSettings { length: 9 });
    s.sma.push(SmaSettings { length: 20 });
    s.wma.push(WmaSettings { length: 10 });
    s.vwma.push(VwmaSettings { length: 10 });
    s.hma.push(HmaSettings { length: 16 });
    s.rsi.push(RsiSettings::default());
    s.macd.push(MacdSettings::default());
    s.bb.push(BbSettings::default());
    s.atr.push(AtrSettings { length: 14 });
    s.stoch.push(StochSettings::default());
    s.cci.push(CciSettings { length: 20 });
    s.adx.push(AdxSettings::default());
    s.supertrend.push(SuperTrendSettings::default());
    s.mom.push(MomSettings { length: 10 });
    s.wr.push(WrSettings { length: 14 });
    s.volma.push(VolMaSettings { length: 20 });
    s.chop.push(ChopSettings { length: 14 });
    s.mfi.push(MfiSettings { length: 14 });
    s.psar.push(PsarSettings { start: 20_000, increment: 20_000, max: 200_000 });
    s.vwap.push(VwapSettings { anchor: String::from("session") });
    s
}

fn initialized_on(f: &Feed, n: usize, settings: IndicatorSettings) -> TechnicalsCalculator {
    let mut calc = TechnicalsCalculator::new();
    calc.initialize(
        &f.closes[..n],
        &f.highs[..n],
        &f.lows[..n],
        &f.volumes[..n],
        &f.times[..n],
        settings,
    );
    calc
}

fn commit(calc: &mut TechnicalsCalculator, f: &Feed, i: usize) {
    calc.shift(f.closes[i], f.highs[i], f.lows[i], f.closes[i], f.volumes[i], f.times[i]);
}

fn preview(calc: &TechnicalsCalculator) -> OutputData {
    calc.update(101 * UNIT, 103 * UNIT, 99 * UNIT, 102 * UNIT, 1234 * UNIT, 0)
}

fn same_state(a: &TechnicalsCalculator, b: &TechnicalsCalculator) {
    assert_eq!(a.len(), b.len());
    for i in 0..a.len() {
        assert_eq!(a.indicator(i), b.indicator(i), "instance {}", i);
    }
    assert_eq!(a.history_len(), b.history_len());
    assert_eq!(
        a.history().window(Source::Close, a.history_len()),
        b.history().window(Source::Close, b.history_len())
    );
    assert_eq!(preview(a), preview(b));
}

#[test]
fn committing_after_warm_up_equals_warm_up_on_everything() {
    let f = feed(260, 7);
    let whole = initialized_on(&f, 260, every_family());
    for i in 0..whole.len() {
        assert!(whole.indicator(i).is_initialized(), "instance {}", i);
    }
    for split in [1usize, 2, 10, 36, 60, 150, 199, 200, 201, 259] {
        let mut part = initialized_on(&f, split, every_family());
        for i in split..260 {
            commit(&mut part, &f, i);
        }
        same_state(&part, &whole);
    }
}

#[test]
fn committing_one_bar_equals_warm_up_on_one_more_bar() {
    let f = feed(120, 99);
    let mut running = initialized_on(&f, 70, every_family());
    for n in 70..120 {
        commit(&mut running, &f, n);
        let fresh = initialized_on(&f, n + 1, every_family());
        same_state(&running, &fresh);
    }
}

#[test]
fn an_instance_is_seeded_as_soon_as_the_kept_history_suffices() {
    let f = feed(40, 3);
    let mut s = IndicatorSettings::default();
    s.ema.push(EmaSettings { length: 3 });
    s.rsi.push(RsiSettings { length: 14 });
    // Exactly as many bars as the lookback: the average is not seeded.
    let mut calc = initialized_on(&f, 3, s.clone());
    assert_eq!(calc.len(), 2);
    assert!(!calc.indicator(0).is_initialized());
    assert!(!calc.indicator(1).is_initialized());
    assert!(preview(&calc).moving_averages.is_empty());
    // One more bar seeds the average, the fifteenth bar seeds the index.
    commit(&mut calc, &f, 3);
    assert!(calc.indicator(0).is_initialized());
    assert!(!calc.indicator(1).is_initialized());
    same_state(&calc, &initialized_on(&f, 4, s.clone()));
    for i in 4..14 {
        commit(&mut calc, &f, i);
        assert!(!calc.indicator(1).is_initialized());
        assert!(preview(&calc).oscillators.is_empty());
    }
    commit(&mut calc, &f, 14);
    assert!(calc.indicator(1).is_initialized());
    assert_eq!(preview(&calc).oscillators.len(), 1);
    for i in 15..40 {
        commit(&mut calc, &f, i);
    }
    same_state(&calc, &initialized_on(&f, 40, s));
    assert_eq!(calc.history_len(), 40);
}

#[test]
fn update_changes_nothing() {
    let f = feed(100, 11);
    let mut calc = initialized_on(&f, 90, every_family());
    let mut twin = initialized_on(&f, 90, every_family());
    let first = preview(&calc);
    for _ in 0..5 {
        assert_eq!(preview(&calc), first);
        let _ = calc.update(1, 2, 0, 1, 5, 0);
    }
    assert_eq!(preview(&calc), first);
    same_state(&calc, &twin);
    for i in 90..100 {
        let _ = calc.update(f.closes[i] + 3, f.highs[i] + 9, f.lows[i] - 4, f.closes[i] - 1, 17, 0);
        commit(&mut calc, &f, i);
        commit(&mut twin, &f, i);
        same_state(&calc, &twin);
    }
}

#[test]
fn what_update_shows_is_what_commit_makes_current() {
    let f = feed(90, 5);
    let calc = initialized_on(&f, 89, every_family());
    let shown = calc.update(f.closes[89], f.highs[89], f.lows[89], f.closes[89], f.volumes[89], 0);
    let mut committed = initialized_on(&f, 89, every_family());
    commit(&mut committed, &f, 89);
    let fresh = initialized_on(&f, 90, every_family());
    same_state(&committed, &fresh);
    // The recursive families: the previewed value is the committed state's value.
    for e in shown.oscillators.iter() {
        if let (IndicatorKey::Rsi { .. }, Reading::Single(v)) = (e.key, e.reading) {
            match committed.indicator(committed.find(e.key).unwrap()) {
                Indicator::Rsi(s) => assert_eq!(s.current() as i128, v),
                other => panic!("unexpected {:?}", other),
            }
        }
    }
    for e in shown.moving_averages.iter() {
        if let (IndicatorKey::Ema { .. }, Reading::Single(v)) = (e.key, e.reading) {
            match committed.indicator(committed.find(e.key).unwrap()) {
                Indicator::Ema(s) => assert_eq!(s.value as i128, v),
                other => panic!("unexpected {:?}", other),
            }
        }
    }
}

#[test]
fn history_keeps_the_most_recent_bars() {
    let f = feed(450, 21);
    let mut calc = TechnicalsCalculator::new();
    assert_eq!(calc.history_len(), 0);
    calc.initialize(
        &f.closes[..1],
        &f.highs[..1],
        &f.lows[..1],
        &f.volumes[..1],
        &f.times[..1],
        IndicatorSettings::default(),
    );
    for i in 1..450 {
        commit(&mut calc, &f, i);
        let want = if i + 1 < HISTORY_CAPACITY { i + 1 } else { HISTORY_CAPACITY };
        assert_eq!(calc.history_len(), want);
        assert_eq!(calc.history().window(Source::Close, want), f.closes[i + 1 - want..=i].to_vec());
        assert_eq!(calc.history().high_at(want - 1), f.highs[i]);
        assert_eq!(calc.history().low_at(0), f.lows[i + 1 - want]);
        assert_eq!(calc.history().volume_at(0), f.volumes[i + 1 - want]);
    }
    let long = initialized_on(&f, 450, IndicatorSettings::default());
    assert_eq!(long.history_len(), HISTORY_CAPACITY);
    assert_eq!(long.history().window(Source::Close, HISTORY_CAPACITY), f.closes[250..].to_vec());
    assert_eq!(long.history().capacity(), HISTORY_CAPACITY);
}

#[test]
fn bounded_oscillators_stay_within_their_bounds() {
    let f = feed(400, 77);
    let mut calc = initialized_on(&f, 60, every_family());
    for i in 60..400 {
        let out = calc.update(f.closes[i], f.highs[i], f.lows[i], f.closes[i], f.volumes[i], 0);
        let mut seen = 0;
        for e in out.oscillators.iter() {
            match (e.key, e.reading) {
                (IndicatorKey::Rsi { .. }, Reading::Single(v)) => {
                    assert!(0 <= v && v <= HUNDRED as i128);
                    seen += 1;
                }
                (IndicatorKey::Wr { .. }, Reading::Single(v)) => {
                    assert!(-(HUNDRED as i128) <= v && v <= 0);
                    seen += 1;
                }
                (IndicatorKey::Stoch { .. }, Reading::Stoch(v)) => {
                    assert!(0 <= v.k && v.k <= HUNDRED as i128);
                    assert!(0 <= v.d && v.d <= HUNDRED as i128);
                    seen += 1;
                }
                (IndicatorKey::Mfi { .. }, Reading::Single(v)) => {
                    assert!(0 <= v && v <= HUNDRED as i128);
                    seen += 1;
                }
                (IndicatorKey::Adx { .. }, Reading::Adx(v)) => {
                    assert!(0 <= v.adx && v.adx <= HUNDRED);
                    seen += 1;
                }
                _ => {}
            }
        }
        assert_eq!(seen, 5);
        commit(&mut calc, &f, i);
    }
}

#[test]
fn a_close_outside_the_bar_can_leave_the_bounds() {
    let f = feed(60, 1);
    let mut s = IndicatorSettings::default();
    s.stoch.push(StochSettings { k: 5, d: 3, smooth: 3 });
    s.wr.push(WrSettings { length: 5 });
    let calc = initialized_on(&f, 60, s);
    // The close lies far above the high.
    let out = calc.update(0, 100 * UNIT, 99 * UNIT, 500 * UNIT, 0, 0);
    let mut above = 0;
    for e in out.oscillators.iter() {
        match e.reading {
            Reading::Stoch(v) => {
                assert!(v.k > HUNDRED as i128);
                above += 1;
            }
            Reading::Single(v) => {
                assert!(v > 0);
                above += 1;
            }
            _ => {}
        }
    }
    assert_eq!(above, 2);
}

#[test]
fn output_is_partitioned_and_ordered() {
    let f = feed(100, 13);
    let calc = initialized_on(&f, 100, every_family());
    assert_eq!(calc.len(), 21);
    let out = preview(&calc);
    let keys = |v: &Vec<technicals::engine::Entry>| v.iter().map(|e| e.key).collect::<Vec<_>>();
    assert_eq!(
        keys(&out.moving_averages),
        vec![
            IndicatorKey::Ema { length: 20 },
            IndicatorKey::Ema { length: 9 },
            IndicatorKey::Sma { length: 20 },
            IndicatorKey::Wma { length: 10 },
            IndicatorKey::Vwma { length: 10 },
            IndicatorKey::Hma { length: 16 },
            IndicatorKey::VolMa { length: 20 },
        ]
    );
    assert_eq!(
        keys(&out.oscillators),
        vec![
            IndicatorKey::Rsi { length: 14 },
            IndicatorKey::Macd { fast: 12, slow: 26, signal: 9 },
            IndicatorKey::Stoch { k: 14, d: 3, smooth: 3 },
            IndicatorKey::Cci { length: 20 },
            IndicatorKey::Mom { length: 10 },
            IndicatorKey::Wr { length: 14 },
            IndicatorKey::Adx { length: 14 },
            IndicatorKey::Mfi { length: 14 },
        ]
    );
    assert_eq!(
        keys(&out.volatility),
        vec![
            IndicatorKey::Bb { length: 20, multiplier: 2 * UNIT },
            IndicatorKey::Atr { length: 14 },
            IndicatorKey::SuperTrend { length: 10, multiplier: 3 * UNIT },
            IndicatorKey::Chop { length: 14 },
            IndicatorKey::Psar { start: 20_000, increment: 20_000, max: 200_000 },
            IndicatorKey::Vwap { slot: 0 },
        ]
    );
    assert_eq!(out.pivots, None);
    for e in out.moving_averages.iter() {
        assert_eq!(e.key.partition(), Category::MovingAverages);
    }
    for e in out.oscillators.iter() {
        assert_eq!(e.key.partition(), Category::Oscillators);
    }
    for e in out.volatility.iter() {
        assert_eq!(e.key.partition(), Category::Volatility);
    }
}

#[test]
fn an_instance_that_needs_more_than_the_buffer_keeps_is_seeded_by_warm_up_only() {
    let f = feed(260, 7);
    // A window as long as the capacity is filled on the way.
    let mut s = IndicatorSettings::default();
    s.sma.push(SmaSettings { length: 200 });
    let whole = initialized_on(&f, 260, s.clone());
    assert!(whole.indicator(0).is_initialized());
    let mut part = initialized_on(&f, 150, s);
    assert!(!part.indicator(0).is_initialized());
    for i in 150..199 {
        commit(&mut part, &f, i);
        assert!(!part.indicator(0).is_initialized());
    }
    for i in 199..260 {
        commit(&mut part, &f, i);
        assert!(part.indicator(0).is_initialized());
    }
    same_state(&part, &whole);
    // A window longer than the capacity is never filled.
    let mut t = IndicatorSettings::default();
    t.sma.push(SmaSettings { length: 201 });
    assert!(!initialized_on(&f, 260, t.clone()).indicator(0).is_initialized());
    let mut never = initialized_on(&f, 150, t.clone());
    for i in 150..260 {
        commit(&mut never, &f, i);
    }
    same_state(&never, &initialized_on(&f, 260, t));
    // An average that needs 201 bars is seeded by a long history at warm-up,
    // but not on the way: the buffer keeps 200.
    let mut e = IndicatorSettings::default();
    e.ema.push(EmaSettings { length: 200 });
    assert!(initialized_on(&f, 260, e.clone()).indicator(0).is_initialized());
    let mut short = initialized_on(&f, 150, e.clone());
    for i in 150..260 {
        commit(&mut short, &f, i);
    }
    assert!(!short.indicator(0).is_initialized());
    // Seeded at warm-up, it runs on as warm-up on everything would leave it.
    let mut long = initialized_on(&f, 230, e.clone());
    assert!(long.indicator(0).is_initialized());
    for i in 230..260 {
        commit(&mut long, &f, i);
    }
    same_state(&long, &initialized_on(&f, 260, e));
}

#[test]
fn a_repeated_key_makes_one_instance() {
    let f = feed(50, 2);
    let mut s = IndicatorSettings::default();
    s.ema.push(EmaSettings { length: 5 });
    s.ema.push(EmaSettings { length: 8 });
    s.ema.push(EmaSettings { length: 5 });
    s.sma.push(SmaSettings { length: 5 });
    s.bb.push(BbSettings { length: 5, std_dev: 2 * UNIT });
    s.bb.push(BbSettings { length: 5, std_dev: 3 * UNIT });
    s.bb.push(BbSettings { length: 5, std_dev: 2 * UNIT });
    let keys = s.keys();
    assert_eq!(keys.len(), 7);
    assert!(holds_key(&keys, IndicatorKey::Sma { length: 5 }));
    assert!(!holds_key(&keys, IndicatorKey::Sma { length: 6 }));
    assert_eq!(
        distinct_keys(&keys),
        vec![
            IndicatorKey::Ema { length: 5 },
            IndicatorKey::Ema { length: 8 },
            IndicatorKey::Sma { length: 5 },
            IndicatorKey::Bb { length: 5, multiplier: 2 * UNIT },
            IndicatorKey::Bb { length: 5, multiplier: 3 * UNIT },
        ]
    );
    let calc = initialized_on(&f, 50, s);
    assert_eq!(calc.len(), 5);
    assert_eq!(calc.find(IndicatorKey::Ema { length: 8 }), Some(1));
    assert_eq!(calc.find(IndicatorKey::Ema { length: 7 }), None);
    assert_eq!(calc.indicator(4).key(), IndicatorKey::Bb { length: 5, multiplier: 3 * UNIT });
    assert_eq!(calc.settings().ema.len(), 3);
}

#[test]
fn an_empty_history_seeds_nothing_yet() {
    let f = feed(60, 4);
    let mut calc = TechnicalsCalculator::new();
    calc.initialize(&[], &[], &[], &[], &[], every_family());
    assert_eq!(calc.len(), 21);
    assert_eq!(calc.history_len(), 0);
    assert_eq!(calc.settings().ema.len(), 2);
    // Only the average over the anchor needs no history.
    for i in 0..calc.len() {
        let anchored = calc.indicator(i).key() == IndicatorKey::Vwap { slot: 0 };
        assert_eq!(calc.indicator(i).is_initialized(), anchored);
    }
    let out = preview(&calc);
    assert!(out.moving_averages.is_empty());
    assert!(out.oscillators.is_empty());
    assert_eq!(out.volatility.len(), 1);
    assert_eq!(out.volatility[0].key, IndicatorKey::Vwap { slot: 0 });
    // Commits seed the instances one by one, exactly as warm-up would.
    for i in 0..60 {
        commit(&mut calc, &f, i);
        same_state(&calc, &initialized_on(&f, i + 1, every_family()));
    }
    for i in 0..calc.len() {
        assert!(calc.indicator(i).is_initialized());
    }
}

#[test]
fn an_engine_that_was_never_initialized_keeps_history() {
    let f = feed(5, 4);
    let mut calc = TechnicalsCalculator::new();
    for i in 0..5 {
        commit(&mut calc, &f, i);
    }
    assert_eq!(calc.len(), 0);
    assert_eq!(calc.history_len(), 5);
    assert_eq!(calc.history().window(Source::Close, 5), f.closes);
}

#[test]
fn initializing_again_starts_anew() {
    let f = feed(300, 8);
    let mut calc = initialized_on(&f, 250, every_family());
    let mut s = IndicatorSettings::default();
    s.atr.push(AtrSettings { length: 3 });
    calc.initialize(
        &f.closes[..10],
        &f.highs[..10],
        &f.lows[..10],
        &f.volumes[..10],
        &f.times[..10],
        s,
    );
    assert_eq!(calc.len(), 1);
    assert_eq!(calc.history_len(), 10);
    assert_eq!(calc.history().window(Source::Close, 10), f.closes[..10].to_vec());
    assert_eq!(calc.indicator(0).key(), IndicatorKey::Atr { length: 3 });
    // Also with an empty history.
    calc.initialize(&[], &[], &[], &[], &[], IndicatorSettings::default());
    assert_eq!(calc.len(), 0);
    assert_eq!(calc.history_len(), 0);
}

#[test]
fn a_new_engine_reports_nothing() {
    let calc = TechnicalsCalculator::new();
    assert_eq!(calc.len(), 0);
    assert!(calc.settings().ema.is_empty());
    let out = calc.update(1, 2, 0, 1, 1, 0);
    assert!(out.moving_averages.is_empty());
    assert!(out.oscillators.is_empty());
    assert!(out.volatility.is_empty());
    assert_eq!(out.pivots, None);
    assert_eq!(calc.pivots(), PivotState::default());
}

#[test]
fn pivot_levels_stand_until_rolled() {
    let f = feed(30, 6);
    let mut calc = initialized_on(&f, 20, every_family());
    calc.roll_pivots(PivotKind::Classic, 95 * UNIT, 110 * UNIT, 90 * UNIT, 100 * UNIT);
    let levels =
        PivotState::from_prior(PivotKind::Classic, 95 * UNIT, 110 * UNIT, 90 * UNIT, 100 * UNIT);
    assert_eq!(preview(&calc).pivots, Some(levels));
    for i in 20..30 {
        commit(&mut calc, &f, i);
        assert_eq!(preview(&calc).pivots, Some(levels));
    }
    calc.roll_pivots(PivotKind::Classic, 0, 10, 7, 9);
    assert_eq!(preview(&calc).pivots.unwrap().p, 8);
}

#[test]
fn defaults_of_the_parameter_sets() {
    assert_eq!(RsiSettings::default().length, 14);
    assert_eq!(MacdSettings::default(), MacdSettings { fast: 12, slow: 26, signal: 9 });
    assert_eq!(BbSettings::default(), BbSettings { length: 20, std_dev: 2 * UNIT });
    assert_eq!(StochSettings::default(), StochSettings { k: 14, d: 3, smooth: 3 });
    assert_eq!(AdxSettings::default().length, 14);
    assert_eq!(
        SuperTrendSettings::default(),
        SuperTrendSettings { length: 10, multiplier: 3 * UNIT }
    );
    assert_eq!(EmaSettings::default().length, 0);
    assert_eq!(
        SuperTrendSettings { length: 14, multiplier: 4_500_000 }.key(),
        IndicatorKey::SuperTrend { length: 14, multiplier: 4_500_000 }
    );
    assert_eq!(BbSettings::default().key(), IndicatorKey::Bb { length: 20, multiplier: 2 * UNIT });
    assert_eq!(
        StochSettings::default().key(),
        IndicatorKey::Stoch { k: 14, d: 3, smooth: 3 }
    );
    assert_eq!(IndicatorSettings::default().keys(), vec![]);
}

#[test]
fn columns_of_unequal_length_give_the_bars_they_share() {
    let f = feed(60, 9);
    let mut ragged = TechnicalsCalculator::new();
    ragged.initialize(
        &f.closes[..60],
        &f.highs[..45],
        &f.lows[..50],
        &f.volumes[..40],
        &f.times[..3],
        every_family(),
    );
    same_state(&ragged, &initialized_on(&f, 40, every_family()));
    let mut none = TechnicalsCalculator::new();
    none.initialize(&f.closes, &[], &f.lows, &f.volumes, &[], every_family());
    assert_eq!(none.history_len(), 0);
    assert_eq!(none.len(), 21);
    same_state(&none, &initialized_on(&f, 0, every_family()));
}

#[test]
fn momentum_is_seeded_by_what_the_history_keeps() {
    let f = feed(260, 7);
    let mut s = IndicatorSettings::default();
    s.mom.push(MomSettings { length: 199 });
    s.mom.push(MomSettings { length: 200 });
    s.mom.push(MomSettings { length: 250 });
    let calc = initialized_on(&f, 260, s);
    // 200 kept closes reach back 199 places, and no further.
    assert!(calc.indicator(0).is_initialized());
    assert!(!calc.indicator(1).is_initialized());
    assert!(!calc.indicator(2).is_initialized());
    let out = preview(&calc);
    assert_eq!(out.oscillators.len(), 1);
    assert_eq!(out.oscillators[0].key, IndicatorKey::Mom { length: 199 });
    assert_eq!(out.oscillators[0].reading, Reading::Single((102 * UNIT - f.closes[60]) as i128));
}

#[test]
fn every_seeded_instance_reports_and_no_other() {
    let f = feed(230, 17);
    let mut s = every_family();
    s.sma.push(SmaSettings { length: 201 });
    s.mom.push(MomSettings { length: 200 });
    s.wr.push(WrSettings { length: 201 });
    s.ema.push(EmaSettings { length: 300 });
    for n in [0usize, 1, 5, 20, 40, 199, 200, 201, 230] {
        let mut calc = initialized_on(&f, n.min(100), s.clone());
        for i in n.min(100)..n {
            commit(&mut calc, &f, i);
        }
        let out = preview(&calc);
        for i in 0..calc.len() {
            let key = calc.indicator(i).key();
            let entries = match key.partition() {
                Category::MovingAverages => &out.moving_averages,
                Category::Oscillators => &out.oscillators,
                Category::Volatility => &out.volatility,
            };
            let present = entries.iter().filter(|e| e.key == key).count();
            let seeded = calc.indicator(i).is_initialized();
            assert_eq!(present, if seeded { 1 } else { 0 }, "{:?} after {} bars", key, n);
        }
        let total = out.moving_averages.len() + out.oscillators.len() + out.volatility.len();
        let seeded = (0..calc.len()).filter(|i| calc.indicator(*i).is_initialized()).count();
        assert_eq!(total, seeded);
    }
}

#[test]
fn values_beyond_the_range_count_as_the_largest_admissible() {
    let f = feed(40, 31);
    let mut wild = f.closes.clone();
    wild[7] = i64::MAX;
    wild[9] = i64::MIN;
    let mut tame = f.closes.clone();
    tame[7] = VALUE_MAX;
    tame[9] = -VALUE_MAX;
    let mut a = TechnicalsCalculator::new();
    a.initialize(&wild, &f.highs, &f.lows, &f.volumes, &f.times, every_family());
    let mut b = TechnicalsCalculator::new();
    b.initialize(&tame, &f.highs, &f.lows, &f.volumes, &f.times, every_family());
    same_state(&a, &b);
    assert_eq!(
        a.update(i64::MAX, i64::MAX, i64::MIN, i64::MAX, i64::MAX, 5),
        b.update(VALUE_MAX, VALUE_MAX, -VALUE_MAX, VALUE_MAX, VALUE_MAX, 5)
    );
    a.shift(i64::MIN, i64::MAX, i64::MIN, i64::MIN, i64::MAX, 5);
    b.shift(-VALUE_MAX, VALUE_MAX, -VALUE_MAX, -VALUE_MAX, VALUE_MAX, 5);
    same_state(&a, &b);
    a.roll_pivots(PivotKind::Woodie, i64::MAX, i64::MAX, i64::MIN, 0);
    b.roll_pivots(PivotKind::Woodie, VALUE_MAX, VALUE_MAX, -VALUE_MAX, 0);
    assert_eq!(a.pivots(), b.pivots());
}
